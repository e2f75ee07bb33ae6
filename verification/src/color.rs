//! Colors.

use crate::scalar::{Scalar, ONE_BITS};
use vstd::prelude::*;

verus! {

/// A color, by its three channels; a channel of one is full intensity.
#[derive(Clone, Copy, Debug, PartialEq, Eq, Structural)]
pub struct Color {
    pub red: Scalar,
    pub green: Scalar,
    pub blue: Scalar,
}

impl Color {
    /// No light at all: positive zero in every channel.
    pub open spec fn dark() -> Color {
        Color { red: Scalar { bits: 0 }, green: Scalar { bits: 0 }, blue: Scalar { bits: 0 } }
    }

    /// Full intensity: one in every channel.
    pub open spec fn full() -> Color {
        Color {
            red: Scalar { bits: ONE_BITS },
            green: Scalar { bits: ONE_BITS },
            blue: Scalar { bits: ONE_BITS },
        }
    }

    pub fn black() -> (c: Color)
        ensures
            c == Color::dark(),
    {
        Color { red: Scalar::zero(), green: Scalar::zero(), blue: Scalar::zero() }
    }

    pub fn white() -> (c: Color)
        ensures
            c == Color::full(),
    {
        Color { red: Scalar::one(), green: Scalar::one(), blue: Scalar::one() }
    }

    pub fn new(red: Scalar, green: Scalar, blue: Scalar) -> (c: Color)
        ensures
            c == (Color { red, green, blue }),
    {
        Color { red, green, blue }
    }
}

} // verus!
