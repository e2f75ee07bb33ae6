//! Points and vectors in one type, told apart by a fourth component.

use crate::scalar::{Scalar, ONE_BITS};
use vstd::prelude::*;

verus! {

/// Three coordinates and `w`, which is one for a point and zero for a
/// vector.
#[derive(Clone, Copy, Debug, PartialEq, Eq, Structural)]
pub struct Tuple {
    pub x: Scalar,
    pub y: Scalar,
    pub z: Scalar,
    pub w: Scalar,
}

impl Tuple {
    /// The opposite tuple: each component with its sign flipped.
    pub open spec fn negated(self) -> Tuple {
        Tuple {
            x: self.x.negated(),
            y: self.y.negated(),
            z: self.z.negated(),
            w: self.w.negated(),
        }
    }

    pub fn new(x: Scalar, y: Scalar, z: Scalar, w: Scalar) -> (t: Tuple)
        ensures
            t == (Tuple { x, y, z, w }),
    {
        Tuple { x, y, z, w }
    }

    pub fn neg(self) -> (t: Tuple)
        ensures
            t == self.negated(),
    {
        Tuple { x: self.x.neg(), y: self.y.neg(), z: self.z.neg(), w: self.w.neg() }
    }
}

/// The tuple of a point: `w` is one.
pub fn new_point(x: Scalar, y: Scalar, z: Scalar) -> (t: Tuple)
    ensures
        t == (Tuple { x, y, z, w: Scalar { bits: ONE_BITS } }),
{
    Tuple::new(x, y, z, Scalar::one())
}

/// The tuple of a vector: `w` is positive zero.
pub fn new_vector(x: Scalar, y: Scalar, z: Scalar) -> (t: Tuple)
    ensures
        t == (Tuple { x, y, z, w: Scalar { bits: 0 } }),
{
    Tuple::new(x, y, z, Scalar::zero())
}

} // verus!
