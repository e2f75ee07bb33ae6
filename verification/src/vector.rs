//! Directions of space.

use crate::scalar::{Scalar, ONE_BITS};
use vstd::prelude::*;

verus! {

/// A displacement in space, by its three components.
#[derive(Clone, Copy, Debug, PartialEq, Eq, Structural)]
pub struct Vector {
    pub x: Scalar,
    pub y: Scalar,
    pub z: Scalar,
}

impl Vector {
    /// The vector whose components are all positive zero.
    pub open spec fn null() -> Vector {
        Vector { x: Scalar { bits: 0 }, y: Scalar { bits: 0 }, z: Scalar { bits: 0 } }
    }

    pub fn zero() -> (v: Vector)
        ensures
            v == Vector::null(),
    {
        Vector { x: Scalar::zero(), y: Scalar::zero(), z: Scalar::zero() }
    }

    pub fn new(x: Scalar, y: Scalar, z: Scalar) -> (v: Vector)
        ensures
            v == (Vector { x, y, z }),
    {
        Vector { x, y, z }
    }

    /// The opposite vector: each component with its sign flipped.
    pub open spec fn negated(self) -> Vector {
        Vector { x: self.x.negated(), y: self.y.negated(), z: self.z.negated() }
    }

    /// Whether the vector is one of the six unit vectors along the axes:
    /// plus or minus one in one component and positive zero in the two
    /// others.
    pub open spec fn unit_axis(self) -> bool {
        ||| self.x.magnitude() == ONE_BITS && self.y.bits == 0 && self.z.bits == 0
        ||| self.x.bits == 0 && self.y.magnitude() == ONE_BITS && self.z.bits == 0
        ||| self.x.bits == 0 && self.y.bits == 0 && self.z.magnitude() == ONE_BITS
    }

    pub fn neg(self) -> (v: Vector)
        ensures
            v == self.negated(),
    {
        Vector { x: self.x.neg(), y: self.y.neg(), z: self.z.neg() }
    }
}

} // verus!
