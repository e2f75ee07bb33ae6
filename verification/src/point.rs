//! Points of space.

use crate::scalar::Scalar;
use vstd::prelude::*;

verus! {

/// A place in space, by its three coordinates.
#[derive(Clone, Copy, Debug, PartialEq, Eq, Structural)]
pub struct Point {
    pub x: Scalar,
    pub y: Scalar,
    pub z: Scalar,
}

impl Point {
    /// The point whose coordinates are all positive zero.
    pub open spec fn at_origin() -> Point {
        Point { x: Scalar { bits: 0 }, y: Scalar { bits: 0 }, z: Scalar { bits: 0 } }
    }

    pub fn origin() -> (p: Point)
        ensures
            p == Point::at_origin(),
    {
        Point { x: Scalar::zero(), y: Scalar::zero(), z: Scalar::zero() }
    }

    pub fn new(x: Scalar, y: Scalar, z: Scalar) -> (p: Point)
        ensures
            p == (Point { x, y, z }),
    {
        Point { x, y, z }
    }
}

} // verus!
