//! The plane through the x and z axes of its own space.

use crate::point::Point;
use crate::scalar::{Scalar, EPSILON_BITS, ONE_BITS};
use crate::vector::Vector;
use vstd::prelude::*;

verus! {

/// The plane y = 0, facing up.
#[derive(Clone, Copy, Debug, PartialEq, Eq, Structural)]
pub struct Plane {}

impl Plane {
    /// A ray runs along the plane when the y component of its direction is
    /// closer to zero than the tolerance.
    pub open spec fn parallel(direction_y: Scalar) -> bool {
        direction_y.absolute().precedes(Scalar { bits: EPSILON_BITS })
    }

    pub fn new() -> (p: Plane)
        ensures
            p == (Plane {  }),
    {
        Plane {  }
    }

    /// The roots a ray has with the plane, given the y component of its
    /// direction and the parameter `t` at which its line meets y = 0. A ray
    /// that runs along the plane has none, even where it lies in the plane.
    pub fn local_intersect(&self, direction_y: Scalar, t: Scalar) -> (ts: Vec<Scalar>)
        ensures
            ts@ == if Plane::parallel(direction_y) {
                Seq::<Scalar>::empty()
            } else {
                seq![t]
            },
    {
        if direction_y.abs().lt(Scalar::epsilon()) {
            Vec::new()
        } else {
            vec![t]
        }
    }

    /// The normal of the plane, the same everywhere: one unit up.
    pub fn local_normal_at(&self, point: &Point) -> (n: Vector)
        ensures
            n == (Vector {
                x: Scalar { bits: 0 },
                y: Scalar { bits: ONE_BITS },
                z: Scalar { bits: 0 },
            }),
            n.unit_axis(),
    {
        Vector::new(Scalar::zero(), Scalar::one(), Scalar::zero())
    }
}

} // verus!
