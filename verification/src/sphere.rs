//! The unit sphere about the origin of its own space.

use crate::point::Point;
use crate::scalar::Scalar;
use crate::vector::Vector;
use vstd::prelude::*;

verus! {

/// The sphere of radius one about the origin.
#[derive(Clone, Copy, Debug, PartialEq, Eq, Structural)]
pub struct Sphere {}

impl Sphere {
    pub fn new() -> (s: Sphere)
        ensures
            s == (Sphere {  }),
    {
        Sphere {  }
    }

    /// The roots a ray has with the sphere, given the discriminant of its
    /// quadratic and the two roots computed from it: none where the
    /// discriminant is negative, else both, the one with the subtracted
    /// square root first. A tangent ray gives the same root twice.
    pub fn local_intersect(&self, discriminant: Scalar, t1: Scalar, t2: Scalar) -> (ts: Vec<Scalar>)
        ensures
            ts@ == if discriminant.precedes(Scalar { bits: 0 }) {
                Seq::<Scalar>::empty()
            } else {
                seq![t1, t2]
            },
    {
        if discriminant.lt(Scalar::zero()) {
            Vec::new()
        } else {
            vec![t1, t2]
        }
    }

    /// The normal at a point of the sphere: the way from the origin to the
    /// point.
    pub fn local_normal_at(&self, point: &Point) -> (n: Vector)
        ensures
            n == (Vector { x: point.x, y: point.y, z: point.z }),
    {
        Vector::new(point.x, point.y, point.z)
    }
}

} // verus!
