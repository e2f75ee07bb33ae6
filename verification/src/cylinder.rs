//! The endless cylinder of radius one about the y axis of its own space.

use crate::point::Point;
use crate::scalar::{Scalar, EPSILON_BITS};
use crate::vector::Vector;
use vstd::prelude::*;

verus! {

/// The tube x*x + z*z = 1, without ends.
#[derive(Clone, Copy, Debug, PartialEq, Eq, Structural)]
pub struct Cylinder {}

impl Cylinder {
    /// A ray misses the tube when it runs along the axis (`a`, the leading
    /// coefficient of its quadratic, is below the tolerance) or when the
    /// discriminant is negative.
    pub open spec fn misses(a: Scalar, discriminant: Scalar) -> bool {
        a.precedes(Scalar { bits: EPSILON_BITS }) || discriminant.precedes(Scalar { bits: 0 })
    }

    pub fn new() -> (c: Cylinder)
        ensures
            c == (Cylinder {  }),
    {
        Cylinder {  }
    }

    /// The roots a ray has with the tube, given the leading coefficient
    /// and the discriminant of its quadratic in x and z, and the two roots
    /// computed from them.
    pub fn local_intersect(&self, a: Scalar, discriminant: Scalar, t1: Scalar, t2: Scalar) -> (ts:
        Vec<Scalar>)
        ensures
            ts@ == if Cylinder::misses(a, discriminant) {
                Seq::<Scalar>::empty()
            } else {
                seq![t1, t2]
            },
    {
        if a.lt(Scalar::epsilon()) {
            return Vec::new();
        }
        if discriminant.lt(Scalar::zero()) {
            return Vec::new();
        }
        vec![t1, t2]
    }

    /// The normal at a point of the tube: straight away from the axis.
    pub fn local_normal_at(&self, point: &Point) -> (n: Vector)
        ensures
            n == (Vector { x: point.x, y: Scalar { bits: 0 }, z: point.z }),
    {
        Vector::new(point.x, Scalar::zero(), point.z)
    }
}

} // verus!
