//! The cube from -1 to 1 along each axis of its own space.

use crate::point::Point;
use crate::scalar::Scalar;
use crate::vector::Vector;
use vstd::prelude::*;

verus! {

/// The axis-aligned cube with corners at (-1, -1, -1) and (1, 1, 1).
#[derive(Clone, Copy, Debug, PartialEq, Eq, Structural)]
pub struct Cube {}

/// The two parameters of a slab, the lesser first; a pair that holds a NaN
/// is left as it stands.
pub open spec fn ordered_pair(a: Scalar, b: Scalar) -> (Scalar, Scalar) {
    if b.precedes(a) {
        (b, a)
    } else {
        (a, b)
    }
}

/// The interval in which a ray is inside all three slabs: from the greatest
/// of the three entries to the least of the three exits.
pub open spec fn slab_interval(x: (Scalar, Scalar), y: (Scalar, Scalar), z: (Scalar, Scalar)) -> (
    Scalar,
    Scalar,
) {
    let xs = ordered_pair(x.0, x.1);
    let ys = ordered_pair(y.0, y.1);
    let zs = ordered_pair(z.0, z.1);
    (xs.0.greater_of(ys.0).greater_of(zs.0), xs.1.lesser_of(ys.1).lesser_of(zs.1))
}

/// Orders the parameters at which a ray's line meets the two planes of one
/// slab: entry first, exit second.
pub fn check_axis(a: Scalar, b: Scalar) -> (r: (Scalar, Scalar))
    ensures
        r == ordered_pair(a, b),
{
    if a.gt(b) {
        (b, a)
    } else {
        (a, b)
    }
}

impl Cube {
    /// The normal of the face that `point` is nearest to: the unit vector
    /// along the axis of the coordinate of greatest magnitude, with that
    /// coordinate's sign; x before y before z where magnitudes tie.
    ///
    /// The sign is the coordinate's sign bit: a coordinate of zero gives
    /// plus one and one of negative zero minus one. A coordinate that is a
    /// NaN is passed over; where all three are NaNs the normal stands on the
    /// z axis.
    pub open spec fn normal_of(point: Point) -> Vector {
        let ax = point.x.absolute();
        let ay = point.y.absolute();
        let az = point.z.absolute();
        let maxc = ax.greater_of(ay).greater_of(az);
        if maxc.equals(ax) {
            Vector { x: point.x.signed_one(), y: Scalar { bits: 0 }, z: Scalar { bits: 0 } }
        } else if maxc.equals(ay) {
            Vector { x: Scalar { bits: 0 }, y: point.y.signed_one(), z: Scalar { bits: 0 } }
        } else {
            Vector { x: Scalar { bits: 0 }, y: Scalar { bits: 0 }, z: point.z.signed_one() }
        }
    }

    pub fn new() -> (c: Cube)
        ensures
            c == (Cube {  }),
    {
        Cube {  }
    }

    /// The roots a ray has with the cube, given for each axis the two
    /// parameters at which its line meets the planes at -1 and at 1: none
    /// where the ray leaves one slab before it has entered another, else
    /// the ends of the interval in which it is inside all three.
    pub fn local_intersect(&self, x: (Scalar, Scalar), y: (Scalar, Scalar), z: (Scalar, Scalar)) -> (ts:
        Vec<Scalar>)
        ensures
            ts@ == if slab_interval(x, y, z).1.precedes(slab_interval(x, y, z).0) {
                Seq::<Scalar>::empty()
            } else {
                seq![slab_interval(x, y, z).0, slab_interval(x, y, z).1]
            },
    {
        let (xtmin, xtmax) = check_axis(x.0, x.1);
        let (ytmin, ytmax) = check_axis(y.0, y.1);
        let (ztmin, ztmax) = check_axis(z.0, z.1);
        let tmin: Scalar = xtmin.max(ytmin).max(ztmin);
        let tmax: Scalar = xtmax.min(ytmax).min(ztmax);
        if tmin.gt(tmax) {
            Vec::new()
        } else {
            vec![tmin, tmax]
        }
    }

    /// The normal of the cube at `point`: one of the six unit vectors along
    /// the axes, for every point there is.
    pub fn local_normal_at(&self, point: &Point) -> (n: Vector)
        ensures
            n == Cube::normal_of(*point),
            n.unit_axis(),
    {
        let ax: Scalar = point.x.abs();
        let ay: Scalar = point.y.abs();
        let az: Scalar = point.z.abs();
        let maxc: Scalar = ax.max(ay).max(az);
        if maxc.same_value(ax) {
            Vector::new(point.x.sign(), Scalar::zero(), Scalar::zero())
        } else if maxc.same_value(ay) {
            Vector::new(Scalar::zero(), point.y.sign(), Scalar::zero())
        } else {
            Vector::new(Scalar::zero(), Scalar::zero(), point.z.sign())
        }
    }
}

/// Where no coordinate is a NaN, the cube's normal stands on the x axis
/// exactly when no coordinate has a greater magnitude than x, on the y axis
/// when y has a greater magnitude than x and z has none greater than y, and
/// on the z axis otherwise; and it points the way that coordinate does.
pub proof fn lemma_cube_normal_picks_greatest(point: Point)
    requires
        !point.x.nan(),
        !point.y.nan(),
        !point.z.nan(),
    ensures
        Cube::normal_of(point) == if point.x.magnitude() >= point.y.magnitude()
            && point.x.magnitude() >= point.z.magnitude() {
            Vector { x: point.x.signed_one(), y: Scalar { bits: 0 }, z: Scalar { bits: 0 } }
        } else if point.y.magnitude() >= point.z.magnitude() {
            Vector { x: Scalar { bits: 0 }, y: point.y.signed_one(), z: Scalar { bits: 0 } }
        } else {
            Vector { x: Scalar { bits: 0 }, y: Scalar { bits: 0 }, z: point.z.signed_one() }
        },
        Cube::normal_of(point).unit_axis(),
{
}

} // verus!
