//! The state of one crossing, made ready for shading.

use crate::intersection::Intersections;
use crate::point::Point;
use crate::ray::Ray;
use crate::scalar::{Scalar, ONE_BITS};
use crate::vector::Vector;
use crate::world::{
    containers_after, index_of_refraction, is_first_position, lemma_containers_are_crossed,
    first_within, medium_after, toggled, World,
};
use vstd::prelude::*;

verus! {

/// What rounding arithmetic gives for one crossing of a ray with a shape.
#[derive(Clone, Copy, Debug, PartialEq, Eq, Structural)]
pub struct HitGeometry {
    /// Where the ray crosses the surface.
    pub point: Point,
    /// The normal of the surface there, pointing out of the shape.
    pub normal: Vector,
    /// The dot product of that normal and the direction back along the ray.
    pub facing: Scalar,
    /// The point moved by the tolerance along the normal.
    pub raised: Point,
    /// The point moved by the tolerance against the normal.
    pub sunk: Point,
    /// The ray's direction mirrored at the surface.
    pub reflectv: Vector,
}

/// One crossing as shading needs it.
#[derive(Clone, Copy, Debug, PartialEq, Eq, Structural)]
pub struct Computations {
    pub t: Scalar,
    pub object_id: usize,
    pub point: Point,
    /// The point, lifted off the surface to the side the ray came from.
    pub over_point: Point,
    /// The point, pushed through the surface to the far side.
    pub under_point: Point,
    /// The direction back along the ray.
    pub eyev: Vector,
    /// The normal on the side the ray came from.
    pub normalv: Vector,
    pub reflectv: Vector,
    /// Whether the ray crosses the surface from the inside of the shape.
    pub inside: bool,
    /// The refractive index of the medium the ray leaves.
    pub n1: Scalar,
    /// The refractive index of the medium the ray enters.
    pub n2: Scalar,
}

/// How much of the light a surface mirrors, as far as it can be said
/// without arithmetic.
#[derive(Clone, Copy, Debug, PartialEq, Eq, Structural)]
pub enum Reflectance {
    /// All of it: the light comes from the denser medium at too flat an
    /// angle to get out.
    Total,
    /// What Schlick's formula gives for the cosine `cos`.
    Partial { cos: Scalar },
}

impl Computations {
    /// The case of Schlick's approximation at this crossing, given the
    /// cosine `cos` of the angle between eye and normal, the squared sine
    /// `sin2_t` of the angle of the bent ray and its cosine `cos_t`. Only
    /// light that leaves the denser medium (`n1 > n2`) can be mirrored
    /// altogether, and it is when `sin2_t` is above one; where it is not,
    /// the formula takes the cosine of the bent ray. In every other case it
    /// takes `cos`.
    pub open spec fn reflectance(self, cos: Scalar, sin2_t: Scalar, cos_t: Scalar) -> Reflectance {
        if self.n2.precedes(self.n1) {
            if (Scalar { bits: ONE_BITS }).precedes(sin2_t) {
                Reflectance::Total
            } else {
                Reflectance::Partial { cos: cos_t }
            }
        } else {
            Reflectance::Partial { cos }
        }
    }

    pub fn schlick(&self, cos: Scalar, sin2_t: Scalar, cos_t: Scalar) -> (r: Reflectance)
        ensures
            r == self.reflectance(cos, sin2_t, cos_t),
    {
        if self.n1.gt(self.n2) {
            if sin2_t.gt(Scalar::one()) {
                return Reflectance::Total;
            }
            return Reflectance::Partial { cos: cos_t };
        }
        Reflectance::Partial { cos }
    }
}

/// Crosses the surface of shape `id`: takes it away where it stands first,
/// puts it at the end where it does not stand.
fn toggle(containers: &mut Vec<usize>, id: usize)
    ensures
        final(containers)@ == toggled(old(containers)@, id),
{
    let mut p: usize = 0;
    while p < containers.len()
        invariant
            p <= containers.len(),
            containers@ == old(containers)@,
            forall|j: int| 0 <= j < p ==> containers@[j] != id,
        decreases containers.len() - p,
    {
        if containers[p] == id {
            proof {
                assert(is_first_position(containers@, id, p as int));
                assert(containers@.contains(id));
                let q = choose|q: int| is_first_position(containers@, id, q);
                if p < q {
                    assert(containers@[p as int] != id);
                }
            }
            containers.remove(p);
            return ;
        }
        p += 1;
    }
    proof {
        if containers@.contains(id) {
            let k = choose|k: int| 0 <= k < containers@.len() && containers@[k] == id;
            assert(containers@[k] != id);
        }
    }
    containers.push(id);
}

impl World {
    /// The refractive indices on the two sides of the crossing at
    /// `intersection_index`: of the medium the ray leaves there and of the
    /// medium it enters. Walking the crossings from the first, the ray is
    /// inside every shape whose surface it has crossed once and not twice,
    /// and its medium is the shape it entered last, or empty space.
    pub fn refractive_indices(&self, intersections: &Intersections, intersection_index: usize) -> (n:
        (Scalar, Scalar))
        requires
            intersection_index < intersections@.len(),
            first_within(intersections@, intersection_index + 1, self.shapes().len() as int),
        ensures
            n.0 == index_of_refraction(
                self.shapes(),
                medium_after(intersections@, intersection_index as int),
            ),
            n.1 == index_of_refraction(
                self.shapes(),
                medium_after(intersections@, intersection_index + 1),
            ),
    {
        let shapes = self.get_shapes();
        let mut containers: Vec<usize> = Vec::new();
        let mut n1: Scalar = Scalar::one();
        let mut n2: Scalar = Scalar::one();
        let total: usize = intersections.len();
        let mut index: usize = 0;
        while index <= intersection_index
            invariant
                index <= intersection_index + 1,
                intersection_index < total,
                total == intersections@.len(),
                index <= intersection_index ==> n1.bits == ONE_BITS && n2.bits == ONE_BITS,
                first_within(intersections@, intersection_index + 1, shapes@.len() as int),
                shapes@ == self.shapes(),
                containers@ == containers_after(intersections@, index as int),
                index > intersection_index ==> n1 == index_of_refraction(
                    shapes@,
                    medium_after(intersections@, intersection_index as int),
                ) && n2 == index_of_refraction(
                    shapes@,
                    medium_after(intersections@, intersection_index + 1),
                ),
            decreases intersection_index + 1 - index,
        {
            let id: usize = intersections.at(index).object_id;
            if index == intersection_index {
                proof {
                    lemma_containers_are_crossed(
                        intersections@,
                        index as int,
                        shapes@.len() as int,
                    );
                }
                if containers.len() > 0 {
                    let top: usize = containers[containers.len() - 1];
                    assert(top == containers@[containers@.len() - 1]);
                    n1 = shapes[top].get_material().get_refractive_index();
                }
            }
            toggle(&mut containers, id);
            if index == intersection_index {
                proof {
                    lemma_containers_are_crossed(
                        intersections@,
                        index + 1,
                        shapes@.len() as int,
                    );
                }
                if containers.len() > 0 {
                    let top: usize = containers[containers.len() - 1];
                    assert(top == containers@[containers@.len() - 1]);
                    n2 = shapes[top].get_material().get_refractive_index();
                }
            }
            index += 1;
        }
        (n1, n2)
    }

    /// Makes the crossing at `intersection_index` ready for shading.
    ///
    /// The eye looks back along the ray. Where the surface's normal points
    /// away from the eye the ray comes from inside the shape: the normal is
    /// then turned round, and with it the sides to which the point is
    /// lifted and pushed. The refractive indices are those of
    /// `refractive_indices`.
    pub fn prepare_computations(
        &self,
        intersections: &Intersections,
        intersection_index: usize,
        ray: &Ray,
        geometry: &HitGeometry,
    ) -> (c: Computations)
        requires
            intersection_index < intersections@.len(),
            first_within(intersections@, intersection_index + 1, self.shapes().len() as int),
        ensures
            c.t == intersections@[intersection_index as int].t,
            c.object_id == intersections@[intersection_index as int].object_id,
            c.object_id < self.shapes().len(),
            c.point == geometry.point,
            c.eyev == ray.direction.negated(),
            c.inside == geometry.facing.precedes(Scalar { bits: 0 }),
            c.normalv == if c.inside {
                geometry.normal.negated()
            } else {
                geometry.normal
            },
            c.over_point == if c.inside {
                geometry.sunk
            } else {
                geometry.raised
            },
            c.under_point == if c.inside {
                geometry.raised
            } else {
                geometry.sunk
            },
            c.reflectv == geometry.reflectv,
            c.n1 == index_of_refraction(
                self.shapes(),
                medium_after(intersections@, intersection_index as int),
            ),
            c.n2 == index_of_refraction(
                self.shapes(),
                medium_after(intersections@, intersection_index + 1),
            ),
    {
        let intersection = intersections.at(intersection_index);
        let inside: bool = geometry.facing.lt(Scalar::zero());
        let (n1, n2) = self.refractive_indices(intersections, intersection_index);
        Computations {
            t: intersection.t,
            object_id: intersection.object_id,
            point: geometry.point,
            over_point: if inside {
                geometry.sunk
            } else {
                geometry.raised
            },
            under_point: if inside {
                geometry.raised
            } else {
                geometry.sunk
            },
            eyev: ray.direction.neg(),
            normalv: if inside {
                geometry.normal.neg()
            } else {
                geometry.normal
            },
            reflectv: geometry.reflectv,
            inside,
            n1,
            n2,
        }
    }
}

} // verus!
