//! What the color at a hit is made of: which further rays are cast, with
//! how much depth left, and how their colors are weighed.

use crate::computations::Computations;
use crate::intersection::{is_hit_at, Intersection, Intersections};
use crate::ray::Ray;
use crate::scalar::{Scalar, ONE_BITS};
use crate::vector::Vector;
use crate::world::World;
use vstd::prelude::*;

verus! {

/// The light that comes to a hit by one further ray.
#[derive(Clone, Copy, Debug, PartialEq, Eq, Structural)]
pub enum Bounce {
    /// None: no ray is cast.
    Black,
    /// The color seen along `ray` with depth `remaining`, times `share`.
    Cast { ray: Ray, remaining: isize, share: Scalar },
}

/// The parts of the color at a hit besides what the lights give directly.
#[derive(Clone, Copy, Debug, PartialEq, Eq, Structural)]
pub struct Shading {
    pub reflected: Bounce,
    pub refracted: Bounce,
    /// Whether the two are weighed against each other by the Fresnel
    /// reflectance, the reflected part times the reflectance and the
    /// refracted part times what is left of one, or simply added.
    pub fresnel: bool,
}

/// Something stands in the way before `distance`: the hit among the
/// crossings has a parameter that is less.
pub open spec fn blocked(s: Seq<Intersection>, distance: Scalar) -> bool {
    exists|k: int| is_hit_at(s, k) && s[k].t.precedes(distance)
}

impl World {
    /// The mirrored light at a hit: black where the material does not
    /// reflect or no depth is left; else the color seen from the lifted
    /// point along the mirrored direction, with one less depth, times the
    /// material's reflective share.
    pub open spec fn mirrored(self, comps: Computations, remaining: isize) -> Bounce {
        let material = self.shapes()[comps.object_id as int].material;
        if !material.reflects() || remaining <= 0 {
            Bounce::Black
        } else {
            Bounce::Cast {
                ray: Ray { origin: comps.over_point, direction: comps.reflectv },
                remaining: (remaining - 1) as isize,
                share: material.reflective,
            }
        }
    }

    /// The light that comes through the surface at a hit: black where the
    /// material lets none through, where no depth is left, or where the
    /// light is reflected back inside altogether (`sin2_t`, the squared
    /// sine of the angle of the bent ray, is above one); else the color seen
    /// from the pushed point along the bent `direction`, with one less
    /// depth, times the material's transparency.
    pub open spec fn transmitted(
        self,
        comps: Computations,
        remaining: isize,
        sin2_t: Scalar,
        direction: Vector,
    ) -> Bounce {
        let material = self.shapes()[comps.object_id as int].material;
        if !material.transmits() || remaining <= 0 {
            Bounce::Black
        } else if (Scalar { bits: ONE_BITS }).precedes(sin2_t) {
            Bounce::Black
        } else {
            Bounce::Cast {
                ray: Ray { origin: comps.under_point, direction },
                remaining: (remaining - 1) as isize,
                share: material.transparency,
            }
        }
    }

    pub fn reflected_color(&self, comps: &Computations, remaining: isize) -> (b: Bounce)
        requires
            comps.object_id < self.shapes().len(),
        ensures
            b == self.mirrored(*comps, remaining),
            remaining <= 0 ==> b is Black,
    {
        let material = self.get_shapes()[comps.object_id].get_material();
        if !material.is_reflective() || remaining <= 0 {
            return Bounce::Black;
        }
        Bounce::Cast {
            ray: Ray::new(comps.over_point, comps.reflectv),
            remaining: remaining - 1,
            share: material.reflective,
        }
    }

    pub fn refracted_color(
        &self,
        comps: &Computations,
        remaining: isize,
        sin2_t: Scalar,
        direction: Vector,
    ) -> (b: Bounce)
        requires
            comps.object_id < self.shapes().len(),
        ensures
            b == self.transmitted(*comps, remaining, sin2_t, direction),
            remaining <= 0 ==> b is Black,
    {
        let material = self.get_shapes()[comps.object_id].get_material();
        if !material.is_transparent() || remaining <= 0 {
            return Bounce::Black;
        }
        if sin2_t.gt(Scalar::one()) {
            return Bounce::Black;
        }
        Bounce::Cast {
            ray: Ray::new(comps.under_point, direction),
            remaining: remaining - 1,
            share: material.transparency,
        }
    }

    /// What is added at a hit to the light that the lights give directly.
    /// Both further rays get the same depth, one less than `remaining`;
    /// their colors are weighed by the Fresnel reflectance exactly when
    /// the material both reflects and lets light through.
    pub fn shade_hit(
        &self,
        comps: &Computations,
        remaining: isize,
        sin2_t: Scalar,
        direction: Vector,
    ) -> (s: Shading)
        requires
            comps.object_id < self.shapes().len(),
        ensures
            s.reflected == self.mirrored(*comps, remaining),
            s.refracted == self.transmitted(*comps, remaining, sin2_t, direction),
            s.fresnel == (self.shapes()[comps.object_id as int].material.reflects()
                && self.shapes()[comps.object_id as int].material.transmits()),
    {
        let material = self.get_shapes()[comps.object_id].get_material();
        let reflected = self.reflected_color(comps, remaining);
        let refracted = self.refracted_color(comps, remaining, sin2_t, direction);
        Shading {
            reflected,
            refracted,
            fresnel: material.is_reflective() && material.is_transparent(),
        }
    }

    /// Whether a point lies in shadow, given the crossings of the ray from
    /// the point towards a light and the distance to that light: it does
    /// when the ray hits something before it reaches the light.
    pub fn is_shadowed(&self, intersections: &Intersections, distance: Scalar) -> (b: bool)
        ensures
            b == blocked(intersections@, distance),
    {
        match intersections.hit_index() {
            Some(k) => {
                let shadowed = intersections.at(k).t.lt(distance);
                proof {
                    let s = intersections@;
                    if exists|m: int| is_hit_at(s, m) && s[m].t.precedes(distance) {
                        let m = choose|m: int| is_hit_at(s, m) && s[m].t.precedes(distance);
                        if m < k {
                            assert(!s[m].ahead());
                        } else if k < m {
                            assert(!s[k as int].ahead());
                        }
                    }
                }
                shadowed
            },
            None => {
                proof {
                    let s = intersections@;
                    assert forall|m: int| !(is_hit_at(s, m) && s[m].t.precedes(distance)) by {
                        if is_hit_at(s, m) {
                            assert(!s[m].ahead());
                        }
                    }
                }
                false
            },
        }
    }
}

impl World {
    /// Whether a light is kept from a point, given the crossings of the ray
    /// from the point towards the light and the distance to the light:
    /// never in a world whose shapes cast no shadows, else when the ray
    /// hits something before it reaches the light.
    pub fn in_shadow(&self, intersections: &Intersections, distance: Scalar) -> (b: bool)
        ensures
            b == (self.shadows() && blocked(intersections@, distance)),
    {
        self.handles_shadows() && self.is_shadowed(intersections, distance)
    }
}

/// However a surface is made, no further ray is cast once the depth is used
/// up: the mirrored and the transmitted light are then both black.
pub proof fn lemma_no_bounce_without_depth(
    world: World,
    comps: Computations,
    remaining: isize,
    sin2_t: Scalar,
    direction: Vector,
)
    requires
        remaining <= 0,
    ensures
        world.mirrored(comps, remaining) == Bounce::Black,
        world.transmitted(comps, remaining, sin2_t, direction) == Bounce::Black,
{
}

/// A further ray always has less depth than the ray that caused it, and
/// never less than none: so a ray of depth `remaining` is followed through
/// at most `remaining` further hits.
pub proof fn lemma_bounce_uses_depth(
    world: World,
    comps: Computations,
    remaining: isize,
    sin2_t: Scalar,
    direction: Vector,
)
    ensures
        world.mirrored(comps, remaining) matches Bounce::Cast { remaining: left, .. } ==> 0 <= left
            < remaining,
        world.transmitted(comps, remaining, sin2_t, direction) matches Bounce::Cast {
            remaining: left,
            ..
        } ==> 0 <= left < remaining,
{
}

} // verus!
