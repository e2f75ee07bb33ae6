//! Light sources.

use crate::color::Color;
use crate::point::Point;
use vstd::prelude::*;

verus! {

/// A light without size: where it is and what it gives out.
#[derive(Clone, Copy, Debug, PartialEq, Eq, Structural)]
pub struct PointLight {
    pub position: Point,
    pub intensity: Color,
}

impl PointLight {
    pub fn new(position: Point, intensity: Color) -> (l: PointLight)
        ensures
            l == (PointLight { position, intensity }),
    {
        PointLight { position, intensity }
    }
}

} // verus!
