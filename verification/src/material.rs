//! What a surface is made of.

use crate::color::Color;
use crate::pattern::Pattern;
use crate::scalar::{Scalar, ONE_BITS};
use crate::transform::Affine;
use vstd::prelude::*;

verus! {

/// The pattern of the default ambient share, the double nearest to 1/10.
pub const DEFAULT_AMBIENT_BITS: u64 = 0x3fb9_9999_9999_999a;

/// The pattern of the default diffuse and specular shares, the double nearest
/// to 9/10.
pub const DEFAULT_DIFFUSE_BITS: u64 = 0x3fec_cccc_cccc_cccd;

/// The pattern of the default shininess, 200.
pub const DEFAULT_SHININESS_BITS: u64 = 0x4069_0000_0000_0000;

/// Where a surface takes its color from.
#[derive(Clone, Copy, Debug)]
pub enum Surface {
    /// One color everywhere.
    Solid(Color),
    /// A pattern, with the map that takes a point of the shape's own space
    /// into the pattern's space.
    Custom(Pattern, Affine),
}

/// Which of the three parts of Phong's model a light adds at a point.
#[derive(Clone, Copy, Debug, PartialEq, Eq, Structural)]
pub enum Phong {
    /// The point is in shadow: the ambient part alone.
    Shadowed,
    /// The light is behind the surface: the ambient part, and black for
    /// the two others.
    Behind,
    /// The light is mirrored away from the eye: the ambient and the
    /// diffuse part, and black for the highlight.
    Matt,
    /// All three parts.
    Highlight,
}

/// A surface: its color, its Phong shares and its optical behaviour.
#[derive(Clone, Copy, Debug)]
pub struct Material {
    pub color: Surface,
    pub ambient: Scalar,
    pub diffuse: Scalar,
    pub specular: Scalar,
    pub shininess: Scalar,
    pub reflective: Scalar,
    pub transparency: Scalar,
    pub refractive_index: Scalar,
}

impl Material {
    /// The default surface: white, matt, opaque, with the refractive index
    /// of empty space.
    pub open spec fn standard() -> Material {
        Material {
            color: Surface::Solid(Color::full()),
            ambient: Scalar { bits: DEFAULT_AMBIENT_BITS },
            diffuse: Scalar { bits: DEFAULT_DIFFUSE_BITS },
            specular: Scalar { bits: DEFAULT_DIFFUSE_BITS },
            shininess: Scalar { bits: DEFAULT_SHININESS_BITS },
            reflective: Scalar { bits: 0 },
            transparency: Scalar { bits: 0 },
            refractive_index: Scalar { bits: ONE_BITS },
        }
    }

    /// Whether the surface mirrors at all: its reflective share is not zero.
    pub open spec fn reflects(self) -> bool {
        !self.reflective.equals(Scalar { bits: 0 })
    }

    /// Whether the surface lets light through at all: its transparency is
    /// not zero.
    pub open spec fn transmits(self) -> bool {
        !self.transparency.equals(Scalar { bits: 0 })
    }

    pub fn new() -> (m: Material)
        ensures
            m == Material::standard(),
    {
        Material {
            color: Surface::Solid(Color::white()),
            ambient: Scalar::from_bits(DEFAULT_AMBIENT_BITS),
            diffuse: Scalar::from_bits(DEFAULT_DIFFUSE_BITS),
            specular: Scalar::from_bits(DEFAULT_DIFFUSE_BITS),
            shininess: Scalar::from_bits(DEFAULT_SHININESS_BITS),
            reflective: Scalar::zero(),
            transparency: Scalar::zero(),
            refractive_index: Scalar::one(),
        }
    }

    pub fn set_color(&self, color: Color) -> (m: Material)
        ensures
            m == (Material { color: Surface::Solid(color), ..*self }),
    {
        Material { color: Surface::Solid(color), ..*self }
    }

    /// Gives the surface a pattern. `inverse_transform` takes a point of the
    /// shape's own space into the pattern's space: the inverse of the map
    /// that places the pattern on the shape.
    pub fn set_pattern(&self, pattern: Pattern, inverse_transform: Affine) -> (m: Material)
        ensures
            m == (Material { color: Surface::Custom(pattern, inverse_transform), ..*self }),
    {
        Material { color: Surface::Custom(pattern, inverse_transform), ..*self }
    }

    pub fn set_ambient(self, ambient: Scalar) -> (m: Material)
        ensures
            m == (Material { ambient, ..self }),
    {
        Material { ambient, ..self }
    }

    pub fn set_diffuse(self, diffuse: Scalar) -> (m: Material)
        ensures
            m == (Material { diffuse, ..self }),
    {
        Material { diffuse, ..self }
    }

    pub fn set_specular(self, specular: Scalar) -> (m: Material)
        ensures
            m == (Material { specular, ..self }),
    {
        Material { specular, ..self }
    }

    pub fn set_shininess(self, shininess: Scalar) -> (m: Material)
        ensures
            m == (Material { shininess, ..self }),
    {
        Material { shininess, ..self }
    }

    pub fn set_reflective(self, reflective: Scalar) -> (m: Material)
        ensures
            m == (Material { reflective, ..self }),
    {
        Material { reflective, ..self }
    }

    pub fn set_transparency(self, transparency: Scalar) -> (m: Material)
        ensures
            m == (Material { transparency, ..self }),
    {
        Material { transparency, ..self }
    }

    pub fn set_refractive_index(self, refractive_index: Scalar) -> (m: Material)
        ensures
            m == (Material { refractive_index, ..self }),
    {
        Material { refractive_index, ..self }
    }

    pub fn get_refractive_index(&self) -> (n: Scalar)
        ensures
            n == self.refractive_index,
    {
        self.refractive_index
    }

    pub fn is_reflective(&self) -> (b: bool)
        ensures
            b == self.reflects(),
    {
        !self.reflective.same_value(Scalar::zero())
    }

    pub fn is_transparent(&self) -> (b: bool)
        ensures
            b == self.transmits(),
    {
        !self.transparency.same_value(Scalar::zero())
    }

    /// Which parts of Phong's model count at a point, given whether the
    /// point is in shadow, the cosine of the angle between the direction to
    /// the light and the normal, and the cosine of the angle between the
    /// mirrored light and the direction to the eye.
    pub open spec fn lit(in_shadow: bool, light_dot_normal: Scalar, reflect_dot_eye: Scalar) -> Phong {
        if in_shadow {
            Phong::Shadowed
        } else if light_dot_normal.precedes(Scalar { bits: 0 }) {
            Phong::Behind
        } else if reflect_dot_eye.at_most(Scalar { bits: 0 }) {
            Phong::Matt
        } else {
            Phong::Highlight
        }
    }

    pub fn lighting(in_shadow: bool, light_dot_normal: Scalar, reflect_dot_eye: Scalar) -> (p:
        Phong)
        ensures
            p == Material::lit(in_shadow, light_dot_normal, reflect_dot_eye),
    {
        if in_shadow {
            return Phong::Shadowed;
        }
        if light_dot_normal.lt(Scalar::zero()) {
            Phong::Behind
        } else if reflect_dot_eye.le(Scalar::zero()) {
            Phong::Matt
        } else {
            Phong::Highlight
        }
    }

    /// The color of the surface in cell `cell` of its pattern; a solid
    /// surface has its one color in every cell. `None` where the surface
    /// has a pattern of the caller's own, whose colors only the caller
    /// knows.
    pub fn surface_color(&self, cell: i32) -> (c: Option<Color>)
        ensures
            c == match self.color {
                Surface::Solid(solid) => Some(solid),
                Surface::Custom(pattern, _) => pattern.color_in(cell),
            },
    {
        match &self.color {
            Surface::Solid(solid) => Some(*solid),
            Surface::Custom(pattern, _) => pattern.get_color(cell),
        }
    }
}

} // verus!
