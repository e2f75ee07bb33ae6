//! Shapes placed in the world: a primitive, where it stands and what it is
//! made of.

use crate::cube::Cube;
use crate::cylinder::Cylinder;
use crate::material::Material;
use crate::plane::Plane;
use crate::point::Point;
use crate::sphere::Sphere;
use crate::transform::Affine;
use crate::vector::Vector;
use vstd::prelude::*;

verus! {

/// The primitives, each in its own space.
#[derive(Clone, Copy, Debug, PartialEq, Eq, Structural)]
pub enum LocalShape {
    Sphere(Sphere),
    Plane(Plane),
    Cube(Cube),
    Cylinder(Cylinder),
}

impl LocalShape {
    /// The normal of the primitive at `point`, both in its own space.
    pub open spec fn normal_of(self, point: Point) -> Vector {
        match self {
            LocalShape::Sphere(_) => Vector { x: point.x, y: point.y, z: point.z },
            LocalShape::Plane(_) => Vector {
                x: crate::scalar::Scalar { bits: 0 },
                y: crate::scalar::Scalar { bits: crate::scalar::ONE_BITS },
                z: crate::scalar::Scalar { bits: 0 },
            },
            LocalShape::Cube(_) => Cube::normal_of(point),
            LocalShape::Cylinder(_) => Vector {
                x: point.x,
                y: crate::scalar::Scalar { bits: 0 },
                z: point.z,
            },
        }
    }

    /// The normal of the primitive at `point`; for a cube and for a plane
    /// it is one of the six unit vectors along the axes.
    pub fn local_normal_at(&self, point: &Point) -> (n: Vector)
        ensures
            n == self.normal_of(*point),
            (self is Cube || self is Plane) ==> n.unit_axis(),
    {
        match self {
            LocalShape::Sphere(s) => s.local_normal_at(point),
            LocalShape::Plane(p) => p.local_normal_at(point),
            LocalShape::Cube(c) => c.local_normal_at(point),
            LocalShape::Cylinder(c) => c.local_normal_at(point),
        }
    }
}

/// A primitive with the map from world space into its own space and with
/// its material. A shape never changes: the setters give a new one.
#[derive(Clone, Copy, Debug)]
pub struct Shape {
    pub inverse_transform: Affine,
    pub material: Material,
    pub local_shape: LocalShape,
}

impl Shape {
    /// The primitive where its own space is world space, in the default
    /// material.
    pub fn new(local_shape: LocalShape) -> (s: Shape)
        ensures
            s.local_shape == local_shape,
            s.material == Material::standard(),
            s.inverse_transform.translate == Vector::null(),
            forall|i: int, j: int|
                0 <= i < 3 && 0 <= j < 3 ==> (#[trigger] s.inverse_transform.transform.entry(
                    i,
                    j,
                )).bits == if i == j {
                    crate::scalar::ONE_BITS
                } else {
                    0
                },
    {
        Shape { inverse_transform: Affine::identity(), material: Material::new(), local_shape }
    }

    /// Places the shape. `inverse` is what inverting the placing map gave:
    /// `None` for a map that has no inverse, and then there is no shape.
    pub fn set_transform(self, inverse: Option<Affine>) -> (r: Option<Shape>)
        ensures
            r == match inverse {
                Some(inverse_transform) => Some(Shape { inverse_transform, ..self }),
                None => None,
            },
    {
        match inverse {
            Some(inverse_transform) => Some(Shape { inverse_transform, ..self }),
            None => None,
        }
    }

    pub fn set_material(self, material: Material) -> (s: Shape)
        ensures
            s == (Shape { material, ..self }),
    {
        Shape { material, ..self }
    }

    pub fn get_material(&self) -> (m: &Material)
        ensures
            *m == self.material,
    {
        &self.material
    }

    pub fn get_inverse_transform(&self) -> (a: &Affine)
        ensures
            *a == self.inverse_transform,
    {
        &self.inverse_transform
    }

    /// The normal at `local_point`, a point of the shape's own space, still
    /// in that space.
    pub fn local_normal_at(&self, local_point: &Point) -> (n: Vector)
        ensures
            n == self.local_shape.normal_of(*local_point),
    {
        self.local_shape.local_normal_at(local_point)
    }
}

} // verus!
