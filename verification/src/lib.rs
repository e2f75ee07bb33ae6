//! Scene traversal and shading decisions of a ray tracer, verified.
//!
//! Numbers are binary64 values of IEEE 754 held by their bit patterns. The
//! library orders, negates and selects them exactly and never rounds one:
//! whatever needs rounding arithmetic is the caller's to compute.

pub mod canvas;
pub mod color;
pub mod computations;
pub mod cube;
pub mod cylinder;
pub mod intersection;
pub mod light;
pub mod material;
pub mod matrix;
pub mod pattern;
pub mod plane;
pub mod point;
pub mod ray;
pub mod scalar;
pub mod shading;
pub mod shape;
pub mod sphere;
pub mod transform;
pub mod tuple;
pub mod vector;
pub mod world;
