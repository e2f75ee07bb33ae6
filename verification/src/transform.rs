//! Affine maps of space: a linear part and a translation.

use crate::matrix::Matrix;
use crate::scalar::{Scalar, ONE_BITS};
use crate::vector::Vector;
use vstd::prelude::*;

verus! {

/// An affine map: apply `transform`, then move by `translate`.
#[derive(Clone, Copy, Debug)]
pub struct Affine {
    pub transform: Matrix,
    pub translate: Vector,
}

impl Affine {
    pub fn new(transform: Matrix, translate: Vector) -> (a: Affine)
        ensures
            a.transform == transform,
            a.translate == translate,
    {
        Affine { transform, translate }
    }

    /// The map that moves nothing.
    pub fn identity() -> (a: Affine)
        ensures
            a.translate == Vector::null(),
            forall|i: int, j: int|
                0 <= i < 3 && 0 <= j < 3 ==> (#[trigger] a.transform.entry(i, j)).bits == if i
                    == j {
                    ONE_BITS
                } else {
                    0
                },
    {
        Affine { transform: Matrix::identity(), translate: Vector::zero() }
    }

    /// The linear part.
    pub fn get_transform(&self) -> (m: Matrix)
        ensures
            m == self.transform,
    {
        self.transform
    }
}

/// The map that moves every point by `(x, y, z)`.
pub fn translation(x: Scalar, y: Scalar, z: Scalar) -> (a: Affine)
    ensures
        a.translate == (Vector { x, y, z }),
        forall|i: int, j: int|
            0 <= i < 3 && 0 <= j < 3 ==> (#[trigger] a.transform.entry(i, j)).bits == if i == j {
                ONE_BITS
            } else {
                0
            },
{
    Affine { transform: Matrix::identity(), translate: Vector::new(x, y, z) }
}

/// The map that stretches each axis by its own factor.
pub fn scaling(x: Scalar, y: Scalar, z: Scalar) -> (a: Affine)
    ensures
        a.translate == Vector::null(),
        a.transform.entry(0, 0) == x,
        a.transform.entry(1, 1) == y,
        a.transform.entry(2, 2) == z,
        forall|i: int, j: int|
            0 <= i < 3 && 0 <= j < 3 && i != j ==> (#[trigger] a.transform.entry(i, j)).bits == 0,
{
    let o: Scalar = Scalar::zero();
    Affine { transform: Matrix::new([[x, o, o], [o, y, o], [o, o, z]]), translate: Vector::zero() }
}

/// The map that moves each coordinate in proportion to the two others:
/// `xy` is how far x moves for each unit of y, and so on.
pub fn shearing(xy: Scalar, xz: Scalar, yx: Scalar, yz: Scalar, zx: Scalar, zy: Scalar) -> (a:
    Affine)
    ensures
        a.translate == Vector::null(),
        a.transform.entry(0, 1) == xy,
        a.transform.entry(0, 2) == xz,
        a.transform.entry(1, 0) == yx,
        a.transform.entry(1, 2) == yz,
        a.transform.entry(2, 0) == zx,
        a.transform.entry(2, 1) == zy,
        forall|i: int| 0 <= i < 3 ==> (#[trigger] a.transform.entry(i, i)).bits == ONE_BITS,
{
    let l: Scalar = Scalar::one();
    Affine {
        transform: Matrix::new([[l, xy, xz], [yx, l, yz], [zx, zy, l]]),
        translate: Vector::zero(),
    }
}

} // verus!
