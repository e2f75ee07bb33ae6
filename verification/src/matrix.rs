//! Square matrices of order three: the moves that need no arithmetic.

use crate::scalar::{Scalar, EPSILON_BITS, ONE_BITS};
use vstd::prelude::*;

verus! {

/// A matrix of three rows and three columns.
#[derive(Clone, Copy, Debug)]
pub struct Matrix {
    pub elems: [[Scalar; 3]; 3],
}

/// A matrix of two rows and two columns.
#[derive(Clone, Copy, Debug)]
pub struct Matrix2 {
    pub elems: [[Scalar; 2]; 2],
}

/// The index that stands at place `k` once `skipped` is left out.
pub open spec fn skipping(skipped: int, k: int) -> int {
    if k < skipped {
        k
    } else {
        k + 1
    }
}

impl Matrix2 {
    /// The entry in row `i` and column `j`.
    pub open spec fn entry(self, i: int, j: int) -> Scalar {
        self.elems@[i]@[j]
    }
}

impl Matrix {
    /// The entry in row `i` and column `j`.
    pub open spec fn entry(self, i: int, j: int) -> Scalar {
        self.elems@[i]@[j]
    }

    /// Ones on the diagonal and positive zeros elsewhere.
    pub fn identity() -> (m: Matrix)
        ensures
            forall|i: int, j: int|
                0 <= i < 3 && 0 <= j < 3 ==> (#[trigger] m.entry(i, j)).bits == if i == j {
                    ONE_BITS
                } else {
                    0
                },
    {
        let o: Scalar = Scalar::one();
        let z: Scalar = Scalar::zero();
        Matrix { elems: [[o, z, z], [z, o, z], [z, z, o]] }
    }

    pub fn new(elems: [[Scalar; 3]; 3]) -> (m: Matrix)
        ensures
            m.elems == elems,
    {
        Matrix { elems }
    }

    pub fn at(&self, i: usize, j: usize) -> (e: Scalar)
        requires
            i < 3,
            j < 3,
        ensures
            e == self.entry(i as int, j as int),
    {
        self.elems[i][j]
    }

    /// Rows become columns.
    pub fn transpose(&self) -> (m: Matrix)
        ensures
            forall|i: int, j: int|
                0 <= i < 3 && 0 <= j < 3 ==> #[trigger] m.entry(i, j) == self.entry(j, i),
    {
        let e = &self.elems;
        Matrix {
            elems: [
                [e[0][0], e[1][0], e[2][0]],
                [e[0][1], e[1][1], e[2][1]],
                [e[0][2], e[1][2], e[2][2]],
            ],
        }
    }

    /// What is left when row `i` and column `j` are struck out.
    pub fn submatrix(&self, i: usize, j: usize) -> (m: Matrix2)
        requires
            i < 3,
            j < 3,
        ensures
            forall|a: int, b: int|
                0 <= a < 2 && 0 <= b < 2 ==> #[trigger] m.entry(a, b) == self.entry(
                    skipping(i as int, a),
                    skipping(j as int, b),
                ),
    {
        let r0: usize = if i == 0 { 1 } else { 0 };
        let r1: usize = if i == 2 { 1 } else { 2 };
        let c0: usize = if j == 0 { 1 } else { 0 };
        let c1: usize = if j == 2 { 1 } else { 2 };
        let e = &self.elems;
        Matrix2 { elems: [[e[r0][c0], e[r0][c1]], [e[r1][c0], e[r1][c1]]] }
    }

    /// A matrix counts as singular when its determinant is closer to zero
    /// than the tolerance.
    pub open spec fn singular(determinant: Scalar) -> bool {
        determinant.absolute().precedes(Scalar { bits: EPSILON_BITS })
    }

    /// The inverse of a matrix, given its determinant and, at row `i` and
    /// column `j` of `quotients`, its cofactor there divided by the
    /// determinant: none for a singular matrix, else the quotients with rows
    /// and columns swapped.
    pub fn inverse(determinant: Scalar, quotients: &Matrix) -> (r: Option<Matrix>)
        ensures
            r is None <==> Matrix::singular(determinant),
            r matches Some(m) ==> forall|i: int, j: int|
                0 <= i < 3 && 0 <= j < 3 ==> #[trigger] m.entry(i, j) == quotients.entry(j, i),
    {
        if determinant.abs().lt(Scalar::epsilon()) {
            return None;
        }
        Some(quotients.transpose())
    }

    /// The cofactor at row `i` and column `j`, given the minor there: the
    /// minor itself where `i + j` is even, its opposite where it is odd.
    pub fn cofactor(i: usize, j: usize, minor: Scalar) -> (c: Scalar)
        requires
            i < 3,
            j < 3,
        ensures
            c == if (i + j) % 2 == 0 {
                minor
            } else {
                minor.negated()
            },
    {
        if (i + j) % 2 == 0 {
            minor
        } else {
            minor.neg()
        }
    }
}

} // verus!
