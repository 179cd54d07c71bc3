//! 4x4 matrices.
//!
//! The matrix code takes a Vulkan-centric opinion: the projection methods
//! are designed for that library's view volume and may not match others.

use crate::arith::lemma_mag_mul_bound;
use crate::arith::lemma_tdiv_bound;
use crate::arith::mag;
use crate::fixed::fits64;
use crate::fixed::spec_div;
use crate::fixed::spec_mul;
use crate::fixed::Fixed;
use crate::fixed::FIXED_DECIMAL;
use crate::point::as_vector_spec;
use crate::point::Point;
use crate::rotor::rotate_spec;
use crate::rotor::rotor_near_unit;
use crate::rotor::Rotor;
use crate::trig::spec_cos;
use crate::trig::spec_sin;
use crate::vec::cross_spec;
use crate::vec::dot_spec;
use crate::vec::lemma_fmul_bounded;
use crate::vec::lemma_normalized_scale_fits;
use crate::vec::normalized_spec;
use crate::vec::sub_ok;
use crate::vec::sub_spec;
use crate::vec::vec_bounded;
use crate::vec::Vector;
use crate::vec::VEC_LIMIT;
use vstd::prelude::*;

verus! {

/// The edge length of the matrices here.
pub const MATRIX_4X4: usize = 4;

/// The component budget of a matrix entering a product: four products must
/// sum within the stored range.
pub const MATRIX_LIMIT: i64 = 400000000000;

/// A 4x4 matrix.
#[derive(Clone, Copy, Debug)]
pub struct Matrix {
    pub elements: [[Fixed; 4]; 4],
}

/// The stored integer at row `i`, column `j`.
pub open spec fn ele(m: Matrix, i: int, j: int) -> int {
    m.elements[i][j]@
}

/// Whether every entry is within the product budget.
pub open spec fn mat_bounded(m: Matrix) -> bool {
    forall|i: int, j: int|
        0 <= i < 4 && 0 <= j < 4 ==> mag(#[trigger] ele(m, i, j)) <= MATRIX_LIMIT as int
}

/// One entry of a matrix product: the dot product of a row of `a` with a
/// column of `b` on the stored grid.
pub open spec fn entry_spec(a: Matrix, b: Matrix, i: int, j: int) -> int {
    spec_mul(ele(a, i, 0), ele(b, 0, j)) + spec_mul(ele(a, i, 1), ele(b, 1, j)) + spec_mul(
        ele(a, i, 2),
        ele(b, 2, j),
    ) + spec_mul(ele(a, i, 3), ele(b, 3, j))
}

/// A product of matrix-budgeted entries fits, with room for four.
proof fn lemma_mmul_bounded(a: int, b: int)
    requires
        mag(a) <= MATRIX_LIMIT as int,
        mag(b) <= MATRIX_LIMIT as int,
    ensures
        mag(spec_mul(a, b)) <= 1600000000000000000,
        fits64(spec_mul(a, b)),
{
    lemma_mag_mul_bound(a, b, MATRIX_LIMIT as int, MATRIX_LIMIT as int);
    lemma_tdiv_bound(a * b, FIXED_DECIMAL as int, 160000000000000000000000);
}

/// The dot product of two rows of four, the workhorse of the matrix
/// product.
fn dot4(r: [Fixed; 4], c: [Fixed; 4]) -> (out: Fixed)
    requires
        forall|k: int| 0 <= k < 4 ==> mag(#[trigger] r[k]@) <= MATRIX_LIMIT as int,
        forall|k: int| 0 <= k < 4 ==> mag(#[trigger] c[k]@) <= MATRIX_LIMIT as int,
    ensures
        out@ == spec_mul(r[0]@, c[0]@) + spec_mul(r[1]@, c[1]@) + spec_mul(r[2]@, c[2]@)
            + spec_mul(r[3]@, c[3]@),
{
    proof {
        lemma_mmul_bounded(r[0]@, c[0]@);
        lemma_mmul_bounded(r[1]@, c[1]@);
        lemma_mmul_bounded(r[2]@, c[2]@);
        lemma_mmul_bounded(r[3]@, c[3]@);
    }
    r[0].mul(c[0]).add(r[1].mul(c[1])).add(r[2].mul(c[2])).add(r[3].mul(c[3]))
}

/// One entry of the matrix of an orientation: the rotated axes as the
/// first three rows and the unchanged last row.
pub open spec fn orientation_entry(orientation: Rotor, i: int, j: int) -> int {
    let a = rotate_spec(orientation, crate::vec::x_axis());
    let b = rotate_spec(orientation, crate::vec::y_axis());
    let c = rotate_spec(orientation, crate::vec::z_axis());
    if i == 0 {
        if j == 0 {
            a.x@
        } else if j == 1 {
            a.y@
        } else if j == 2 {
            a.z@
        } else {
            0
        }
    } else if i == 1 {
        if j == 0 {
            b.x@
        } else if j == 1 {
            b.y@
        } else if j == 2 {
            b.z@
        } else {
            0
        }
    } else if i == 2 {
        if j == 0 {
            c.x@
        } else if j == 1 {
            c.y@
        } else if j == 2 {
            c.z@
        } else {
            0
        }
    } else {
        if j == 3 {
            FIXED_DECIMAL as int
        } else {
            0
        }
    }
}

/// One entry of a viewing matrix: the orthonormal frame of the look
/// direction in the columns, and the eye projections in the last row.
pub open spec fn look_toward_entry(eye: Point, direction: Vector, up: Vector, i: int, j: int) -> int {
    let f = normalized_spec(direction);
    let s = normalized_spec(cross_spec(f, up));
    let u = normalized_spec(cross_spec(s, f));
    if i < 3 {
        let fr = if i == 0 {
            (s.x@, u.x@, -f.x@)
        } else if i == 1 {
            (s.y@, u.y@, -f.y@)
        } else {
            (s.z@, u.z@, -f.z@)
        };
        if j == 0 {
            fr.0
        } else if j == 1 {
            fr.1
        } else if j == 2 {
            fr.2
        } else {
            0
        }
    } else {
        if j == 0 {
            dot_spec(as_vector_spec(eye), s)
        } else if j == 1 {
            dot_spec(as_vector_spec(eye), u)
        } else if j == 2 {
            dot_spec(as_vector_spec(eye), f)
        } else {
            FIXED_DECIMAL as int
        }
    }
}

/// The inputs on which a viewing matrix is representable: a normalizable
/// direction, normalizable frame crosses, and a budgeted eye.
pub open spec fn look_toward_req(eye: Point, direction: Vector, up: Vector) -> bool {
    let f = normalized_spec(direction);
    let s = normalized_spec(cross_spec(f, up));
    &&& vec_bounded(direction)
    &&& mag(up.x@) <= 1000000000
    &&& mag(up.y@) <= 1000000000
    &&& mag(up.z@) <= 1000000000
    &&& vec_bounded(as_vector_spec(eye))
    &&& dot_spec(direction, direction) >= 1
    &&& dot_spec(cross_spec(f, up), cross_spec(f, up)) >= 1
    &&& dot_spec(cross_spec(s, f), cross_spec(s, f)) >= 1
}

/// The half tangent of the vertical field of view, as the projections
/// compute it.
pub open spec fn half_tan_spec(fovy: int) -> int {
    spec_div(spec_sin(crate::arith::tdiv(fovy, 2)), spec_cos(crate::arith::tdiv(fovy, 2)))
}

/// One entry of the orthographic projection.
pub open spec fn ortho_entry(fovy: int, aspect: int, near: int, far: int, i: int, j: int) -> int {
    let t = half_tan_spec(fovy);
    let h = spec_mul(2 * near, t);
    let w = spec_mul(aspect, h);
    let b = spec_mul(near, t);
    let r = spec_mul(spec_div(spec_mul(near, w), h), t);
    let one = FIXED_DECIMAL as int;
    if i == 0 && j == 0 {
        spec_div(one, r)
    } else if i == 1 && j == 1 {
        spec_div(one, b)
    } else if i == 2 && j == 2 {
        spec_div(one, far - near)
    } else if i == 2 && j == 3 {
        spec_div(-near, far - near)
    } else if i == 3 && j == 3 {
        one
    } else {
        0
    }
}

/// The inputs on which the orthographic projection is representable.
pub open spec fn ortho_req(fovy: int, aspect: int, near: int, far: int) -> bool {
    let half = crate::arith::tdiv(fovy, 2);
    let t = half_tan_spec(fovy);
    let h = spec_mul(2 * near, t);
    let w = spec_mul(aspect, h);
    let b = spec_mul(near, t);
    let nw = spec_mul(near, w);
    let nwh = spec_div(nw, h);
    let r = spec_mul(nwh, t);
    &&& spec_cos(half) != 0
    &&& fits64(spec_div(spec_sin(half), spec_cos(half)))
    &&& mag(t) <= VEC_LIMIT as int
    &&& mag(near) <= VEC_LIMIT as int
    &&& mag(aspect) <= VEC_LIMIT as int
    &&& fits64(2 * near)
    &&& mag(2 * near) <= VEC_LIMIT as int
    &&& mag(h) <= VEC_LIMIT as int
    &&& mag(w) <= VEC_LIMIT as int
    &&& mag(nw) <= VEC_LIMIT as int
    &&& h != 0
    &&& fits64(nwh)
    &&& mag(nwh) <= VEC_LIMIT as int
    &&& r != 0
    &&& b != 0
    &&& far != near
    &&& fits64(far - near)
    &&& near != i64::MIN
    &&& fits64(spec_div(FIXED_DECIMAL as int, r))
    &&& fits64(spec_div(FIXED_DECIMAL as int, b))
    &&& fits64(spec_div(FIXED_DECIMAL as int, far - near))
    &&& fits64(spec_div(-near, far - near))
}

impl Matrix {
    /// Construct a new matrix from raw elements.
    pub fn new(elements: [[Fixed; 4]; 4]) -> (r: Self)
        ensures
            r.elements == elements,
    {
        Matrix { elements }
    }

    /// The identity matrix.
    pub fn identity() -> (r: Self)
        ensures
            forall|i: int, j: int|
                0 <= i < 4 && 0 <= j < 4 ==> #[trigger] ele(r, i, j) == if i == j {
                    FIXED_DECIMAL as int
                } else {
                    0
                },
    {
        let one = Fixed(FIXED_DECIMAL);
        let zer = Fixed(0);
        Matrix {
            elements: [
                [one, zer, zer, zer],
                [zer, one, zer, zer],
                [zer, zer, one, zer],
                [zer, zer, zer, one],
            ],
        }
    }

    /// The matrix of an orientation: the three axes rotated by the rotor as
    /// rows, and an affine last row.
    pub fn from_orientation(orientation: Rotor) -> (r: Self)
        requires
            rotor_near_unit(orientation),
        ensures
            forall|i: int, j: int|
                0 <= i < 4 && 0 <= j < 4 ==> #[trigger] ele(r, i, j) == orientation_entry(
                    orientation,
                    i,
                    j,
                ),
    {
        let a = Vector::unit_x().rotated_by(&orientation);
        let b = Vector::unit_y().rotated_by(&orientation);
        let c = Vector::unit_z().rotated_by(&orientation);
        let zer = Fixed(0);
        let one = Fixed(FIXED_DECIMAL);
        Matrix {
            elements: [
                [a.x, a.y, a.z, zer],
                [b.x, b.y, b.z, zer],
                [c.x, c.y, c.z, zer],
                [zer, zer, zer, one],
            ],
        }
    }

    /// The matrix of a position and an orientation: the orientation rows
    /// with the translation as last row, whose final entry the construction
    /// leaves at zero.
    pub fn from_translation_and_orientation(translation: Point, orientation: Rotor) -> (r: Self)
        requires
            rotor_near_unit(orientation),
        ensures
            forall|i: int, j: int|
                0 <= i < 3 && 0 <= j < 4 ==> #[trigger] ele(r, i, j) == orientation_entry(
                    orientation,
                    i,
                    j,
                ),
            ele(r, 3, 0) == translation.x@,
            ele(r, 3, 1) == translation.y@,
            ele(r, 3, 2) == translation.z@,
            ele(r, 3, 3) == 0,
    {
        let m = Self::from_orientation(orientation);
        let e = m.elements;
        let out = Matrix {
            elements: [
                e[0],
                e[1],
                e[2],
                [translation.x, translation.y, translation.z, Fixed(0)],
            ],
        };
        proof {
            assert forall|i: int, j: int| 0 <= i < 3 && 0 <= j < 4 implies #[trigger] ele(
                out,
                i,
                j,
            ) == orientation_entry(orientation, i, j) by {
                if i == 0 {
                    assert(out.elements[0] == e[0]);
                    assert(ele(out, 0, j) == ele(m, 0, j));
                } else if i == 1 {
                    assert(out.elements[1] == e[1]);
                    assert(ele(out, 1, j) == ele(m, 1, j));
                } else {
                    assert(out.elements[2] == e[2]);
                    assert(ele(out, 2, j) == ele(m, 2, j));
                }
            }
        }
        out
    }

    /// A translation matrix: the identity with the translation as the last
    /// column.
    pub fn from_translation(translation: Vector) -> (r: Self)
        ensures
            forall|i: int, j: int|
                0 <= i < 4 && 0 <= j < 4 ==> #[trigger] ele(r, i, j) == if i == 0 && j == 3 {
                    translation.x@
                } else if i == 1 && j == 3 {
                    translation.y@
                } else if i == 2 && j == 3 {
                    translation.z@
                } else if i == j {
                    FIXED_DECIMAL as int
                } else {
                    0
                },
    {
        let zer = Fixed(0);
        let one = Fixed(FIXED_DECIMAL);
        Matrix {
            elements: [
                [one, zer, zer, translation.x],
                [zer, one, zer, translation.y],
                [zer, zer, one, translation.z],
                [zer, zer, zer, one],
            ],
        }
    }

    /// The entry at a row and column.
    pub fn element(&self, row: usize, col: usize) -> (r: Fixed)
        requires
            row < 4,
            col < 4,
        ensures
            r@ == ele(*self, row as int, col as int),
    {
        self.elements[row][col]
    }

    /// All sixteen entries.
    pub fn elements(&self) -> (r: &[[Fixed; 4]; 4])
        ensures
            r == &self.elements,
    {
        &self.elements
    }

    /// One row of the matrix.
    pub fn row(&self, row: usize) -> (r: [Fixed; 4])
        requires
            row < 4,
        ensures
            forall|k: int| 0 <= k < 4 ==> #[trigger] r[k] == self.elements[row as int][k],
    {
        self.elements[row]
    }

    /// One column of the matrix.
    pub fn col(&self, col: usize) -> (r: [Fixed; 4])
        requires
            col < 4,
        ensures
            forall|k: int| 0 <= k < 4 ==> #[trigger] r[k] == self.elements[k][col as int],
    {
        [
            self.elements[0][col],
            self.elements[1][col],
            self.elements[2][col],
            self.elements[3][col],
        ]
    }

    /// Transpose this matrix in place.
    pub fn transpose(&mut self)
        ensures
            forall|i: int, j: int|
                0 <= i < 4 && 0 <= j < 4 ==> #[trigger] ele(*final(self), i, j) == ele(
                    *old(self),
                    j,
                    i,
                ),
    {
        let e = self.elements;
        self.elements = [
            [e[0][0], e[1][0], e[2][0], e[3][0]],
            [e[0][1], e[1][1], e[2][1], e[3][1]],
            [e[0][2], e[1][2], e[2][2], e[3][2]],
            [e[0][3], e[1][3], e[2][3], e[3][3]],
        ];
    }

    /// The transpose of this matrix, as a new value.
    pub fn transposed(&self) -> (r: Self)
        ensures
            forall|i: int, j: int|
                0 <= i < 4 && 0 <= j < 4 ==> #[trigger] ele(r, i, j) == ele(*self, j, i),
    {
        let mut transposed = *self;
        transposed.transpose();
        transposed
    }

    /// The right-handed viewing matrix looking from `eye` at `target`.
    pub fn look_at(eye: Point, target: Point, up: Vector) -> (r: Self)
        requires
            sub_ok(as_vector_spec(target), as_vector_spec(eye)),
            look_toward_req(
                eye,
                sub_spec(as_vector_spec(target), as_vector_spec(eye)),
                up,
            ),
        ensures
            forall|i: int, j: int|
                0 <= i < 4 && 0 <= j < 4 ==> #[trigger] ele(r, i, j) == look_toward_entry(
                    eye,
                    sub_spec(as_vector_spec(target), as_vector_spec(eye)),
                    up,
                    i,
                    j,
                ),
    {
        let direction = target.sub_point(&eye);
        Self::look_toward(eye, direction, up)
    }

    /// The right-handed viewing matrix looking from `eye` along `direction`.
    pub fn look_toward(eye: Point, direction: Vector, up: Vector) -> (r: Self)
        requires
            look_toward_req(eye, direction, up),
        ensures
            forall|i: int, j: int|
                0 <= i < 4 && 0 <= j < 4 ==> #[trigger] ele(r, i, j) == look_toward_entry(
                    eye,
                    direction,
                    up,
                    i,
                    j,
                ),
    {
        proof {
            lemma_normalized_scale_fits(direction, 0);
        }
        let f = direction.normalized();
        proof {
            crate::vec::lemma_cross_fits(normalized_spec(direction), up);
            lemma_cross_small_big(normalized_spec(direction), up);
            lemma_normalized_scale_fits(cross_spec(normalized_spec(direction), up), 0);
        }
        let s = f.cross(&up).normalized();
        proof {
            lemma_cross_small_big(
                normalized_spec(cross_spec(normalized_spec(direction), up)),
                normalized_spec(direction),
            );
            lemma_normalized_scale_fits(
                cross_spec(
                    normalized_spec(cross_spec(normalized_spec(direction), up)),
                    normalized_spec(direction),
                ),
                0,
            );
        }
        let u = s.cross(&f).normalized();
        let ev = eye.as_vector();
        let eds = ev.dot(&s);
        let edu = ev.dot(&u);
        let edf = ev.dot(&f);
        let zer = Fixed(0);
        let one = Fixed(FIXED_DECIMAL);
        Matrix {
            elements: [
                [s.x, u.x, f.x.neg(), zer],
                [s.y, u.y, f.y.neg(), zer],
                [s.z, u.z, f.z.neg(), zer],
                [eds, edu, edf, one],
            ],
        }
    }

    /// The Vulkan orthographic projection for a symmetric view volume.
    pub fn orthographic(fovy: Fixed, aspect: Fixed, near: Fixed, far: Fixed) -> (r: Self)
        requires
            ortho_req(fovy@, aspect@, near@, far@),
        ensures
            forall|i: int, j: int|
                0 <= i < 4 && 0 <= j < 4 ==> #[trigger] ele(r, i, j) == ortho_entry(
                    fovy@,
                    aspect@,
                    near@,
                    far@,
                    i,
                    j,
                ),
    {
        let half = fovy.div(Fixed(2 * FIXED_DECIMAL));
        proof {
            crate::arith::lemma_tdiv_cancel(FIXED_DECIMAL as int, fovy@, 2);
            assert(fovy@ * (FIXED_DECIMAL as int) == (FIXED_DECIMAL as int) * fovy@);
            assert((FIXED_DECIMAL as int) * 2 == 2 * (FIXED_DECIMAL as int));
            crate::arith::lemma_tdiv_le_self(fovy@, 2);
        }
        let t = half.tan();
        let two_n = Fixed(2 * near.0);
        proof {
            lemma_fmul_bounded(2 * near@, t@);
            lemma_fmul_bounded(aspect@, spec_mul(2 * near@, t@));
            lemma_fmul_bounded(near@, t@);
            lemma_fmul_bounded(near@, spec_mul(aspect@, spec_mul(2 * near@, t@)));
            lemma_fmul_bounded(
                spec_div(
                    spec_mul(near@, spec_mul(aspect@, spec_mul(2 * near@, t@))),
                    spec_mul(2 * near@, t@),
                ),
                t@,
            );
        }
        let h = two_n.mul(t);
        let w = aspect.mul(h);
        let b = near.mul(t);
        let rr = near.mul(w).div(h).mul(t);
        let fn_diff = far.sub(near);
        let one = Fixed(FIXED_DECIMAL);
        let zer = Fixed(0);
        Matrix {
            elements: [
                [one.div(rr), zer, zer, zer],
                [zer, one.div(b), zer, zer],
                [zer, zer, one.div(fn_diff), near.neg().div(fn_diff)],
                [zer, zer, zer, one],
            ],
        }
    }

    /// The Vulkan perspective projection between two depth planes.
    pub fn perspective(near: Fixed, far: Fixed) -> (r: Self)
        requires
            fits64(far@ + near@),
            mag(near@) <= VEC_LIMIT as int,
            mag(far@) <= VEC_LIMIT as int,
        ensures
            forall|i: int, j: int|
                0 <= i < 4 && 0 <= j < 4 ==> #[trigger] ele(r, i, j) == if i == 0 && j == 0 {
                    near@
                } else if i == 1 && j == 1 {
                    near@
                } else if i == 2 && j == 2 {
                    far@ + near@
                } else if i == 2 && j == 3 {
                    -spec_mul(far@, near@)
                } else if i == 3 && j == 2 {
                    FIXED_DECIMAL as int
                } else {
                    0
                },
    {
        proof {
            lemma_fmul_bounded(far@, near@);
        }
        let zer = Fixed(0);
        let one = Fixed(FIXED_DECIMAL);
        let fpn = far.add(near);
        let nfn = far.mul(near).neg();
        Matrix {
            elements: [
                [near, zer, zer, zer],
                [zer, near, zer, zer],
                [zer, zer, fpn, nfn],
                [zer, zer, one, zer],
            ],
        }
    }

    /// The product of this matrix and another.
    pub fn product(&self, other: &Self) -> (out: Self)
        requires
            mat_bounded(*self),
            mat_bounded(*other),
        ensures
            forall|i: int, j: int|
                0 <= i < 4 && 0 <= j < 4 ==> #[trigger] ele(out, i, j) == entry_spec(
                    *self,
                    *other,
                    i,
                    j,
                ),
    {
        let r0 = self.row(0);
        let r1 = self.row(1);
        let r2 = self.row(2);
        let r3 = self.row(3);
        let c0 = other.col(0);
        let c1 = other.col(1);
        let c2 = other.col(2);
        let c3 = other.col(3);
        proof {
            assert forall|k: int| 0 <= k < 4 implies mag(#[trigger] r0[k]@) <= MATRIX_LIMIT as int by {
                assert(mag(ele(*self, 0, k)) <= MATRIX_LIMIT as int);
            }
            assert forall|k: int| 0 <= k < 4 implies mag(#[trigger] r1[k]@) <= MATRIX_LIMIT as int by {
                assert(mag(ele(*self, 1, k)) <= MATRIX_LIMIT as int);
            }
            assert forall|k: int| 0 <= k < 4 implies mag(#[trigger] r2[k]@) <= MATRIX_LIMIT as int by {
                assert(mag(ele(*self, 2, k)) <= MATRIX_LIMIT as int);
            }
            assert forall|k: int| 0 <= k < 4 implies mag(#[trigger] r3[k]@) <= MATRIX_LIMIT as int by {
                assert(mag(ele(*self, 3, k)) <= MATRIX_LIMIT as int);
            }
            assert forall|k: int| 0 <= k < 4 implies mag(#[trigger] c0[k]@) <= MATRIX_LIMIT as int by {
                assert(mag(ele(*other, k, 0)) <= MATRIX_LIMIT as int);
            }
            assert forall|k: int| 0 <= k < 4 implies mag(#[trigger] c1[k]@) <= MATRIX_LIMIT as int by {
                assert(mag(ele(*other, k, 1)) <= MATRIX_LIMIT as int);
            }
            assert forall|k: int| 0 <= k < 4 implies mag(#[trigger] c2[k]@) <= MATRIX_LIMIT as int by {
                assert(mag(ele(*other, k, 2)) <= MATRIX_LIMIT as int);
            }
            assert forall|k: int| 0 <= k < 4 implies mag(#[trigger] c3[k]@) <= MATRIX_LIMIT as int by {
                assert(mag(ele(*other, k, 3)) <= MATRIX_LIMIT as int);
            }
        }
        Matrix {
            elements: [
                [dot4(r0, c0), dot4(r0, c1), dot4(r0, c2), dot4(r0, c3)],
                [dot4(r1, c0), dot4(r1, c1), dot4(r1, c2), dot4(r1, c3)],
                [dot4(r2, c0), dot4(r2, c1), dot4(r2, c2), dot4(r2, c3)],
                [dot4(r3, c0), dot4(r3, c1), dot4(r3, c2), dot4(r3, c3)],
            ],
        }
    }
}

/// A cross product of a near-unit vector with a budgeted vector stays
/// within the budget.
proof fn lemma_cross_small_big(u: Vector, v: Vector)
    requires
        mag(u.x@) <= 3200000,
        mag(u.y@) <= 3200000,
        mag(u.z@) <= 3200000,
        mag(v.x@) <= 1000000000,
        mag(v.y@) <= 1000000000,
        mag(v.z@) <= 1000000000,
    ensures
        vec_bounded(cross_spec(u, v)),
        mag(cross_spec(u, v).x@) <= 64000000000,
        mag(cross_spec(u, v).y@) <= 64000000000,
        mag(cross_spec(u, v).z@) <= 64000000000,
{
    lemma_mag_mul_bound(u.y@, v.z@, 3200000, 1000000000);
    lemma_mag_mul_bound(u.z@, v.y@, 3200000, 1000000000);
    lemma_mag_mul_bound(u.z@, v.x@, 3200000, 1000000000);
    lemma_mag_mul_bound(u.x@, v.z@, 3200000, 1000000000);
    lemma_mag_mul_bound(u.x@, v.y@, 3200000, 1000000000);
    lemma_mag_mul_bound(u.y@, v.x@, 3200000, 1000000000);
    lemma_tdiv_bound(u.y@ * v.z@, FIXED_DECIMAL as int, 3200000000000000);
    lemma_tdiv_bound(u.z@ * v.y@, FIXED_DECIMAL as int, 3200000000000000);
    lemma_tdiv_bound(u.z@ * v.x@, FIXED_DECIMAL as int, 3200000000000000);
    lemma_tdiv_bound(u.x@ * v.z@, FIXED_DECIMAL as int, 3200000000000000);
    lemma_tdiv_bound(u.x@ * v.y@, FIXED_DECIMAL as int, 3200000000000000);
    lemma_tdiv_bound(u.y@ * v.x@, FIXED_DECIMAL as int, 3200000000000000);
}

/// What it means for two matrices to agree within a tolerance, entry by
/// entry.
pub open spec fn mat_approx_spec(a: Matrix, b: Matrix, epsilon: Fixed) -> bool {
    forall|i: int, j: int|
        0 <= i < 4 && 0 <= j < 4 ==> mag(#[trigger] ele(a, i, j) - ele(b, i, j)) <= epsilon@
}

impl crate::traits::Approximately for Matrix {
    open spec fn approx_spec(&self, other: Matrix, epsilon: Fixed) -> bool {
        mat_approx_spec(*self, other, epsilon)
    }

    fn approximately(&self, other: Matrix, epsilon: Fixed) -> (r: bool) {
        let mut i: usize = 0;
        let mut good = true;
        while i < 4
            invariant
                i <= 4,
                good == forall|a: int, b: int|
                    0 <= a < i && 0 <= b < 4 ==> mag(
                        #[trigger] ele(*self, a, b) - ele(other, a, b),
                    ) <= epsilon@,
            decreases 4 - i,
        {
            let mut j: usize = 0;
            while j < 4
                invariant
                    i < 4,
                    j <= 4,
                    good == ((forall|a: int, b: int|
                        0 <= a < i && 0 <= b < 4 ==> mag(
                            #[trigger] ele(*self, a, b) - ele(other, a, b),
                        ) <= epsilon@) && (forall|b: int|
                        0 <= b < j ==> mag(
                            #[trigger] ele(*self, i as int, b) - ele(other, i as int, b),
                        ) <= epsilon@)),
                decreases 4 - j,
            {
                let ok = self.elements[i][j].approximately(other.elements[i][j], epsilon);
                proof {
                    assert(ok == (mag(ele(*self, i as int, j as int) - ele(other, i as int, j as int))
                        <= epsilon@));
                }
                good = good && ok;
                j = j + 1;
            }
            i = i + 1;
        }
        good
    }
}

} // verus!
