//! Vectors in 3D space, over the fixed-point scalar.
//!
//! Every product-bearing operation carries a coordinate budget: components
//! stay within [`VEC_LIMIT`] stored units, which keeps each intermediate of
//! a dot, cross or scaling inside the stored 64-bit range. The contracts
//! state the exact stored integer of every component of every result.

use crate::arith::lemma_mag_mul;
use crate::arith::lemma_mag_mul_bound;
use crate::arith::lemma_tdiv_bound;
use crate::arith::lemma_tdiv_fundamental;
use crate::arith::lemma_tdiv_mag;
use crate::arith::mag;
use crate::bivec::Bivector;
use crate::fixed::fits64;
use crate::fixed::is_sqrt_of;
use crate::fixed::spec_div;
use crate::fixed::spec_mul;
use crate::fixed::sqrt_val;
use crate::fixed::Fixed;
use crate::fixed::FIXED_DECIMAL;
use crate::trig::spec_cos;
use crate::trig::spec_sin;
use vstd::arithmetic::div_mod::lemma_div_by_multiple;
use vstd::arithmetic::div_mod::lemma_div_is_ordered;
use vstd::arithmetic::mul::lemma_mul_is_commutative;
use vstd::prelude::*;

verus! {

/// The coordinate budget: every component of a vector entering a product
/// stays within this many stored units (five million whole units), so that
/// sums of three products keep to the stored range.
pub const VEC_LIMIT: i64 = 500000000000;

/// A vector in 3D space.
#[derive(Clone, Copy, PartialEq, Eq, Structural, Default, Debug)]
pub struct Vector {
    pub x: Fixed,
    pub y: Fixed,
    pub z: Fixed,
}

/// Whether every component is within the coordinate budget.
pub open spec fn vec_bounded(v: Vector) -> bool {
    &&& mag(v.x@) <= VEC_LIMIT as int
    &&& mag(v.y@) <= VEC_LIMIT as int
    &&& mag(v.z@) <= VEC_LIMIT as int
}

/// Whether the componentwise difference `a - b` is within the budget.
pub open spec fn sub_ok(a: Vector, b: Vector) -> bool {
    &&& mag(a.x@ - b.x@) <= VEC_LIMIT as int
    &&& mag(a.y@ - b.y@) <= VEC_LIMIT as int
    &&& mag(a.z@ - b.z@) <= VEC_LIMIT as int
}

/// The componentwise sum.
pub open spec fn add_spec(a: Vector, b: Vector) -> Vector {
    Vector { x: Fixed((a.x@ + b.x@) as i64), y: Fixed((a.y@ + b.y@) as i64), z: Fixed((a.z@ + b.z@) as i64) }
}

/// The componentwise difference.
pub open spec fn sub_spec(a: Vector, b: Vector) -> Vector {
    Vector { x: Fixed((a.x@ - b.x@) as i64), y: Fixed((a.y@ - b.y@) as i64), z: Fixed((a.z@ - b.z@) as i64) }
}

/// The stored integer of the dot product.
pub open spec fn dot_spec(u: Vector, v: Vector) -> int {
    spec_mul(u.x@, v.x@) + spec_mul(u.y@, v.y@) + spec_mul(u.z@, v.z@)
}

/// The cross product, componentwise on the stored grid.
pub open spec fn cross_spec(u: Vector, v: Vector) -> Vector {
    Vector {
        x: Fixed((spec_mul(u.y@, v.z@) - spec_mul(u.z@, v.y@)) as i64),
        y: Fixed((spec_mul(u.z@, v.x@) - spec_mul(u.x@, v.z@)) as i64),
        z: Fixed((spec_mul(u.x@, v.y@) - spec_mul(u.y@, v.x@)) as i64),
    }
}

/// The vector scaled by `k`, componentwise on the stored grid.
pub open spec fn scale_spec(v: Vector, k: int) -> Vector {
    Vector {
        x: Fixed(spec_mul(v.x@, k) as i64),
        y: Fixed(spec_mul(v.y@, k) as i64),
        z: Fixed(spec_mul(v.z@, k) as i64),
    }
}

/// The vector divided by `k`, componentwise on the stored grid.
pub open spec fn scale_div_spec(v: Vector, k: int) -> Vector {
    Vector {
        x: Fixed(spec_div(v.x@, k) as i64),
        y: Fixed(spec_div(v.y@, k) as i64),
        z: Fixed(spec_div(v.z@, k) as i64),
    }
}

/// The stored length of `v`: the fixed-point square root of the squared
/// length.
pub open spec fn length_spec(v: Vector) -> int {
    sqrt_val(dot_spec(v, v) * (FIXED_DECIMAL as int))
}

/// The unit vector in the direction of `v`.
pub open spec fn normalized_spec(v: Vector) -> Vector {
    scale_div_spec(v, length_spec(v))
}

/// A product of budgeted components stays far inside the stored range.
pub proof fn lemma_fmul_bounded(a: int, b: int)
    requires
        mag(a) <= VEC_LIMIT as int,
        mag(b) <= VEC_LIMIT as int,
    ensures
        mag(spec_mul(a, b)) <= 2500000000000000000,
        fits64(spec_mul(a, b)),
{
    lemma_mag_mul_bound(a, b, VEC_LIMIT as int, VEC_LIMIT as int);
    lemma_tdiv_bound(a * b, FIXED_DECIMAL as int, 250000000000000000000000);
}

/// A dot product of a vector with itself is nonnegative.
pub proof fn lemma_dot_self_nonneg(v: Vector)
    ensures
        dot_spec(v, v) >= 0,
        spec_mul(v.x@, v.x@) >= 0,
        spec_mul(v.y@, v.y@) >= 0,
        spec_mul(v.z@, v.z@) >= 0,
{
    assert(v.x@ * v.x@ >= 0) by (nonlinear_arith);
    assert(v.y@ * v.y@ >= 0) by (nonlinear_arith);
    assert(v.z@ * v.z@ >= 0) by (nonlinear_arith);
    lemma_tdiv_mag(v.x@ * v.x@, FIXED_DECIMAL as int);
    lemma_tdiv_mag(v.y@ * v.y@, FIXED_DECIMAL as int);
    lemma_tdiv_mag(v.z@ * v.z@, FIXED_DECIMAL as int);
}

/// The squared length, rescaled, dominates each squared component up to one
/// grid step: the key to bounding a normalized component.
pub proof fn lemma_dot_self_dominates(v: Vector)
    ensures
        dot_spec(v, v) * (FIXED_DECIMAL as int) >= v.x@ * v.x@ - 99999,
        dot_spec(v, v) * (FIXED_DECIMAL as int) >= v.y@ * v.y@ - 99999,
        dot_spec(v, v) * (FIXED_DECIMAL as int) >= v.z@ * v.z@ - 99999,
{
    let s = FIXED_DECIMAL as int;
    lemma_dot_self_nonneg(v);
    lemma_tdiv_fundamental(v.x@ * v.x@, s);
    lemma_tdiv_fundamental(v.y@ * v.y@, s);
    lemma_tdiv_fundamental(v.z@ * v.z@, s);
    let d = dot_spec(v, v);
    assert(d * s >= spec_mul(v.x@, v.x@) * s) by (nonlinear_arith)
        requires
            d >= spec_mul(v.x@, v.x@),
            s > 0,
    ;
    assert(d * s >= spec_mul(v.y@, v.y@) * s) by (nonlinear_arith)
        requires
            d >= spec_mul(v.y@, v.y@),
            s > 0,
    ;
    assert(d * s >= spec_mul(v.z@, v.z@) * s) by (nonlinear_arith)
        requires
            d >= spec_mul(v.z@, v.z@),
            s > 0,
    ;
}

/// Dividing a component by the length of its own vector stays far inside
/// the stored range.
pub proof fn lemma_unit_div_fits(x: int, d: int, l: int)
    requires
        is_sqrt_of(l, d),
        l >= 1,
        d >= 100000,
        d >= x * x - 99999,
    ensures
        mag(spec_div(x, l)) <= 3200000,
        fits64(spec_div(x, l)),
{
    let mx = mag(x);
    assert(x * x == mx * mx) by {
        lemma_mag_mul(x, x);
        if x >= 0 {
        } else {
            assert(x * x >= 0) by (nonlinear_arith);
        }
    }
    assert(l >= 316) by (nonlinear_arith)
        requires
            0 <= l,
            d < (l + 1) * (l + 1),
            d >= 100000,
    ;
    if mx <= 10000 {
        lemma_mag_mul_bound(x, FIXED_DECIMAL as int, 10000, 100000);
        lemma_tdiv_bound(x * (FIXED_DECIMAL as int), l, 1000000000);
        vstd::arithmetic::div_mod::lemma_div_is_ordered_by_denominator(1000000000int, 316int, l);
    } else {
        if l <= mx - 52 {
            assert((l + 1) * (l + 1) <= (mx - 51) * (mx - 51)) by (nonlinear_arith)
                requires
                    0 <= l + 1 <= mx - 51,
            ;
            assert((mx - 51) * (mx - 51) < mx * mx - 99999) by (nonlinear_arith)
                requires
                    mx > 10000,
            ;
            assert(false);
        }
        assert(mx * (FIXED_DECIMAL as int) <= 110000 * l) by (nonlinear_arith)
            requires
                l >= mx - 51,
                mx > 10000,
        ;
        lemma_tdiv_mag(x * (FIXED_DECIMAL as int), l);
        lemma_mag_mul(x, FIXED_DECIMAL as int);
        lemma_div_is_ordered(mx * (FIXED_DECIMAL as int), 110000 * l, l);
        lemma_div_by_multiple(110000, l);
        lemma_mul_is_commutative(110000, l);
    }
}

impl Vector {
    /// Create a new vector from its three components.
    pub fn new(x: Fixed, y: Fixed, z: Fixed) -> (r: Self)
        ensures
            r == (Vector { x, y, z }),
    {
        Vector { x, y, z }
    }

    /// The unit vector along the x axis.
    pub fn unit_x() -> (r: Self)
        ensures
            r == x_axis(),
    {
        Vector { x: Fixed(FIXED_DECIMAL), y: Fixed(0), z: Fixed(0) }
    }

    /// The unit vector along the y axis.
    pub fn unit_y() -> (r: Self)
        ensures
            r == y_axis(),
    {
        Vector { x: Fixed(0), y: Fixed(FIXED_DECIMAL), z: Fixed(0) }
    }

    /// The unit vector along the z axis.
    pub fn unit_z() -> (r: Self)
        ensures
            r == z_axis(),
    {
        Vector { x: Fixed(0), y: Fixed(0), z: Fixed(FIXED_DECIMAL) }
    }

    /// The canonical up direction: positive y.
    pub fn up() -> (r: Self)
        ensures
            r == y_axis(),
    {
        Self::unit_y()
    }

    /// The canonical down direction: negative y.
    pub fn down() -> (r: Self)
        ensures
            r == (Vector { x: Fixed(0), y: Fixed((-FIXED_DECIMAL) as i64), z: Fixed(0) }),
    {
        Vector { x: Fixed(0), y: Fixed(-FIXED_DECIMAL), z: Fixed(0) }
    }

    /// The canonical forward direction: positive z.
    pub fn forward() -> (r: Self)
        ensures
            r == z_axis(),
    {
        Self::unit_z()
    }

    /// The canonical backward direction: negative z.
    pub fn backward() -> (r: Self)
        ensures
            r == (Vector { x: Fixed(0), y: Fixed(0), z: Fixed((-FIXED_DECIMAL) as i64) }),
    {
        Vector { x: Fixed(0), y: Fixed(0), z: Fixed(-FIXED_DECIMAL) }
    }

    /// A vector orthogonal to this one: the cross product with the axis
    /// along which this vector is smallest.
    pub fn orthogonal(&self) -> (r: Self)
        requires
            vec_bounded(*self),
        ensures
            r == orthogonal_spec(*self),
    {
        proof {
            lemma_cross_fits(*self, x_axis());
            lemma_cross_fits(*self, y_axis());
            lemma_cross_fits(*self, z_axis());
        }
        let bx = if self.x.0 >= 0 {
            self.x.0
        } else {
            -self.x.0
        };
        let by = if self.y.0 >= 0 {
            self.y.0
        } else {
            -self.y.0
        };
        let bz = if self.z.0 >= 0 {
            self.z.0
        } else {
            -self.z.0
        };
        if bx < by && bx < bz {
            self.cross(&Self::unit_x())
        } else if by < bx && by < bz {
            self.cross(&Self::unit_y())
        } else {
            self.cross(&Self::unit_z())
        }
    }

    /// The dot product of this and `rhs`.
    pub fn dot(&self, rhs: &Self) -> (r: Fixed)
        requires
            vec_bounded(*self),
            vec_bounded(*rhs),
        ensures
            r@ == dot_spec(*self, *rhs),
    {
        proof {
            lemma_fmul_bounded(self.x@, rhs.x@);
            lemma_fmul_bounded(self.y@, rhs.y@);
            lemma_fmul_bounded(self.z@, rhs.z@);
        }
        self.x.mul(rhs.x).add(self.y.mul(rhs.y)).add(self.z.mul(rhs.z))
    }

    /// The cross product of this and `rhs`.
    pub fn cross(&self, rhs: &Self) -> (r: Self)
        requires
            vec_bounded(*self),
            vec_bounded(*rhs),
        ensures
            r == cross_spec(*self, *rhs),
    {
        proof {
            lemma_cross_fits(*self, *rhs);
        }
        Vector {
            x: self.y.mul(rhs.z).sub(self.z.mul(rhs.y)),
            y: self.z.mul(rhs.x).sub(self.x.mul(rhs.z)),
            z: self.x.mul(rhs.y).sub(self.y.mul(rhs.x)),
        }
    }

    /// The wedge product of this and `rhs`, as a bivector.
    pub fn wedge(self, rhs: Self) -> (r: Bivector)
        requires
            vec_bounded(self),
            vec_bounded(rhs),
        ensures
            r == crate::bivec::wedge_spec(self, rhs),
    {
        Bivector::from_wedge(self, rhs)
    }

    /// The length of the vector.
    pub fn length(&self) -> (r: Fixed)
        requires
            vec_bounded(*self),
        ensures
            r@ == length_spec(*self),
            is_sqrt_of(r@, dot_spec(*self, *self) * (FIXED_DECIMAL as int)),
    {
        proof {
            lemma_dot_self_nonneg(*self);
        }
        self.length_sq().sqrt()
    }

    /// The squared length of the vector: faster than the length.
    pub fn length_sq(&self) -> (r: Fixed)
        requires
            vec_bounded(*self),
        ensures
            r@ == dot_spec(*self, *self),
            r@ >= 0,
    {
        proof {
            lemma_dot_self_nonneg(*self);
        }
        self.dot(self)
    }

    /// This vector with its length limited to `length`: scaled down onto the
    /// sphere of that radius when longer, unchanged otherwise.
    pub fn limit_length(&self, length: Fixed) -> (r: Self)
        requires
            vec_bounded(*self),
            0 <= length@ <= VEC_LIMIT as int,
        ensures
            r == limit_length_spec(*self, length),
    {
        proof {
            lemma_fmul_bounded(length@, length@);
            lemma_dot_self_nonneg(*self);
        }
        let lsq = self.length_sq();
        let ll = length.mul(length);
        if lsq.0 > ll.0 {
            proof {
                lemma_normalized_scale_fits(*self, length@);
            }
            let normalized = self.normalized();
            Vector {
                x: normalized.x.mul(length),
                y: normalized.y.mul(length),
                z: normalized.z.mul(length),
            }
        } else {
            *self
        }
    }

    /// The distance from this vector to `other`, as points.
    pub fn distance_to(&self, other: &Self) -> (r: Fixed)
        requires
            sub_ok(*other, *self),
        ensures
            r@ == length_spec(sub_spec(*other, *self)),
    {
        let diff = Vector {
            x: other.x.sub(self.x),
            y: other.y.sub(self.y),
            z: other.z.sub(self.z),
        };
        diff.length()
    }

    /// The linear interpolation from this vector toward `to` by `weight`.
    pub fn lerp(&self, to: &Self, weight: Fixed) -> (r: Self)
        requires
            vec_bounded(*self),
            vec_bounded(*to),
            mag(weight@) <= VEC_LIMIT as int,
        ensures
            r == lerp_spec(*self, *to, weight@),
    {
        proof {
            lemma_lerp_fits(*self, *to, weight@);
        }
        Vector {
            x: self.x.add(to.x.sub(self.x).mul(weight)),
            y: self.y.add(to.y.sub(self.y).mul(weight)),
            z: self.z.add(to.z.sub(self.z).mul(weight)),
        }
    }

    /// The unit vector in this vector's direction; the vector must have a
    /// nonzero stored squared length.
    pub fn normalized(&self) -> (r: Self)
        requires
            vec_bounded(*self),
            dot_spec(*self, *self) >= 1,
        ensures
            r == normalized_spec(*self),
    {
        let len = self.length();
        proof {
            lemma_dot_self_dominates(*self);
            let d = dot_spec(*self, *self) * (FIXED_DECIMAL as int);
            assert(d >= 100000) by (nonlinear_arith)
                requires
                    dot_spec(*self, *self) >= 1,
                    d == dot_spec(*self, *self) * (FIXED_DECIMAL as int),
            ;
            assert(len@ >= 1) by (nonlinear_arith)
                requires
                    0 <= len@,
                    d < (len@ + 1) * (len@ + 1),
                    d >= 100000,
            ;
            lemma_unit_div_fits(self.x@, d, len@);
            lemma_unit_div_fits(self.y@, d, len@);
            lemma_unit_div_fits(self.z@, d, len@);
        }
        Vector { x: self.x.div(len), y: self.y.div(len), z: self.z.div(len) }
    }

    /// This vector with each component clamped between the corresponding
    /// components of `min` and `max`.
    pub fn clamp(&self, min: &Self, max: &Self) -> (r: Self)
        requires
            min.x@ <= max.x@,
            min.y@ <= max.y@,
            min.z@ <= max.z@,
        ensures
            r == clamp_spec(*self, *min, *max),
    {
        Vector {
            x: clamp_component(self.x, min.x, max.x),
            y: clamp_component(self.y, min.y, max.y),
            z: clamp_component(self.z, min.z, max.z),
        }
    }

    /// A vector of plus or minus one per component, by the component's sign;
    /// zero counts as positive.
    pub fn sign(&self) -> (r: Self)
        ensures
            r.x == self.x.signum_spec(),
            r.y == self.y.signum_spec(),
            r.z == self.z.signum_spec(),
    {
        Vector { x: self.x.signum(), y: self.y.signum(), z: self.z.signum() }
    }

    /// The componentwise maximum of this vector and `other`.
    pub fn component_max(&self, other: &Self) -> (r: Self)
        ensures
            r.x@ == if self.x@ >= other.x@ { self.x@ } else { other.x@ },
            r.y@ == if self.y@ >= other.y@ { self.y@ } else { other.y@ },
            r.z@ == if self.z@ >= other.z@ { self.z@ } else { other.z@ },
    {
        Vector {
            x: if self.x.0 >= other.x.0 { self.x } else { other.x },
            y: if self.y.0 >= other.y.0 { self.y } else { other.y },
            z: if self.z.0 >= other.z.0 { self.z } else { other.z },
        }
    }

    /// The componentwise minimum of this vector and `other`.
    pub fn component_min(&self, other: &Self) -> (r: Self)
        ensures
            r.x@ == if self.x@ <= other.x@ { self.x@ } else { other.x@ },
            r.y@ == if self.y@ <= other.y@ { self.y@ } else { other.y@ },
            r.z@ == if self.z@ <= other.z@ { self.z@ } else { other.z@ },
    {
        Vector {
            x: if self.x.0 <= other.x.0 { self.x } else { other.x },
            y: if self.y.0 <= other.y.0 { self.y } else { other.y },
            z: if self.z.0 <= other.z.0 { self.z } else { other.z },
        }
    }

    /// This vector rotated about the x axis by `radians`.
    pub fn rotate_about_x(&self, radians: Fixed) -> (r: Self)
        requires
            vec_bounded(*self),
        ensures
            r.x == self.x,
            r.y@ == spec_mul(self.y@, spec_cos(radians@)) - spec_mul(self.z@, spec_sin(radians@)),
            r.z@ == spec_mul(self.y@, spec_sin(radians@)) + spec_mul(self.z@, spec_cos(radians@)),
    {
        let c = radians.cos();
        let s = radians.sin();
        proof {
            lemma_rotation_terms_fit(*self, c@, s@);
        }
        Vector {
            x: self.x,
            y: self.y.mul(c).sub(self.z.mul(s)),
            z: self.y.mul(s).add(self.z.mul(c)),
        }
    }

    /// This vector rotated about the y axis by `radians`.
    pub fn rotate_about_y(&self, radians: Fixed) -> (r: Self)
        requires
            vec_bounded(*self),
            self.x@ != i64::MIN,
        ensures
            r.x@ == spec_mul(self.x@, spec_cos(radians@)) + spec_mul(self.z@, spec_sin(radians@)),
            r.y == self.y,
            r.z@ == spec_mul(-self.x@, spec_sin(radians@)) + spec_mul(self.z@, spec_cos(radians@)),
    {
        let c = radians.cos();
        let s = radians.sin();
        proof {
            lemma_rotation_terms_fit(*self, c@, s@);
            lemma_fmul_bounded(-self.x@, s@);
        }
        Vector {
            x: self.x.mul(c).add(self.z.mul(s)),
            y: self.y,
            z: self.x.neg().mul(s).add(self.z.mul(c)),
        }
    }

    /// This vector rotated about the z axis by `radians`.
    pub fn rotate_about_z(&self, radians: Fixed) -> (r: Self)
        requires
            vec_bounded(*self),
        ensures
            r.x@ == spec_mul(self.x@, spec_cos(radians@)) - spec_mul(self.y@, spec_sin(radians@)),
            r.y@ == spec_mul(self.x@, spec_sin(radians@)) + spec_mul(self.y@, spec_cos(radians@)),
            r.z == self.z,
    {
        let c = radians.cos();
        let s = radians.sin();
        proof {
            lemma_rotation_terms_fit(*self, c@, s@);
        }
        Vector {
            x: self.x.mul(c).sub(self.y.mul(s)),
            y: self.x.mul(s).add(self.y.mul(c)),
            z: self.z,
        }
    }

    /// The x and y components rotated a quarter turn clockwise about z.
    pub fn rotate_90_xy_cw(&self) -> (r: Self)
        requires
            self.x@ != i64::MIN,
        ensures
            r.x == self.y,
            r.y@ == -self.x@,
            r.z == self.z,
    {
        Vector { x: self.y, y: self.x.neg(), z: self.z }
    }

    /// The x and y components rotated a quarter turn counter-clockwise
    /// about z.
    pub fn rotate_90_xy_ccw(&self) -> (r: Self)
        requires
            self.y@ != i64::MIN,
        ensures
            r.x@ == -self.y@,
            r.y == self.x,
            r.z == self.z,
    {
        Vector { x: self.y.neg(), y: self.x, z: self.z }
    }

    /// The componentwise sum of this vector and `rhs`.
    pub fn add(&self, rhs: &Self) -> (r: Self)
        requires
            fits64(self.x@ + rhs.x@),
            fits64(self.y@ + rhs.y@),
            fits64(self.z@ + rhs.z@),
        ensures
            r == add_spec(*self, *rhs),
    {
        Vector { x: self.x.add(rhs.x), y: self.y.add(rhs.y), z: self.z.add(rhs.z) }
    }

    /// The componentwise difference of this vector and `rhs`.
    pub fn sub(&self, rhs: &Self) -> (r: Self)
        requires
            fits64(self.x@ - rhs.x@),
            fits64(self.y@ - rhs.y@),
            fits64(self.z@ - rhs.z@),
        ensures
            r == sub_spec(*self, *rhs),
    {
        Vector { x: self.x.sub(rhs.x), y: self.y.sub(rhs.y), z: self.z.sub(rhs.z) }
    }

    /// The componentwise product of this vector and `rhs`.
    pub fn mul(&self, rhs: &Self) -> (r: Self)
        requires
            vec_bounded(*self),
            vec_bounded(*rhs),
        ensures
            r.x@ == spec_mul(self.x@, rhs.x@),
            r.y@ == spec_mul(self.y@, rhs.y@),
            r.z@ == spec_mul(self.z@, rhs.z@),
    {
        proof {
            lemma_fmul_bounded(self.x@, rhs.x@);
            lemma_fmul_bounded(self.y@, rhs.y@);
            lemma_fmul_bounded(self.z@, rhs.z@);
        }
        Vector { x: self.x.mul(rhs.x), y: self.y.mul(rhs.y), z: self.z.mul(rhs.z) }
    }

    /// The componentwise quotient of this vector and `rhs`, whose components
    /// must all be nonzero.
    pub fn div(&self, rhs: &Self) -> (r: Self)
        requires
            rhs.x@ != 0,
            rhs.y@ != 0,
            rhs.z@ != 0,
            fits64(spec_div(self.x@, rhs.x@)),
            fits64(spec_div(self.y@, rhs.y@)),
            fits64(spec_div(self.z@, rhs.z@)),
        ensures
            r.x@ == spec_div(self.x@, rhs.x@),
            r.y@ == spec_div(self.y@, rhs.y@),
            r.z@ == spec_div(self.z@, rhs.z@),
    {
        Vector { x: self.x.div(rhs.x), y: self.y.div(rhs.y), z: self.z.div(rhs.z) }
    }

    /// This vector scaled by the scalar `rhs`.
    pub fn scale(&self, rhs: Fixed) -> (r: Self)
        requires
            vec_bounded(*self),
            mag(rhs@) <= VEC_LIMIT as int,
        ensures
            r == scale_spec(*self, rhs@),
    {
        proof {
            lemma_fmul_bounded(self.x@, rhs@);
            lemma_fmul_bounded(self.y@, rhs@);
            lemma_fmul_bounded(self.z@, rhs@);
        }
        Vector { x: self.x.mul(rhs), y: self.y.mul(rhs), z: self.z.mul(rhs) }
    }

    /// This vector divided by the scalar `rhs`, which must be nonzero.
    pub fn scale_div(&self, rhs: Fixed) -> (r: Self)
        requires
            rhs@ != 0,
            fits64(spec_div(self.x@, rhs@)),
            fits64(spec_div(self.y@, rhs@)),
            fits64(spec_div(self.z@, rhs@)),
        ensures
            r == scale_div_spec(*self, rhs@),
    {
        Vector { x: self.x.div(rhs), y: self.y.div(rhs), z: self.z.div(rhs) }
    }

    /// The componentwise negation.
    pub fn neg(&self) -> (r: Self)
        requires
            self.x@ != i64::MIN,
            self.y@ != i64::MIN,
            self.z@ != i64::MIN,
        ensures
            r.x@ == -self.x@,
            r.y@ == -self.y@,
            r.z@ == -self.z@,
    {
        Vector { x: self.x.neg(), y: self.y.neg(), z: self.z.neg() }
    }
}

/// The unit vector along the x axis, as a value.
pub open spec fn x_axis() -> Vector {
    Vector { x: Fixed(FIXED_DECIMAL), y: Fixed(0), z: Fixed(0) }
}

/// The unit vector along the y axis, as a value.
pub open spec fn y_axis() -> Vector {
    Vector { x: Fixed(0), y: Fixed(FIXED_DECIMAL), z: Fixed(0) }
}

/// The unit vector along the z axis, as a value.
pub open spec fn z_axis() -> Vector {
    Vector { x: Fixed(0), y: Fixed(0), z: Fixed(FIXED_DECIMAL) }
}

/// The orthogonal construction: cross with the axis along which the vector
/// is smallest in magnitude.
pub open spec fn orthogonal_spec(v: Vector) -> Vector {
    let ax = mag(v.x@);
    let ay = mag(v.y@);
    let az = mag(v.z@);
    if ax < ay && ax < az {
        cross_spec(v, x_axis())
    } else if ay < ax && ay < az {
        cross_spec(v, y_axis())
    } else {
        cross_spec(v, z_axis())
    }
}

/// The length-limiting construction: scaled onto the sphere when the
/// squared length exceeds the squared limit, unchanged otherwise.
pub open spec fn limit_length_spec(v: Vector, length: Fixed) -> Vector {
    if dot_spec(v, v) > spec_mul(length@, length@) {
        scale_spec(normalized_spec(v), length@)
    } else {
        v
    }
}

/// The interpolation `a + (b - a) * w`, componentwise on the stored grid.
pub open spec fn lerp_spec(a: Vector, b: Vector, w: int) -> Vector {
    Vector {
        x: Fixed((a.x@ + spec_mul(b.x@ - a.x@, w)) as i64),
        y: Fixed((a.y@ + spec_mul(b.y@ - a.y@, w)) as i64),
        z: Fixed((a.z@ + spec_mul(b.z@ - a.z@, w)) as i64),
    }
}

/// Clamping, componentwise.
pub open spec fn clamp_spec(v: Vector, lo: Vector, hi: Vector) -> Vector {
    Vector {
        x: clamp_component_spec(v.x, lo.x, hi.x),
        y: clamp_component_spec(v.y, lo.y, hi.y),
        z: clamp_component_spec(v.z, lo.z, hi.z),
    }
}

/// One clamped component.
pub open spec fn clamp_component_spec(v: Fixed, lo: Fixed, hi: Fixed) -> Fixed {
    if v@ < lo@ {
        lo
    } else if v@ > hi@ {
        hi
    } else {
        v
    }
}

fn clamp_component(v: Fixed, lo: Fixed, hi: Fixed) -> (r: Fixed)
    requires
        lo@ <= hi@,
    ensures
        r == clamp_component_spec(v, lo, hi),
{
    if v.0 < lo.0 {
        lo
    } else if v.0 > hi.0 {
        hi
    } else {
        v
    }
}

/// Every component of a cross product of budgeted vectors fits.
pub proof fn lemma_cross_fits(u: Vector, v: Vector)
    requires
        vec_bounded(u),
        vec_bounded(v),
    ensures
        fits64(spec_mul(u.y@, v.z@) - spec_mul(u.z@, v.y@)),
        fits64(spec_mul(u.z@, v.x@) - spec_mul(u.x@, v.z@)),
        fits64(spec_mul(u.x@, v.y@) - spec_mul(u.y@, v.x@)),
        fits64(spec_mul(u.y@, v.z@)),
        fits64(spec_mul(u.z@, v.y@)),
        fits64(spec_mul(u.z@, v.x@)),
        fits64(spec_mul(u.x@, v.z@)),
        fits64(spec_mul(u.x@, v.y@)),
        fits64(spec_mul(u.y@, v.x@)),
{
    lemma_fmul_bounded(u.y@, v.z@);
    lemma_fmul_bounded(u.z@, v.y@);
    lemma_fmul_bounded(u.z@, v.x@);
    lemma_fmul_bounded(u.x@, v.z@);
    lemma_fmul_bounded(u.x@, v.y@);
    lemma_fmul_bounded(u.y@, v.x@);
}

/// Every intermediate of an interpolation of budgeted vectors fits.
proof fn lemma_lerp_fits(a: Vector, b: Vector, w: int)
    requires
        vec_bounded(a),
        vec_bounded(b),
        mag(w) <= VEC_LIMIT as int,
    ensures
        fits64(b.x@ - a.x@),
        fits64(b.y@ - a.y@),
        fits64(b.z@ - a.z@),
        fits64(a.x@ + spec_mul(b.x@ - a.x@, w)),
        fits64(a.y@ + spec_mul(b.y@ - a.y@, w)),
        fits64(a.z@ + spec_mul(b.z@ - a.z@, w)),
        fits64(spec_mul(b.x@ - a.x@, w)),
        fits64(spec_mul(b.y@ - a.y@, w)),
        fits64(spec_mul(b.z@ - a.z@, w)),
{
    lemma_mag_mul_bound(b.x@ - a.x@, w, 1000000000000, VEC_LIMIT as int);
    lemma_mag_mul_bound(b.y@ - a.y@, w, 1000000000000, VEC_LIMIT as int);
    lemma_mag_mul_bound(b.z@ - a.z@, w, 1000000000000, VEC_LIMIT as int);
    lemma_tdiv_bound((b.x@ - a.x@) * w, FIXED_DECIMAL as int, 500000000000000000000000);
    lemma_tdiv_bound((b.y@ - a.y@) * w, FIXED_DECIMAL as int, 500000000000000000000000);
    lemma_tdiv_bound((b.z@ - a.z@) * w, FIXED_DECIMAL as int, 500000000000000000000000);
}

/// The products of a rotation about an axis fit.
proof fn lemma_rotation_terms_fit(v: Vector, c: int, s: int)
    requires
        vec_bounded(v),
        mag(c) <= FIXED_DECIMAL as int,
        mag(s) <= FIXED_DECIMAL as int,
    ensures
        fits64(spec_mul(v.x@, c)),
        fits64(spec_mul(v.y@, c)),
        fits64(spec_mul(v.z@, c)),
        fits64(spec_mul(v.x@, s)),
        fits64(spec_mul(v.y@, s)),
        fits64(spec_mul(v.z@, s)),
        fits64(spec_mul(v.y@, c) - spec_mul(v.z@, s)),
        fits64(spec_mul(v.y@, s) + spec_mul(v.z@, c)),
        fits64(spec_mul(v.x@, c) + spec_mul(v.z@, s)),
        fits64(spec_mul(v.x@, c) - spec_mul(v.y@, s)),
        fits64(spec_mul(v.x@, s) + spec_mul(v.y@, c)),
        fits64(spec_mul(-v.x@, s) + spec_mul(v.z@, c)),
{
    lemma_fmul_bounded(v.x@, c);
    lemma_fmul_bounded(v.y@, c);
    lemma_fmul_bounded(v.z@, c);
    lemma_fmul_bounded(v.x@, s);
    lemma_fmul_bounded(v.y@, s);
    lemma_fmul_bounded(v.z@, s);
    lemma_fmul_bounded(-v.x@, s);
}

/// A normalized component scaled back by a budgeted length fits.
pub proof fn lemma_normalized_scale_fits(v: Vector, k: int)
    requires
        vec_bounded(v),
        dot_spec(v, v) >= 1,
        mag(k) <= VEC_LIMIT as int,
    ensures
        fits64(spec_mul(normalized_spec(v).x@, k)),
        fits64(spec_mul(normalized_spec(v).y@, k)),
        fits64(spec_mul(normalized_spec(v).z@, k)),
        mag(spec_mul(normalized_spec(v).x@, k)) <= 16000000000000,
        mag(spec_mul(normalized_spec(v).y@, k)) <= 16000000000000,
        mag(spec_mul(normalized_spec(v).z@, k)) <= 16000000000000,
        mag(normalized_spec(v).x@) <= 3200000,
        mag(normalized_spec(v).y@) <= 3200000,
        mag(normalized_spec(v).z@) <= 3200000,
{
    let d = dot_spec(v, v) * (FIXED_DECIMAL as int);
    let l = length_spec(v);
    lemma_dot_self_nonneg(v);
    lemma_dot_self_dominates(v);
    assert(d >= 100000) by (nonlinear_arith)
        requires
            dot_spec(v, v) >= 1,
            d == dot_spec(v, v) * (FIXED_DECIMAL as int),
    ;
    assert(is_sqrt_of(sqrt_val(d), d)) by {
        crate::fixed::lemma_sqrt_exists(d);
    }
    assert(l >= 1) by (nonlinear_arith)
        requires
            0 <= l,
            d < (l + 1) * (l + 1),
            d >= 100000,
    ;
    lemma_unit_div_fits(v.x@, d, l);
    lemma_unit_div_fits(v.y@, d, l);
    lemma_unit_div_fits(v.z@, d, l);
    lemma_mag_mul_bound(normalized_spec(v).x@, k, 3200000, VEC_LIMIT as int);
    lemma_mag_mul_bound(normalized_spec(v).y@, k, 3200000, VEC_LIMIT as int);
    lemma_mag_mul_bound(normalized_spec(v).z@, k, 3200000, VEC_LIMIT as int);
    lemma_tdiv_bound(normalized_spec(v).x@ * k, FIXED_DECIMAL as int, 1600000000000000000);
    lemma_tdiv_bound(normalized_spec(v).y@ * k, FIXED_DECIMAL as int, 1600000000000000000);
    lemma_tdiv_bound(normalized_spec(v).z@ * k, FIXED_DECIMAL as int, 1600000000000000000);
}

/// A cross product of a near-unit vector with a unit axis keeps small
/// components.
pub proof fn lemma_cross_unit_bounded(u: Vector, v: Vector)
    requires
        mag(u.x@) <= 3200000,
        mag(u.y@) <= 3200000,
        mag(u.z@) <= 3200000,
        mag(v.x@) <= 100000,
        mag(v.y@) <= 100000,
        mag(v.z@) <= 100000,
    ensures
        mag(cross_spec(u, v).x@) <= 6400000,
        mag(cross_spec(u, v).y@) <= 6400000,
        mag(cross_spec(u, v).z@) <= 6400000,
        vec_bounded(cross_spec(u, v)),
{
    lemma_mag_mul_bound(u.y@, v.z@, 3200000, 100000);
    lemma_mag_mul_bound(u.z@, v.y@, 3200000, 100000);
    lemma_mag_mul_bound(u.z@, v.x@, 3200000, 100000);
    lemma_mag_mul_bound(u.x@, v.z@, 3200000, 100000);
    lemma_mag_mul_bound(u.x@, v.y@, 3200000, 100000);
    lemma_mag_mul_bound(u.y@, v.x@, 3200000, 100000);
    lemma_tdiv_bound(u.y@ * v.z@, FIXED_DECIMAL as int, 320000000000);
    lemma_tdiv_bound(u.z@ * v.y@, FIXED_DECIMAL as int, 320000000000);
    lemma_tdiv_bound(u.z@ * v.x@, FIXED_DECIMAL as int, 320000000000);
    lemma_tdiv_bound(u.x@ * v.z@, FIXED_DECIMAL as int, 320000000000);
    lemma_tdiv_bound(u.x@ * v.y@, FIXED_DECIMAL as int, 320000000000);
    lemma_tdiv_bound(u.y@ * v.x@, FIXED_DECIMAL as int, 320000000000);
}

/// The orthogonal construction on a near-unit vector keeps small
/// components.
pub proof fn lemma_orthogonal_bounded(v: Vector)
    requires
        mag(v.x@) <= 3200000,
        mag(v.y@) <= 3200000,
        mag(v.z@) <= 3200000,
    ensures
        mag(orthogonal_spec(v).x@) <= 6400000,
        mag(orthogonal_spec(v).y@) <= 6400000,
        mag(orthogonal_spec(v).z@) <= 6400000,
        vec_bounded(orthogonal_spec(v)),
{
    lemma_cross_unit_bounded(v, x_axis());
    lemma_cross_unit_bounded(v, y_axis());
    lemma_cross_unit_bounded(v, z_axis());
}

impl Vector {
    /// This vector rotated by a rotor, as a new value.
    pub fn rotated_by(&self, rotation: &crate::rotor::Rotor) -> (r: Self)
        requires
            crate::rotor::rotor_near_unit(*rotation),
            vec_bounded(*self),
        ensures
            r == crate::rotor::rotate_spec(*rotation, *self),
    {
        let mut rotated = *self;
        rotation.rotate_vector(&mut rotated);
        rotated
    }

    /// Rotate this vector in place by a rotor.
    pub fn rotate(&mut self, rotation: &crate::rotor::Rotor)
        requires
            crate::rotor::rotor_near_unit(*rotation),
            vec_bounded(*old(self)),
        ensures
            *final(self) == crate::rotor::rotate_spec(*rotation, *old(self)),
    {
        rotation.rotate_vector(self)
    }
}

impl crate::traits::Zero for Vector {
    open spec fn zero_spec() -> Vector {
        Vector { x: Fixed(0), y: Fixed(0), z: Fixed(0) }
    }

    fn zero() -> (r: Vector) {
        Vector { x: Fixed(0), y: Fixed(0), z: Fixed(0) }
    }
}

impl crate::traits::Approximately for Vector {
    open spec fn approx_spec(&self, other: Vector, epsilon: Fixed) -> bool {
        &&& mag(self.x@ - other.x@) <= epsilon@
        &&& mag(self.y@ - other.y@) <= epsilon@
        &&& mag(self.z@ - other.z@) <= epsilon@
    }

    fn approximately(&self, other: Vector, epsilon: Fixed) -> (r: bool) {
        self.x.approximately(other.x, epsilon) && self.y.approximately(other.y, epsilon)
            && self.z.approximately(other.z, epsilon)
    }
}

impl crate::traits::Parallel for Vector {
    /// Two vectors are parallel when their unit vectors agree up to the
    /// default tolerance, in either orientation.
    open spec fn parallel_spec(&self, other: &Vector) -> bool {
        mag((FIXED_DECIMAL as int) - mag(dot_spec(normalized_spec(*self), normalized_spec(*other))))
            <= 3
    }

    open spec fn parallel_req(&self, other: &Vector) -> bool {
        &&& vec_bounded(*self)
        &&& vec_bounded(*other)
        &&& dot_spec(*self, *self) >= 1
        &&& dot_spec(*other, *other) >= 1
    }

    fn parallel(&self, other: &Vector) -> (r: bool) {
        proof {
            lemma_normalized_scale_fits(*self, 0);
            lemma_normalized_scale_fits(*other, 0);
        }
        let sn = self.normalized();
        let on = other.normalized();
        proof {
            lemma_mag_mul_bound(sn.x@, on.x@, 3200000, 3200000);
            lemma_mag_mul_bound(sn.y@, on.y@, 3200000, 3200000);
            lemma_mag_mul_bound(sn.z@, on.z@, 3200000, 3200000);
            lemma_tdiv_bound(sn.x@ * on.x@, FIXED_DECIMAL as int, 10240000000000);
            lemma_tdiv_bound(sn.y@ * on.y@, FIXED_DECIMAL as int, 10240000000000);
            lemma_tdiv_bound(sn.z@ * on.z@, FIXED_DECIMAL as int, 10240000000000);
        }
        let d = sn.dot(&on);
        let m = if d.0 >= 0 {
            d
        } else {
            Fixed(-d.0)
        };
        let one = Fixed(FIXED_DECIMAL);
        one.approximately(m, Fixed(3))
    }
}

} // verus!

