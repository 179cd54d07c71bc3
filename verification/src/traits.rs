//! The small trait vocabulary shared by the scalar and the geometry types.
//!
//! Each trait pairs its executable methods with specification functions that
//! every implementation defines; the method contracts are stated once here,
//! in terms of those functions.

use crate::arith::lemma_mag_mul_bound;
use crate::arith::lemma_tdiv_bound;
use crate::arith::mag;
use crate::arith::tdiv;
use crate::fixed::is_sqrt_of;
use crate::fixed::sqrt_val;
use crate::fixed::Fixed;
use crate::fixed::FixedError;
use crate::fixed::FIXED_DECIMAL;
use vstd::arithmetic::div_mod::lemma_div_by_multiple;
use vstd::prelude::*;

verus! {

/// The distinguished scalar values a generic numeric scalar must offer.
pub trait FloatExt: Sized {
    /// The representation of one.
    spec fn one_spec() -> Self;

    /// The representation of zero.
    spec fn zero_spec() -> Self;

    /// The default comparison tolerance.
    spec fn epsilon_spec() -> Self;

    fn one() -> (r: Self)
        ensures
            r == Self::one_spec(),
    ;

    fn zero() -> (r: Self)
        ensures
            r == Self::zero_spec(),
    ;

    fn epsilon() -> (r: Self)
        ensures
            r == Self::epsilon_spec(),
    ;
}

/// A potentially lossy conversion from another type.
pub trait FromLossy<U>: Sized {
    /// The value the conversion produces.
    spec fn from_lossy_spec(value: U) -> Self;

    /// The inputs the conversion accepts.
    spec fn from_lossy_req(value: U) -> bool;

    fn from_lossy(value: U) -> (r: Self)
        requires
            Self::from_lossy_req(value),
        ensures
            r == Self::from_lossy_spec(value),
    ;
}

/// A zero-representation of the item.
pub trait Zero: Sized {
    /// The zero value.
    spec fn zero_spec() -> Self;

    fn zero() -> (r: Self)
        ensures
            r == Self::zero_spec(),
    ;
}

/// Test whether one item is approximately equivalent to another item.
pub trait Approximately<Rhs = Self> {
    /// What approximate equivalence means for this pair of types.
    spec fn approx_spec(&self, other: Rhs, epsilon: Fixed) -> bool;

    fn approximately(&self, other: Rhs, epsilon: Fixed) -> (r: bool)
        ensures
            r == self.approx_spec(other, epsilon),
    ;
}

/// Test whether two items are coincident with one another.
pub trait Coincident<Rhs = Self> {
    /// What coincidence means for this pair of types.
    spec fn coincident_spec(&self, other: &Rhs) -> bool;

    /// The inputs on which the test is defined.
    spec fn coincident_req(&self, other: &Rhs) -> bool;

    fn coincident(&self, other: &Rhs) -> (r: bool)
        requires
            self.coincident_req(other),
        ensures
            r == self.coincident_spec(other),
    ;
}

/// Compute distances between two items.
pub trait Distance<Rhs = Self> {
    /// The stored integer of the squared distance.
    spec fn dist_sq_spec(&self, other: &Rhs) -> int;

    /// The inputs on which the computation stays representable.
    spec fn dist_req(&self, other: &Rhs) -> bool;

    /// Compute the squared distance between two items.
    fn distance_to_sq(&self, other: &Rhs) -> (r: Fixed)
        requires
            self.dist_req(other),
        ensures
            r@ == self.dist_sq_spec(other),
    ;

    /// Compute the real distance between two items: the fixed-point square
    /// root of the squared distance, which must be nonnegative.
    fn distance_to(&self, other: &Rhs) -> (r: Fixed)
        requires
            self.dist_req(other),
            self.dist_sq_spec(other) >= 0,
        ensures
            r@ == sqrt_val(self.dist_sq_spec(other) * (FIXED_DECIMAL as int)),
            is_sqrt_of(r@, self.dist_sq_spec(other) * (FIXED_DECIMAL as int)),
    {
        self.distance_to_sq(other).sqrt()
    }
}

/// Test whether two items are parallel to one another.
pub trait Parallel<Rhs = Self> {
    /// What parallelism means for this pair of types.
    spec fn parallel_spec(&self, other: &Rhs) -> bool;

    /// The inputs on which the test is defined.
    spec fn parallel_req(&self, other: &Rhs) -> bool;

    fn parallel(&self, other: &Rhs) -> (r: bool)
        requires
            self.parallel_req(other),
        ensures
            r == self.parallel_spec(other),
    ;
}

/// Compute the intersection of two items.
pub trait Intersects<Rhs = Self> {
    /// The resulting intersection shape.
    type Intersection;

    /// Whether the two items intersect.
    spec fn intersects_spec(&self, other: &Rhs) -> bool;

    /// The intersection the computation produces.
    spec fn intersection_spec(&self, other: &Rhs) -> Self::Intersection;

    /// The inputs on which the computation stays representable.
    spec fn intersects_req(&self, other: &Rhs) -> bool;

    /// Test whether two items intersect, without finding the intersection.
    fn interesects(&self, other: &Rhs) -> (r: bool)
        requires
            self.intersects_req(other),
        ensures
            r == self.intersects_spec(other),
    ;

    /// Compute the resulting intersection of two items.
    fn intersection(&self, other: &Rhs) -> (r: Self::Intersection)
        requires
            self.intersects_req(other),
        ensures
            r == self.intersection_spec(other),
    ;
}

/// A plain number that converts to and from the fixed-point scalar.
pub trait Numeric: Sized {
    /// The error type of the checked conversion.
    type Error;

    /// The scalar the conversion produces.
    spec fn into_float_spec(&self) -> Fixed;

    /// The number, if any, a scalar converts back to.
    spec fn from_float_spec(value: Fixed) -> Option<Self>;

    /// Convert into the fixed-point scalar.
    fn into_float(self) -> (r: Fixed)
        ensures
            r == self.into_float_spec(),
    ;

    /// Convert into the fixed-point scalar without consuming the value.
    fn try_into_float(&self) -> (r: Result<Fixed, Self::Error>)
        ensures
            r == Ok::<Fixed, Self::Error>(self.into_float_spec()),
    ;

    /// Convert back from the fixed-point scalar, truncating the fraction;
    /// values beyond the target range give nothing.
    fn from_float(value: Fixed) -> (r: Option<Self>)
        ensures
            r == Self::from_float_spec(value),
    ;
}

/// The fraction-discarding conversion from a scalar back to an integer
/// type: nothing if the magnitude exceeds `limit`, otherwise the truncated
/// whole part (negative values floor at zero when `signed` is false).
pub open spec fn whole_part_within(value: Fixed, limit: int, signed: bool) -> Option<int> {
    if mag(value@) > limit * (FIXED_DECIMAL as int) {
        None
    } else if !signed && value@ < 0 {
        Some(0)
    } else {
        Some(tdiv(value@, FIXED_DECIMAL as int))
    }
}

impl Numeric for i8 {
    type Error = FixedError;

    open spec fn into_float_spec(&self) -> Fixed {
        Fixed((*self * (FIXED_DECIMAL as int)) as i64)
    }

    open spec fn from_float_spec(value: Fixed) -> Option<i8> {
        match whole_part_within(value, i8::MAX as int, true) {
            Some(n) => Some(n as i8),
            None => None,
        }
    }

    fn into_float(self) -> (r: Fixed) {
        proof {
            lemma_mag_mul_bound(self as int, FIXED_DECIMAL as int, 0x80, 100000);
        }
        Fixed::from_integer(self as i64)
    }

    fn try_into_float(&self) -> (r: Result<Fixed, FixedError>) {
        Ok((*self).into_float())
    }

    fn from_float(value: Fixed) -> (r: Option<i8>) {
        match from_float_whole(value, 0x7f, true) {
            Some(n) => Some(n as i8),
            None => None,
        }
    }
}

impl Numeric for i32 {
    type Error = FixedError;

    open spec fn into_float_spec(&self) -> Fixed {
        Fixed((*self * (FIXED_DECIMAL as int)) as i64)
    }

    open spec fn from_float_spec(value: Fixed) -> Option<i32> {
        match whole_part_within(value, i32::MAX as int, true) {
            Some(n) => Some(n as i32),
            None => None,
        }
    }

    fn into_float(self) -> (r: Fixed) {
        proof {
            lemma_mag_mul_bound(self as int, FIXED_DECIMAL as int, 0x80000000, 100000);
        }
        Fixed::from_integer(self as i64)
    }

    fn try_into_float(&self) -> (r: Result<Fixed, FixedError>) {
        Ok((*self).into_float())
    }

    fn from_float(value: Fixed) -> (r: Option<i32>) {
        match from_float_whole(value, 0x7fffffff, true) {
            Some(n) => Some(n as i32),
            None => None,
        }
    }
}

impl Numeric for u8 {
    type Error = FixedError;

    open spec fn into_float_spec(&self) -> Fixed {
        Fixed((*self * (FIXED_DECIMAL as int)) as i64)
    }

    open spec fn from_float_spec(value: Fixed) -> Option<u8> {
        match whole_part_within(value, u8::MAX as int, false) {
            Some(n) => Some(n as u8),
            None => None,
        }
    }

    fn into_float(self) -> (r: Fixed) {
        proof {
            lemma_mag_mul_bound(self as int, FIXED_DECIMAL as int, 0x100, 100000);
        }
        Fixed::from_integer(self as i64)
    }

    fn try_into_float(&self) -> (r: Result<Fixed, FixedError>) {
        Ok((*self).into_float())
    }

    fn from_float(value: Fixed) -> (r: Option<u8>) {
        match from_float_whole(value, 0xff, false) {
            Some(n) => Some(n as u8),
            None => None,
        }
    }
}

impl Numeric for u32 {
    type Error = FixedError;

    open spec fn into_float_spec(&self) -> Fixed {
        Fixed((*self * (FIXED_DECIMAL as int)) as i64)
    }

    open spec fn from_float_spec(value: Fixed) -> Option<u32> {
        // The accepted magnitude is the signed 32-bit maximum, as the
        // conversion has always had it.
        match whole_part_within(value, i32::MAX as int, false) {
            Some(n) => Some(n as u32),
            None => None,
        }
    }

    fn into_float(self) -> (r: Fixed) {
        proof {
            lemma_mag_mul_bound(self as int, FIXED_DECIMAL as int, 0x100000000, 100000);
        }
        let wide = (self as i64) * FIXED_DECIMAL;
        Fixed(wide)
    }

    fn try_into_float(&self) -> (r: Result<Fixed, FixedError>) {
        Ok((*self).into_float())
    }

    fn from_float(value: Fixed) -> (r: Option<u32>) {
        match from_float_whole(value, 0x7fffffff, false) {
            Some(n) => Some(n as u32),
            None => None,
        }
    }
}

/// The shared body of the `from_float` conversions: the whole part of the
/// value if its magnitude is within `limit` whole units.
fn from_float_whole(value: Fixed, limit: i64, signed: bool) -> (r: Option<i64>)
    requires
        0 < limit <= 0x7fffffff,
    ensures
        r == match whole_part_within(value, limit as int, signed) {
            Some(n) => Some(n as i64),
            None => None::<i64>,
        },
        r matches Some(n) ==> mag(n as int) <= limit,
{
    let v = value.0 as i128;
    let m = if v < 0 {
        -v
    } else {
        v
    };
    proof {
        lemma_mag_mul_bound(limit as int, FIXED_DECIMAL as int, 0x7fffffff, 100000);
    }
    if m > (limit as i128) * (FIXED_DECIMAL as i128) {
        None
    } else if !signed && value.0 < 0 {
        Some(0)
    } else {
        proof {
            lemma_tdiv_bound(value@, FIXED_DECIMAL as int, limit * (FIXED_DECIMAL as int));
            lemma_div_by_multiple(limit as int, FIXED_DECIMAL as int);
        }
        let q = crate::fixed::tdiv_i128(v, FIXED_DECIMAL as i128);
        Some(q as i64)
    }
}

} // verus!
