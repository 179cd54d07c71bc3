//! Fixed-point arithmetic.
//!
//! Fixed-point numbers are represented by signed 64-bit integers holding
//! `round(value * FIXED_DECIMAL)`, giving a uniform precision of 1e-5 over
//! the whole representable range. During the four basic operations both
//! operands are promoted to the signed 128-bit [`FullFixed`] accumulator,
//! which carries one extra decimal digit of precision; the single
//! precision-reducing division of a multiply or divide truncates toward
//! zero, and the narrowing step back to 64 bits removes the extra digit and
//! reports overflow instead of wrapping.

use crate::arith::lemma_mag_mul_bound;
use crate::arith::lemma_tdiv_bound;
use crate::arith::lemma_tdiv_cancel;
use crate::arith::lemma_tdiv_compose;
use crate::arith::lemma_tdiv_exact;
use crate::arith::lemma_tdiv_fundamental;
use crate::arith::lemma_tdiv_inverse_bound;
use crate::arith::lemma_tdiv_le_self;
use crate::arith::lemma_tdiv_mag;
use crate::arith::mag;
use crate::arith::tdiv;
use vstd::arithmetic::div_mod::*;
use vstd::arithmetic::mul::*;
use vstd::pervasive::unreached;
use vstd::prelude::*;

verus! {

/// The scale of [`Fixed`]: a stored integer `n` represents `n / FIXED_DECIMAL`.
pub const FIXED_DECIMAL: i64 = 100000;

/// The extra precision factor carried by [`FullFixed`] during arithmetic.
pub const FULL_FIXED_PRECISION_MULTIPLIER: i128 = 10;

/// The scale of [`FullFixed`]: `FIXED_DECIMAL * FULL_FIXED_PRECISION_MULTIPLIER`.
pub const FULL_FIXED_DECIMAL: i128 = 1000000;

/// The ways a fixed-point operation can fail.
///
/// Failures are reported, never wrapped: silent wraparound would defeat the
/// purpose of a reproducible fixed-point scalar.
#[derive(Clone, Copy, PartialEq, Eq, Structural, Debug)]
pub enum FixedError {
    /// A stored integer would exceed the representable range.
    Overflow,
    /// The divisor's stored integer is zero.
    DivisionByZero,
}

/// A fixed-point number: the stored integer represents `value * FIXED_DECIMAL`.
#[derive(Clone, Copy, PartialEq, Eq, Structural, Hash, Default, Debug)]
pub struct Fixed(pub i64);

/// The wide accumulator used during arithmetic, at scale [`FULL_FIXED_DECIMAL`].
///
/// It exists only for the duration of one operation; narrowing back to
/// [`Fixed`] is the caller's step and the only place rounding policy lives.
#[derive(Clone, Copy, Debug)]
pub struct FullFixed(pub i128);

impl View for Fixed {
    type V = int;

    open spec fn view(&self) -> int {
        self.0 as int
    }
}

impl View for FullFixed {
    type V = int;

    open spec fn view(&self) -> int {
        self.0 as int
    }
}

/// Whether a mathematical integer fits the 64-bit stored range.
pub open spec fn fits64(x: int) -> bool {
    i64::MIN <= x <= i64::MAX
}

/// Whether a mathematical integer fits the 128-bit wide range.
pub open spec fn fits128(x: int) -> bool {
    i128::MIN <= x <= i128::MAX
}

/// The stored integer of the fixed-point product of stored integers `a` and `b`.
pub open spec fn spec_mul(a: int, b: int) -> int {
    tdiv(a * b, FIXED_DECIMAL as int)
}

/// The stored integer of the fixed-point quotient of stored integers `a` and `b`.
pub open spec fn spec_div(a: int, b: int) -> int {
    tdiv(a * (FIXED_DECIMAL as int), b)
}

/// The stored integer of the wide product of wide stored integers `a` and `b`.
pub open spec fn spec_wide_mul(a: int, b: int) -> int {
    tdiv(a * b, FULL_FIXED_DECIMAL as int)
}

/// The stored integer of the wide quotient of wide stored integers `a` and `b`.
pub open spec fn spec_wide_div(a: int, b: int) -> int {
    tdiv(a * (FULL_FIXED_DECIMAL as int), b)
}

/// The stored integer of `powi`: `e` exact fixed-point multiplications by `a`
/// starting from one.
pub open spec fn spec_powi(a: int, e: nat) -> int
    decreases e,
{
    if e == 0 {
        FIXED_DECIMAL as int
    } else {
        spec_mul(spec_powi(a, (e - 1) as nat), a)
    }
}

/// Whether every step of `powi` stays within the stored range.
pub open spec fn powi_fits(a: int, e: nat) -> bool
    decreases e,
{
    if e == 0 {
        true
    } else {
        powi_fits(a, (e - 1) as nat) && fits64(spec_powi(a, e))
    }
}

/// The stored integer of the wide `powi`: `e` wide multiplications by `a`
/// starting from the wide one.
pub open spec fn spec_wide_powi(a: int, e: nat) -> int
    decreases e,
{
    if e == 0 {
        FULL_FIXED_DECIMAL as int
    } else {
        spec_wide_mul(spec_wide_powi(a, (e - 1) as nat), a)
    }
}

/// Whether every step of the wide `powi` stays within the wide range.
pub open spec fn wide_powi_fits(a: int, e: nat) -> bool
    decreases e,
{
    if e == 0 {
        true
    } else {
        wide_powi_fits(a, (e - 1) as nat) && mag(spec_wide_powi(a, (e - 1) as nat) * a)
            <= i128::MAX
    }
}

/// The stored integer of `round`: the nearest whole multiple of the scale,
/// ties away from zero.
pub open spec fn spec_round(a: int) -> int {
    let s = FIXED_DECIMAL as int;
    let q = tdiv(a, s);
    let rem = a - s * q;
    if 2 * rem >= s {
        (q + 1) * s
    } else if 2 * rem <= -s {
        (q - 1) * s
    } else {
        q * s
    }
}

/// Whether `r` is the integer square root of `x` (rounded down).
pub open spec fn is_sqrt_of(r: int, x: int) -> bool {
    0 <= r && r * r <= x < (r + 1) * (r + 1)
}

/// The integer square root of `x` (rounded down), as a value.
pub open spec fn sqrt_val(x: int) -> int {
    choose|r: int| is_sqrt_of(r, x)
}

/// Every nonnegative integer has an integer square root.
pub proof fn lemma_sqrt_exists(x: int)
    requires
        x >= 0,
    ensures
        is_sqrt_of(sqrt_val(x), x),
    decreases x,
{
    if x == 0 {
        assert(is_sqrt_of(0, 0));
    } else {
        lemma_sqrt_exists(x - 1);
        let p = sqrt_val(x - 1);
        if (p + 1) * (p + 1) <= x {
            assert(is_sqrt_of(p + 1, x)) by {
                assert(x == (p + 1) * (p + 1));
                assert((p + 1) * (p + 1) < (p + 2) * (p + 2)) by (nonlinear_arith)
                    requires
                        p >= 0,
                ;
            }
        } else {
            assert(is_sqrt_of(p, x));
        }
    }
    assert(exists|r: int| is_sqrt_of(r, x));
}

/// The integer square root is unique.
pub proof fn lemma_sqrt_unique(r1: int, r2: int, x: int)
    requires
        is_sqrt_of(r1, x),
        is_sqrt_of(r2, x),
    ensures
        r1 == r2,
{
    if r1 < r2 {
        assert((r1 + 1) * (r1 + 1) <= r2 * r2) by (nonlinear_arith)
            requires
                0 <= r1 + 1 <= r2,
        ;
    }
    if r2 < r1 {
        assert((r2 + 1) * (r2 + 1) <= r1 * r1) by (nonlinear_arith)
            requires
                0 <= r2 + 1 <= r1,
        ;
    }
}

/// Truncating 128-bit division, the primitive every narrowing step uses.
pub(crate) fn tdiv_i128(x: i128, d: i128) -> (r: i128)
    requires
        d != 0,
        fits128(tdiv(x as int, d as int)),
    ensures
        r as int == tdiv(x as int, d as int),
{
    match x.checked_div(d) {
        Some(q) => q,
        None => unreached(),
    }
}

impl FullFixed {
    /// Promote a [`Fixed`] value losslessly, gaining one decimal digit.
    pub fn from_fixed(value: Fixed) -> (r: Self)
        ensures
            r@ == (FULL_FIXED_PRECISION_MULTIPLIER as int) * value@,
    {
        proof {
            lemma_mag_mul_bound(value@, FULL_FIXED_PRECISION_MULTIPLIER as int, 0x8000000000000000, 10);
        }
        FullFixed((value.0 as i128) * FULL_FIXED_PRECISION_MULTIPLIER)
    }

    /// Wide addition: exact, no precision change.
    pub fn add(self, other: Self) -> (r: Self)
        requires
            fits128(self@ + other@),
        ensures
            r@ == self@ + other@,
    {
        FullFixed(self.0 + other.0)
    }

    /// Wide subtraction: exact, no precision change.
    pub fn sub(self, other: Self) -> (r: Self)
        requires
            fits128(self@ - other@),
        ensures
            r@ == self@ - other@,
    {
        FullFixed(self.0 - other.0)
    }

    /// Wide multiplication; the single truncating division by the wide scale
    /// is the one rounding point.
    pub fn mul(self, other: Self) -> (r: Self)
        requires
            mag(self@ * other@) <= i128::MAX,
        ensures
            r@ == spec_wide_mul(self@, other@),
    {
        proof {
            lemma_tdiv_le_self(self@ * other@, FULL_FIXED_DECIMAL as int);
        }
        FullFixed(tdiv_i128(self.0 * other.0, FULL_FIXED_DECIMAL))
    }

    /// Wide division; truncates toward zero. The divisor must be nonzero.
    pub fn div(self, other: Self) -> (r: Self)
        requires
            other@ != 0,
            mag(self@ * (FULL_FIXED_DECIMAL as int)) <= i128::MAX,
        ensures
            r@ == spec_wide_div(self@, other@),
    {
        proof {
            lemma_tdiv_le_self(self@ * (FULL_FIXED_DECIMAL as int), other@);
        }
        FullFixed(tdiv_i128(self.0 * FULL_FIXED_DECIMAL, other.0))
    }

    /// Wide negation: exact.
    pub fn neg(self) -> (r: Self)
        requires
            self@ != i128::MIN,
        ensures
            r@ == -self@,
    {
        FullFixed(-self.0)
    }

    /// Wide absolute value; undefined for the most negative wide value.
    pub fn abs(self) -> (r: Self)
        requires
            self@ != i128::MIN,
        ensures
            r@ == mag(self@),
    {
        if self.0 >= 0 {
            self
        } else {
            FullFixed(-self.0)
        }
    }

    /// Integer power by repeated wide multiplication; the rounding of each
    /// step is the wide multiply's. The sign of the exponent is ignored,
    /// only its magnitude counts.
    pub fn powi(self, exp: i32) -> (r: Self)
        requires
            wide_powi_fits(self@, mag(exp as int) as nat),
        ensures
            r@ == spec_wide_powi(self@, mag(exp as int) as nat),
    {
        let n: u64 = if exp >= 0 {
            exp as u64
        } else {
            (-(exp as i64)) as u64
        };
        let mut acc = FullFixed(FULL_FIXED_DECIMAL);
        let mut i: u64 = 0;
        while i < n
            invariant
                i <= n,
                n as int == mag(exp as int),
                wide_powi_fits(self@, n as nat),
                acc@ == spec_wide_powi(self@, i as nat),
            decreases n - i,
        {
            proof {
                lemma_wide_powi_fits_prefix(self@, (i + 1) as nat, n as nat);
            }
            acc = acc.mul(self);
            i = i + 1;
        }
        acc
    }

    /// The wide representation of exactly plus or minus one, by the sign of
    /// the value; zero counts as positive.
    pub fn signum(self) -> (r: Self)
        ensures
            self@ >= 0 ==> r@ == FULL_FIXED_DECIMAL as int,
            self@ < 0 ==> r@ == -(FULL_FIXED_DECIMAL as int),
    {
        if self.0 >= 0 {
            FullFixed(FULL_FIXED_DECIMAL)
        } else {
            FullFixed(-FULL_FIXED_DECIMAL)
        }
    }
}

impl Fixed {
    /// The representation of the integer `n`: exact, no rounding.
    pub fn from_integer(n: i64) -> (r: Self)
        requires
            fits64(n * (FIXED_DECIMAL as int)),
        ensures
            r@ == n * (FIXED_DECIMAL as int),
    {
        Fixed(n * FIXED_DECIMAL)
    }

    /// Narrow a wide value back to [`Fixed`], removing the extra precision
    /// digit with one truncating division. The caller answers for overflow.
    pub fn from_full(value: FullFixed) -> (r: Self)
        requires
            fits64(tdiv(value@, FULL_FIXED_PRECISION_MULTIPLIER as int)),
        ensures
            r@ == tdiv(value@, FULL_FIXED_PRECISION_MULTIPLIER as int),
    {
        let q = tdiv_i128(value.0, FULL_FIXED_PRECISION_MULTIPLIER);
        Fixed(q as i64)
    }

    /// Fixed-point addition: exact whenever the sum is representable.
    pub fn add(self, other: Self) -> (r: Self)
        requires
            fits64(self@ + other@),
        ensures
            r@ == self@ + other@,
    {
        let wa = FullFixed::from_fixed(self);
        let wb = FullFixed::from_fixed(other);
        proof {
            lemma_mag_mul_bound(FULL_FIXED_PRECISION_MULTIPLIER as int, self@, 10, 0x8000000000000000);
            lemma_mag_mul_bound(FULL_FIXED_PRECISION_MULTIPLIER as int, other@, 10, 0x8000000000000000);
            assert(wa@ + wb@ == (self@ + other@) * 10) by (nonlinear_arith)
                requires
                    wa@ == 10 * self@,
                    wb@ == 10 * other@,
            ;
            lemma_tdiv_exact(self@ + other@, FULL_FIXED_PRECISION_MULTIPLIER as int);
        }
        Fixed::from_full(wa.add(wb))
    }

    /// Fixed-point subtraction: exact whenever the difference is representable.
    pub fn sub(self, other: Self) -> (r: Self)
        requires
            fits64(self@ - other@),
        ensures
            r@ == self@ - other@,
    {
        let wa = FullFixed::from_fixed(self);
        let wb = FullFixed::from_fixed(other);
        proof {
            lemma_mag_mul_bound(FULL_FIXED_PRECISION_MULTIPLIER as int, self@, 10, 0x8000000000000000);
            lemma_mag_mul_bound(FULL_FIXED_PRECISION_MULTIPLIER as int, other@, 10, 0x8000000000000000);
            assert(wa@ - wb@ == (self@ - other@) * 10) by (nonlinear_arith)
                requires
                    wa@ == 10 * self@,
                    wb@ == 10 * other@,
            ;
            lemma_tdiv_exact(self@ - other@, FULL_FIXED_PRECISION_MULTIPLIER as int);
        }
        Fixed::from_full(wa.sub(wb))
    }

    /// Fixed-point multiplication. The one rounding point is the wide
    /// truncating division; the result is `a * b / FIXED_DECIMAL` on the
    /// stored integers, rounded toward zero.
    pub fn mul(self, other: Self) -> (r: Self)
        requires
            fits64(spec_mul(self@, other@)),
        ensures
            r@ == spec_mul(self@, other@),
    {
        let wa = FullFixed::from_fixed(self);
        let wb = FullFixed::from_fixed(other);
        proof {
            let a = self@;
            let b = other@;
            lemma_tdiv_inverse_bound(a * b, FIXED_DECIMAL as int, 0x8000000000000000);
            assert(wa@ * wb@ == 100 * (a * b)) by (nonlinear_arith)
                requires
                    wa@ == 10 * a,
                    wb@ == 10 * b,
            ;
            lemma_mag_mul_bound(100, a * b, 100, 922337203685477580899999);
            lemma_tdiv_cancel(100, a * b, 10000);
            lemma_tdiv_compose(a * b, 10000, 10);
        }
        Fixed::from_full(wa.mul(wb))
    }

    /// Fixed-point division, truncating toward zero: `a * FIXED_DECIMAL / b`
    /// on the stored integers. The divisor must be nonzero.
    pub fn div(self, other: Self) -> (r: Self)
        requires
            other@ != 0,
            fits64(spec_div(self@, other@)),
        ensures
            r@ == spec_div(self@, other@),
    {
        let wa = FullFixed::from_fixed(self);
        let wb = FullFixed::from_fixed(other);
        proof {
            let a = self@;
            let b = other@;
            lemma_mul_nonzero(10, b);
            lemma_mag_mul_bound(10, a, 10, 0x8000000000000000);
            lemma_mag_mul_bound(wa@, FULL_FIXED_DECIMAL as int, 92233720368547758080, 1000000);
            assert(wa@ * (FULL_FIXED_DECIMAL as int) == 10 * (a * 1000000)) by (nonlinear_arith)
                requires
                    wa@ == 10 * a,
            ;
            lemma_tdiv_cancel(10, a * 1000000, b);
            lemma_tdiv_compose(a * 1000000, b, 10);
            assert(a * 1000000 == 10 * (a * 100000)) by (nonlinear_arith);
            assert(b * 10 == 10 * b);
            lemma_tdiv_cancel(10, a * 100000, b);
        }
        Fixed::from_full(wa.div(wb))
    }

    /// Addition that reports rather than requires: `Overflow` exactly when
    /// the sum leaves the representable range.
    pub fn checked_add(self, other: Self) -> (r: Result<Fixed, FixedError>)
        ensures
            fits64(self@ + other@) ==> r == Ok::<Fixed, FixedError>(Fixed((self@ + other@) as i64)),
            !fits64(self@ + other@) ==> r == Err::<Fixed, FixedError>(FixedError::Overflow),
    {
        match self.0.checked_add(other.0) {
            Some(s) => Ok(Fixed(s)),
            None => Err(FixedError::Overflow),
        }
    }

    /// Subtraction that reports rather than requires: `Overflow` exactly when
    /// the difference leaves the representable range.
    pub fn checked_sub(self, other: Self) -> (r: Result<Fixed, FixedError>)
        ensures
            fits64(self@ - other@) ==> r == Ok::<Fixed, FixedError>(Fixed((self@ - other@) as i64)),
            !fits64(self@ - other@) ==> r == Err::<Fixed, FixedError>(FixedError::Overflow),
    {
        match self.0.checked_sub(other.0) {
            Some(s) => Ok(Fixed(s)),
            None => Err(FixedError::Overflow),
        }
    }

    /// Multiplication that reports rather than requires: `Overflow` exactly
    /// when the narrowed product leaves the representable range; it never
    /// wraps to a small or wrong-signed value.
    pub fn checked_mul(self, other: Self) -> (r: Result<Fixed, FixedError>)
        ensures
            fits64(spec_mul(self@, other@)) ==> r == Ok::<Fixed, FixedError>(
                Fixed(spec_mul(self@, other@) as i64),
            ),
            !fits64(spec_mul(self@, other@)) ==> r == Err::<Fixed, FixedError>(FixedError::Overflow),
    {
        proof {
            lemma_mag_mul_bound(self@, other@, 0x8000000000000000, 0x8000000000000000);
            lemma_tdiv_le_self(self@ * other@, FIXED_DECIMAL as int);
        }
        let p = (self.0 as i128) * (other.0 as i128);
        let q = tdiv_i128(p, FIXED_DECIMAL as i128);
        if i64::MIN as i128 <= q && q <= i64::MAX as i128 {
            Ok(Fixed(q as i64))
        } else {
            Err(FixedError::Overflow)
        }
    }

    /// Division that reports rather than requires: `DivisionByZero` exactly
    /// when the divisor is zero, `Overflow` exactly when the quotient leaves
    /// the representable range.
    pub fn checked_div(self, other: Self) -> (r: Result<Fixed, FixedError>)
        ensures
            other@ == 0 ==> r == Err::<Fixed, FixedError>(FixedError::DivisionByZero),
            other@ != 0 && fits64(spec_div(self@, other@)) ==> r == Ok::<Fixed, FixedError>(
                Fixed(spec_div(self@, other@) as i64),
            ),
            other@ != 0 && !fits64(spec_div(self@, other@)) ==> r == Err::<Fixed, FixedError>(
                FixedError::Overflow,
            ),
    {
        if other.0 == 0 {
            return Err(FixedError::DivisionByZero);
        }
        proof {
            lemma_mag_mul_bound(self@, FIXED_DECIMAL as int, 0x8000000000000000, 100000);
            lemma_tdiv_le_self(self@ * (FIXED_DECIMAL as int), other@);
        }
        let p = (self.0 as i128) * (FIXED_DECIMAL as i128);
        let q = tdiv_i128(p, other.0 as i128);
        if i64::MIN as i128 <= q && q <= i64::MAX as i128 {
            Ok(Fixed(q as i64))
        } else {
            Err(FixedError::Overflow)
        }
    }

    /// Negation: exact for every value but the most negative one, which has
    /// no positive counterpart.
    pub fn neg(self) -> (r: Self)
        requires
            self@ != i64::MIN,
        ensures
            r@ == -self@,
    {
        Fixed(-self.0)
    }

    /// Absolute value of the stored integer; undefined for the most negative
    /// value, same edge as negation.
    pub fn abs(self) -> (r: Self)
        requires
            self@ != i64::MIN,
        ensures
            r@ == mag(self@),
    {
        if self.0 >= 0 {
            self
        } else {
            Fixed(-self.0)
        }
    }

    /// The sign of the value, as exactly plus or minus one; zero counts as
    /// positive.
    pub open spec fn signum_spec(self) -> Fixed {
        if self@ >= 0 {
            Fixed(FIXED_DECIMAL)
        } else {
            Fixed((-FIXED_DECIMAL) as i64)
        }
    }

    /// The representation of exactly plus or minus one, by the sign of the
    /// value; zero counts as positive. Callers may multiply by the result
    /// without a scale conversion.
    pub fn signum(self) -> (r: Self)
        ensures
            r == self.signum_spec(),
            self@ >= 0 ==> r@ == FIXED_DECIMAL as int,
            self@ < 0 ==> r@ == -(FIXED_DECIMAL as int),
    {
        if self.0 >= 0 {
            Fixed(FIXED_DECIMAL)
        } else {
            Fixed(-FIXED_DECIMAL)
        }
    }

    /// Whether the two values differ by at most `epsilon` in the stored
    /// units; the comparison itself never overflows.
    pub fn approximately(self, other: Self, epsilon: Self) -> (r: bool)
        ensures
            r == (mag(self@ - other@) <= epsilon@),
    {
        let d = (self.0 as i128) - (other.0 as i128);
        let m = if d < 0 {
            -d
        } else {
            d
        };
        m <= epsilon.0 as i128
    }

    /// Integer power by repeated exact fixed-point multiplication; the
    /// rounding of each step is the multiply protocol's. The sign of the
    /// exponent is ignored, only its magnitude counts.
    pub fn powi(self, exp: i32) -> (r: Self)
        requires
            powi_fits(self@, mag(exp as int) as nat),
        ensures
            r@ == spec_powi(self@, mag(exp as int) as nat),
    {
        let n: u64 = if exp >= 0 {
            exp as u64
        } else {
            (-(exp as i64)) as u64
        };
        let mut acc = Fixed(FIXED_DECIMAL);
        let mut i: u64 = 0;
        while i < n
            invariant
                i <= n,
                n as int == mag(exp as int),
                powi_fits(self@, n as nat),
                acc@ == spec_powi(self@, i as nat),
            decreases n - i,
        {
            proof {
                lemma_powi_fits_prefix(self@, (i + 1) as nat, n as nat);
            }
            acc = acc.mul(self);
            i = i + 1;
        }
        acc
    }

    /// Square root, rounded down to the stored grid: the unique `r` with
    /// `r * r <= value * FIXED_DECIMAL < (r + 1) * (r + 1)` on the stored
    /// integers. Deterministic on every platform.
    pub fn sqrt(self) -> (r: Self)
        requires
            self@ >= 0,
        ensures
            is_sqrt_of(r@, self@ * (FIXED_DECIMAL as int)),
            r@ == sqrt_val(self@ * (FIXED_DECIMAL as int)),
    {
        proof {
            lemma_mag_mul_bound(self@, FIXED_DECIMAL as int, 0x8000000000000000, 100000);
        }
        let n: u128 = (self.0 as u128) * (FIXED_DECIMAL as u128);
        let mut lo: u128 = 0;
        let mut hi: u128 = 1099511627776;
        proof {
            assert(n < 1099511627776 * 1099511627776) by (nonlinear_arith)
                requires
                    n <= 0x8000000000000000int * 100000,
            ;
        }
        while lo + 1 < hi
            invariant
                lo < hi,
                hi <= 1099511627776,
                lo * lo <= n,
                n < hi * hi,
            decreases hi - lo,
        {
            let mid = lo + (hi - lo) / 2;
            proof {
                assert(lo < mid < hi);
                assert(mid * mid <= 1099511627776 * 1099511627776) by (nonlinear_arith)
                    requires
                        0 <= mid <= 1099511627776,
                ;
            }
            if mid * mid <= n {
                lo = mid;
            } else {
                hi = mid;
            }
        }
        proof {
            assert(is_sqrt_of(lo as int, n as int));
            assert(is_sqrt_of(sqrt_val(n as int), n as int)) by {
                assert(exists|r: int| is_sqrt_of(r, n as int));
            }
            lemma_sqrt_unique(lo as int, sqrt_val(n as int), n as int);
        }
        Fixed(lo as i64)
    }

    /// Round to the nearest whole number, ties away from zero; the result is
    /// again a multiple of the scale.
    pub fn round(self) -> (r: Self)
        requires
            fits64(spec_round(self@)),
        ensures
            r@ == spec_round(self@),
    {
        proof {
            lemma_tdiv_bound(self@, FIXED_DECIMAL as int, 0x8000000000000000);
            lemma_tdiv_fundamental(self@, FIXED_DECIMAL as int);
        }
        let q128 = tdiv_i128(self.0 as i128, FIXED_DECIMAL as i128);
        let q = q128 as i64;
        proof {
            lemma_mag_mul_bound(q as int, FIXED_DECIMAL as int, 92233720368547, 100000);
            assert((FIXED_DECIMAL as int) * (q as int) == (q as int) * (FIXED_DECIMAL as int));
        }
        let rem = self.0 - q * FIXED_DECIMAL;
        if 2 * rem >= FIXED_DECIMAL {
            Fixed((q + 1) * FIXED_DECIMAL)
        } else if 2 * rem <= -FIXED_DECIMAL {
            Fixed((q - 1) * FIXED_DECIMAL)
        } else {
            Fixed(q * FIXED_DECIMAL)
        }
    }

    /// In-place addition: the binary operator followed by replacement.
    pub fn add_assign(&mut self, other: Self)
        requires
            fits64(old(self)@ + other@),
        ensures
            final(self)@ == old(self)@ + other@,
    {
        *self = (*self).add(other);
    }

    /// In-place subtraction: the binary operator followed by replacement.
    pub fn sub_assign(&mut self, other: Self)
        requires
            fits64(old(self)@ - other@),
        ensures
            final(self)@ == old(self)@ - other@,
    {
        *self = (*self).sub(other);
    }

    /// In-place multiplication: the binary operator followed by replacement.
    pub fn mul_assign(&mut self, other: Self)
        requires
            fits64(spec_mul(old(self)@, other@)),
        ensures
            final(self)@ == spec_mul(old(self)@, other@),
    {
        *self = (*self).mul(other);
    }

    /// In-place division: the binary operator followed by replacement.
    pub fn div_assign(&mut self, other: Self)
        requires
            other@ != 0,
            fits64(spec_div(old(self)@, other@)),
        ensures
            final(self)@ == spec_div(old(self)@, other@),
    {
        *self = (*self).div(other);
    }
}

impl crate::traits::FloatExt for Fixed {
    open spec fn one_spec() -> Fixed {
        Fixed(FIXED_DECIMAL)
    }

    open spec fn zero_spec() -> Fixed {
        Fixed(0)
    }

    open spec fn epsilon_spec() -> Fixed {
        Fixed(3)
    }

    fn one() -> (r: Fixed) {
        Fixed(FIXED_DECIMAL)
    }

    fn zero() -> (r: Fixed) {
        Fixed(0)
    }

    /// Three stored units: the smallest tolerance that absorbs the rounding
    /// of a short chain of operations.
    fn epsilon() -> (r: Fixed) {
        Fixed(3)
    }
}

impl crate::traits::Zero for Fixed {
    open spec fn zero_spec() -> Fixed {
        Fixed(0)
    }

    fn zero() -> (r: Fixed) {
        Fixed(0)
    }
}

impl crate::traits::Approximately for Fixed {
    open spec fn approx_spec(&self, other: Fixed, epsilon: Fixed) -> bool {
        mag(self@ - other@) <= epsilon@
    }

    fn approximately(&self, other: Fixed, epsilon: Fixed) -> (r: bool) {
        Fixed::approximately(*self, other, epsilon)
    }
}

impl crate::traits::FromLossy<i64> for Fixed {
    open spec fn from_lossy_spec(value: i64) -> Fixed {
        Fixed((value * (FIXED_DECIMAL as int)) as i64)
    }

    open spec fn from_lossy_req(value: i64) -> bool {
        fits64(value * (FIXED_DECIMAL as int))
    }

    fn from_lossy(value: i64) -> (r: Fixed) {
        Fixed::from_integer(value)
    }
}

impl crate::traits::FromLossy<i32> for Fixed {
    open spec fn from_lossy_spec(value: i32) -> Fixed {
        Fixed((value * (FIXED_DECIMAL as int)) as i64)
    }

    open spec fn from_lossy_req(value: i32) -> bool {
        true
    }

    fn from_lossy(value: i32) -> (r: Fixed) {
        proof {
            lemma_mag_mul_bound(value as int, FIXED_DECIMAL as int, 0x80000000, 100000);
        }
        Fixed::from_integer(value as i64)
    }
}

/// Every prefix of a fitting wide power chain fits as well.
proof fn lemma_wide_powi_fits_prefix(a: int, i: nat, e: nat)
    requires
        wide_powi_fits(a, e),
        i <= e,
    ensures
        wide_powi_fits(a, i),
    decreases e,
{
    if i < e {
        lemma_wide_powi_fits_prefix(a, i, (e - 1) as nat);
    }
}

/// Every prefix of a fitting power chain fits as well.
proof fn lemma_powi_fits_prefix(a: int, i: nat, e: nat)
    requires
        powi_fits(a, e),
        i <= e,
    ensures
        powi_fits(a, i),
    decreases e,
{
    if i < e {
        lemma_powi_fits_prefix(a, i, (e - 1) as nat);
    }
}

/// Adding the representation of zero returns any value unchanged.
pub proof fn lemma_additive_identity(a: Fixed, zero: Fixed, sum: Fixed)
    requires
        zero@ == 0,
        sum@ == a@ + zero@,
    ensures
        sum == a,
{
}

/// Adding a value to its negation gives exactly zero; the most negative
/// stored integer has no negation and is excluded.
pub proof fn lemma_additive_inverse(a: Fixed, negated: Fixed, sum: Fixed)
    requires
        a@ != i64::MIN,
        negated@ == -a@,
        sum@ == a@ + negated@,
    ensures
        sum@ == 0,
{
}

/// Multiplying the representations of two integers is exact: no rounding
/// drift for inputs on the integer grid.
pub proof fn lemma_integer_mul_exact(m: int, n: int)
    requires
        fits64(m * (FIXED_DECIMAL as int)),
        fits64(n * (FIXED_DECIMAL as int)),
        fits64(m * n * (FIXED_DECIMAL as int)),
    ensures
        spec_mul(m * (FIXED_DECIMAL as int), n * (FIXED_DECIMAL as int)) == m * n * (
        FIXED_DECIMAL as int),
{
    let s = FIXED_DECIMAL as int;
    assert((m * s) * (n * s) == (m * n * s) * s) by (nonlinear_arith);
    lemma_tdiv_exact(m * n * s, s);
}

/// Dividing by a positive value of at most one and multiplying back loses at
/// most one unit in the last place: the result is `a` or `a` less one step.
pub proof fn lemma_div_mul_within_ulp(a: int, b: int)
    requires
        0 < a,
        0 < b <= FIXED_DECIMAL as int,
    ensures
        a - 1 <= spec_mul(spec_div(a, b), b) <= a,
{
    let s = FIXED_DECIMAL as int;
    let q = spec_div(a, b);
    lemma_mul_strictly_positive(a, s);
    lemma_tdiv_mag(a * s, b);
    assert(q == (a * s) / b && q >= 0);
    lemma_fundamental_div_mod(a * s, b);
    lemma_mod_division_less_than_divisor(a * s, b);
    let rr: int = (a * s) % b;
    assert(a * s == b * q + rr);
    assert(q * b == a * s - rr) by {
        lemma_mul_is_commutative(q, b);
    }
    lemma_mul_nonnegative(q, b);
    lemma_tdiv_mag(q * b, s);
    assert(spec_mul(q, b) == (q * b) / s);
    if rr == 0 {
        assert((a * s) / s == a) by {
            lemma_div_by_multiple(a, s);
        }
    } else {
        assert(q * b == s * (a - 1) + (s - rr)) by {
            lemma_mul_is_distributive_sub(s, a, 1);
            lemma_mul_basics(s);
            lemma_mul_is_commutative(a, s);
        }
        assert((s * (a - 1) + (s - rr)) / s == a - 1) by {
            lemma_div_multiples_vanish_fancy(a - 1, s - rr, s);
        }
    }
}

/// The product of the two largest representable values exceeds the stored
/// range, so checked multiplication reports overflow rather than wrapping.
pub proof fn lemma_overflow_detected(a: Fixed, b: Fixed)
    requires
        a@ == i64::MAX,
        b@ == i64::MAX,
    ensures
        !fits64(spec_mul(a@, b@)),
{
    let m = i64::MAX as int;
    let s = FIXED_DECIMAL as int;
    lemma_tdiv_mag(m * m, s);
    assert(m * m >= s * (m + 1)) by (nonlinear_arith)
        requires
            m == 0x7fffffffffffffffint,
            s == 100000int,
    ;
    assert((s * (m + 1)) / s == m + 1) by {
        lemma_div_multiples_vanish(m + 1, s);
    }
    lemma_div_is_ordered(s * (m + 1), m * m, s);
    lemma_mul_strictly_positive(m, m);
}

} // verus!

