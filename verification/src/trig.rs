//! Trigonometric operations on the fixed-point scalar.
//!
//! Unlike the four basic operators these are approximations, but they are
//! deterministic ones: the angle is reduced into a quarter period and a
//! fixed odd polynomial is evaluated in 128-bit integer arithmetic at an
//! internal scale of 1e11, then rounded once to the stored grid and clamped
//! to the unit range. No floating point is involved, so results are
//! bit-identical across platforms. The arc cosine inverts the cosine
//! approximation by bisection over the stored half period.

use crate::arith::lemma_mag_mul_bound;
use crate::arith::lemma_tdiv_bound;
use crate::arith::lemma_tdiv_fundamental;
use crate::arith::lemma_tdiv_le_self;
use crate::arith::lemma_tdiv_mag;
use crate::arith::mag;
use crate::arith::tdiv;
use crate::fixed::fits64;
use crate::fixed::spec_div;
use crate::fixed::tdiv_i128;
use crate::fixed::Fixed;
use crate::fixed::FIXED_DECIMAL;
use vstd::prelude::*;

verus! {

/// The internal scale of the polynomial evaluation.
pub const TRIG_SCALE: i128 = 100000000000;

/// The factor from the stored scale up to the internal scale.
pub const TRIG_PROMOTE: i128 = 1000000;

/// A full turn at the internal scale: `2 * pi * TRIG_SCALE`, rounded.
pub const TWO_PI_E11: i128 = 628318530718;

/// Half a turn at the internal scale: `pi * TRIG_SCALE`, rounded.
pub const PI_E11: i128 = 314159265359;

/// A quarter turn at the internal scale: `pi / 2 * TRIG_SCALE`, rounded.
pub const HALF_PI_E11: i128 = 157079632679;

/// Half a turn on the stored grid, one past `pi * FIXED_DECIMAL`: the upper
/// end of the bisection range of [`Fixed::acos`].
pub const HALF_TURN_LIMIT: u32 = 314160;

/// The sine approximation at the internal scale: reduce the angle into a
/// quarter period, evaluate the odd polynomial of degree nine, round to the
/// stored grid, clamp to the unit range.
pub open spec fn sin_core_approx(angle: int) -> int {
    let w = tdiv(angle, TWO_PI_E11 as int);
    let rem0 = angle - (TWO_PI_E11 as int) * w;
    let rem1 = if rem0 > PI_E11 as int {
        rem0 - TWO_PI_E11 as int
    } else if rem0 < -(PI_E11 as int) {
        rem0 + TWO_PI_E11 as int
    } else {
        rem0
    };
    let v = if rem1 > HALF_PI_E11 as int {
        PI_E11 as int - rem1
    } else if rem1 < -(HALF_PI_E11 as int) {
        -(PI_E11 as int) - rem1
    } else {
        rem1
    };
    let z = tdiv(v * v, TRIG_SCALE as int);
    let t4 = TRIG_SCALE as int - tdiv(z, 72);
    let t3 = TRIG_SCALE as int - tdiv(tdiv(z * t4, TRIG_SCALE as int), 42);
    let t2 = TRIG_SCALE as int - tdiv(tdiv(z * t3, TRIG_SCALE as int), 20);
    let t1 = TRIG_SCALE as int - tdiv(tdiv(z * t2, TRIG_SCALE as int), 6);
    let s = tdiv(v * t1, TRIG_SCALE as int);
    let q = tdiv(s, TRIG_PROMOTE as int);
    let rem2 = s - (TRIG_PROMOTE as int) * q;
    let rounded = if 2 * rem2 >= TRIG_PROMOTE as int {
        q + 1
    } else if 2 * rem2 <= -(TRIG_PROMOTE as int) {
        q - 1
    } else {
        q
    };
    if rounded > FIXED_DECIMAL as int {
        FIXED_DECIMAL as int
    } else if rounded < -(FIXED_DECIMAL as int) {
        -(FIXED_DECIMAL as int)
    } else {
        rounded
    }
}

/// The stored integer of the sine of a stored angle in radians.
pub open spec fn spec_sin(a: int) -> int {
    sin_core_approx(a * (TRIG_PROMOTE as int))
}

/// The stored integer of the cosine of a stored angle in radians: the sine
/// a quarter turn further.
pub open spec fn spec_cos(a: int) -> int {
    sin_core_approx(a * (TRIG_PROMOTE as int) + HALF_PI_E11 as int)
}

/// Evaluate the sine approximation at the internal scale.
pub(crate) fn sin_core(angle: i128) -> (r: i64)
    requires
        mag(angle as int) <= 10000000000000000000000000,
    ensures
        r as int == sin_core_approx(angle as int),
        -(FIXED_DECIMAL as int) <= r as int <= FIXED_DECIMAL as int,
{
    let ghost ga: int = angle as int;
    proof {
        lemma_tdiv_le_self(ga, TWO_PI_E11 as int);
        lemma_tdiv_fundamental(ga, TWO_PI_E11 as int);
    }
    let w = tdiv_i128(angle, TWO_PI_E11);
    let rem0 = angle - TWO_PI_E11 * w;
    let rem1 = if rem0 > PI_E11 {
        rem0 - TWO_PI_E11
    } else if rem0 < -PI_E11 {
        rem0 + TWO_PI_E11
    } else {
        rem0
    };
    let v = if rem1 > HALF_PI_E11 {
        PI_E11 - rem1
    } else if rem1 < -HALF_PI_E11 {
        -PI_E11 - rem1
    } else {
        rem1
    };
    proof {
        assert(mag(v as int) <= HALF_PI_E11 as int);
        lemma_mag_mul_bound(v as int, v as int, HALF_PI_E11 as int, HALF_PI_E11 as int);
        assert((v as int) * (v as int) >= 0) by (nonlinear_arith);
        lemma_tdiv_mag(v as int * v as int, TRIG_SCALE as int);
        lemma_tdiv_bound(v as int * v as int, TRIG_SCALE as int, 24674011002723826157041);
    }
    let z = tdiv_i128(v * v, TRIG_SCALE);
    proof {
        assert(0 <= z as int <= 246740110028);
        lemma_tdiv_mag(z as int, 72);
        lemma_tdiv_bound(z as int, 72, 246740110028);
    }
    let u4 = tdiv_i128(z, 72);
    let t4 = TRIG_SCALE - u4;
    proof {
        assert(0 < t4 as int <= TRIG_SCALE as int);
        lemma_mag_mul_bound(z as int, t4 as int, 246740110028, TRIG_SCALE as int);
        assert((z as int) * (t4 as int) >= 0) by (nonlinear_arith)
            requires
                z as int >= 0 && t4 as int >= 0,
        ;
        lemma_tdiv_mag(z as int * t4 as int, TRIG_SCALE as int);
        lemma_tdiv_bound(z as int * t4 as int, TRIG_SCALE as int, 24674011002800000000000);
    }
    let p3 = tdiv_i128(z * t4, TRIG_SCALE);
    proof {
        assert(0 <= p3 as int <= 246740110028);
        lemma_tdiv_mag(p3 as int, 42);
        lemma_tdiv_bound(p3 as int, 42, 246740110028);
    }
    let u3 = tdiv_i128(p3, 42);
    let t3 = TRIG_SCALE - u3;
    proof {
        assert(0 < t3 as int <= TRIG_SCALE as int);
        lemma_mag_mul_bound(z as int, t3 as int, 246740110028, TRIG_SCALE as int);
        assert((z as int) * (t3 as int) >= 0) by (nonlinear_arith)
            requires
                z as int >= 0 && t3 as int >= 0,
        ;
        lemma_tdiv_mag(z as int * t3 as int, TRIG_SCALE as int);
        lemma_tdiv_bound(z as int * t3 as int, TRIG_SCALE as int, 24674011002800000000000);
    }
    let p2 = tdiv_i128(z * t3, TRIG_SCALE);
    proof {
        assert(0 <= p2 as int <= 246740110028);
        lemma_tdiv_mag(p2 as int, 20);
        lemma_tdiv_bound(p2 as int, 20, 246740110028);
    }
    let u2 = tdiv_i128(p2, 20);
    let t2 = TRIG_SCALE - u2;
    proof {
        assert(0 < t2 as int <= TRIG_SCALE as int);
        lemma_mag_mul_bound(z as int, t2 as int, 246740110028, TRIG_SCALE as int);
        assert((z as int) * (t2 as int) >= 0) by (nonlinear_arith)
            requires
                z as int >= 0 && t2 as int >= 0,
        ;
        lemma_tdiv_mag(z as int * t2 as int, TRIG_SCALE as int);
        lemma_tdiv_bound(z as int * t2 as int, TRIG_SCALE as int, 24674011002800000000000);
    }
    let p1 = tdiv_i128(z * t2, TRIG_SCALE);
    proof {
        assert(0 <= p1 as int <= 246740110028);
        lemma_tdiv_mag(p1 as int, 6);
        lemma_tdiv_bound(p1 as int, 6, 246740110028);
    }
    let u1 = tdiv_i128(p1, 6);
    let t1 = TRIG_SCALE - u1;
    proof {
        assert(0 < t1 as int <= TRIG_SCALE as int);
        lemma_mag_mul_bound(v as int, t1 as int, HALF_PI_E11 as int, TRIG_SCALE as int);
        lemma_tdiv_bound(v as int * t1 as int, TRIG_SCALE as int, 15707963267900000000000);
        lemma_tdiv_le_self(v as int * t1 as int, TRIG_SCALE as int);
    }
    let s = tdiv_i128(v * t1, TRIG_SCALE);
    proof {
        assert(mag(s as int) <= 157079632679);
        lemma_tdiv_bound(s as int, TRIG_PROMOTE as int, 157079632679);
        lemma_tdiv_fundamental(s as int, TRIG_PROMOTE as int);
    }
    let q = tdiv_i128(s, TRIG_PROMOTE);
    let rem2 = s - TRIG_PROMOTE * q;
    let rounded = if 2 * rem2 >= TRIG_PROMOTE {
        q + 1
    } else if 2 * rem2 <= -TRIG_PROMOTE {
        q - 1
    } else {
        q
    };
    let clamped: i128 = if rounded > FIXED_DECIMAL as i128 {
        FIXED_DECIMAL as i128
    } else if rounded < -(FIXED_DECIMAL as i128) {
        -(FIXED_DECIMAL as i128)
    } else {
        rounded
    };
    clamped as i64
}

impl Fixed {
    /// Sine of an angle in radians: the deterministic fixed-point
    /// approximation, always within the unit range.
    pub fn sin(self) -> (r: Self)
        ensures
            r@ == spec_sin(self@),
            -(FIXED_DECIMAL as int) <= r@ <= FIXED_DECIMAL as int,
    {
        proof {
            lemma_mag_mul_bound(self@, TRIG_PROMOTE as int, 0x8000000000000000, TRIG_PROMOTE as int);
        }
        let wide = (self.0 as i128) * TRIG_PROMOTE;
        Fixed(sin_core(wide))
    }

    /// Cosine of an angle in radians: the sine a quarter turn further,
    /// always within the unit range.
    pub fn cos(self) -> (r: Self)
        ensures
            r@ == spec_cos(self@),
            -(FIXED_DECIMAL as int) <= r@ <= FIXED_DECIMAL as int,
    {
        proof {
            lemma_mag_mul_bound(self@, TRIG_PROMOTE as int, 0x8000000000000000, TRIG_PROMOTE as int);
        }
        let wide = (self.0 as i128) * TRIG_PROMOTE + HALF_PI_E11;
        Fixed(sin_core(wide))
    }

    /// Tangent of an angle in radians: the fixed-point quotient of the sine
    /// and cosine approximations. The cosine approximation must be nonzero
    /// and the quotient representable.
    pub fn tan(self) -> (r: Self)
        requires
            spec_cos(self@) != 0,
            fits64(spec_div(spec_sin(self@), spec_cos(self@))),
        ensures
            r@ == spec_div(spec_sin(self@), spec_cos(self@)),
    {
        let s = self.sin();
        let c = self.cos();
        s.div(c)
    }

    /// Arc cosine by bisection: exactly zero at one and half a turn at minus
    /// one, and in between the angle in the stored half turn whose cosine
    /// approximation brackets the argument. Arguments beyond the unit range
    /// are treated as the nearer end. Near the ends the flatness of the
    /// cosine makes the answer coarse; that is inherent in inverting a
    /// quantized cosine.
    pub fn acos(self) -> (r: Self)
        ensures
            r@ == spec_acos(self@),
            0 <= r@ <= HALF_TURN_LIMIT as int,
    {
        if self.0 >= FIXED_DECIMAL {
            Fixed(0)
        } else if self.0 <= -FIXED_DECIMAL {
            Fixed(314159)
        } else {
            let t = acos_search(self.0, 0, HALF_TURN_LIMIT);
            Fixed(t as i64)
        }
    }
}

/// The bisection underlying [`Fixed::acos`], over stored angles `lo..hi`.
pub open spec fn acos_bisect(x: int, lo: int, hi: int) -> int
    decreases hi - lo,
{
    if hi - lo <= 1 {
        lo
    } else {
        let mid = lo + (hi - lo) / 2;
        if spec_cos(mid) >= x {
            acos_bisect(x, mid, hi)
        } else {
            acos_bisect(x, lo, mid)
        }
    }
}

/// The stored integer of the arc cosine of a stored value: pinned at the
/// ends of the unit range, bisection in between.
pub open spec fn spec_acos(x: int) -> int {
    if x >= FIXED_DECIMAL as int {
        0
    } else if x <= -(FIXED_DECIMAL as int) {
        314159
    } else {
        acos_bisect(x, 0, HALF_TURN_LIMIT as int)
    }
}

fn acos_search(x: i64, lo: u32, hi: u32) -> (r: u32)
    requires
        lo < hi <= HALF_TURN_LIMIT,
    ensures
        r as int == acos_bisect(x as int, lo as int, hi as int),
        lo <= r < hi,
    decreases hi - lo,
{
    if hi - lo <= 1 {
        lo
    } else {
        let mid = lo + (hi - lo) / 2;
        let c = Fixed(mid as i64).cos();
        if c.0 >= x {
            acos_search(x, mid, hi)
        } else {
            acos_search(x, lo, mid)
        }
    }
}

} // verus!
