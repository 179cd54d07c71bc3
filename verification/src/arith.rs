//! Truncating integer division and its algebra.
//!
//! Every precision-reducing step of the fixed-point arithmetic removes a
//! scale factor with one integer division that rounds toward zero, the way
//! machine division does. Verus's spec-level `/` on `int` is Euclidean, so
//! the truncating form is defined here once, together with the lemmas that
//! the arithmetic proofs lean on.

use vstd::arithmetic::div_mod::*;
use vstd::arithmetic::mul::*;
use vstd::prelude::*;

verus! {

/// The magnitude of an integer.
pub open spec fn mag(x: int) -> int {
    if x >= 0 {
        x
    } else {
        -x
    }
}

/// Truncating division: the rational `x / d` rounded toward zero.
///
/// The shape mirrors the specification vstd gives to the standard library's
/// signed `checked_div`, so results of that call connect to `tdiv` directly.
pub open spec fn tdiv(x: int, d: int) -> int {
    if x == 0 {
        0
    } else if x > 0 && d > 0 {
        x / d
    } else if x < 0 && d < 0 {
        (x * -1) / (d * -1)
    } else if x < 0 {
        ((x * -1) / d) * -1
    } else {
        (x / (d * -1)) * -1
    }
}

/// Products respect magnitudes: `|x * y| == |x| * |y|`.
pub proof fn lemma_mag_mul(x: int, y: int)
    ensures
        mag(x * y) == mag(x) * mag(y),
{
    lemma_mul_is_commutative(x, y);
    if x >= 0 && y >= 0 {
        lemma_mul_nonnegative(x, y);
    } else if x < 0 && y < 0 {
        assert(x * y == (-x) * (-y)) by {
            lemma_mul_unary_negation(x, -y);
            lemma_mul_unary_negation(x, y);
        }
        lemma_mul_strictly_positive(-x, -y);
    } else if x < 0 {
        assert(-(x * y) == (-x) * y) by {
            lemma_mul_unary_negation(x, y);
        }
        lemma_mul_nonnegative(-x, y);
    } else {
        assert(-(x * y) == x * (-y)) by {
            lemma_mul_unary_negation(y, x);
            lemma_mul_is_commutative(x, -y);
        }
        lemma_mul_nonnegative(x, -y);
    }
}

/// Magnitude bounds on both factors bound the product.
pub proof fn lemma_mag_mul_bound(x: int, y: int, mx: int, my: int)
    requires
        mag(x) <= mx,
        mag(y) <= my,
    ensures
        mag(x * y) <= mx * my,
{
    lemma_mag_mul(x, y);
    lemma_mul_inequality(mag(x), mx, mag(y));
    lemma_mul_is_commutative(mx, mag(y));
    lemma_mul_inequality(mag(y), my, mx);
    lemma_mul_is_commutative(my, mx);
}

/// The magnitude of a truncating quotient is the floor quotient of the
/// magnitudes, and a nonnegative dividend with positive divisor gives a
/// nonnegative quotient.
pub proof fn lemma_tdiv_mag(x: int, d: int)
    requires
        d != 0,
    ensures
        mag(tdiv(x, d)) == mag(x) / mag(d),
        x >= 0 && d > 0 ==> tdiv(x, d) == x / d >= 0,
        ((x > 0) == (d > 0)) ==> tdiv(x, d) >= 0,
        ((x > 0) != (d > 0)) ==> tdiv(x, d) <= 0,
{
    if x == 0 {
        assert(0int / mag(d) == 0) by {
            lemma_small_div_converse(0, mag(d));
        }
    } else if x > 0 && d > 0 {
        lemma_div_pos_is_pos(x, d);
    } else if x < 0 && d < 0 {
        lemma_div_pos_is_pos(x * -1, d * -1);
    } else if x < 0 {
        lemma_div_pos_is_pos(x * -1, d);
    } else {
        lemma_div_pos_is_pos(x, d * -1);
    }
}

/// Truncating division never grows the magnitude.
pub proof fn lemma_tdiv_le_self(x: int, d: int)
    requires
        d != 0,
    ensures
        mag(tdiv(x, d)) <= mag(x),
{
    lemma_tdiv_mag(x, d);
    lemma_div_is_ordered_by_denominator(mag(x), 1, mag(d));
    assert(mag(x) / 1 == mag(x)) by {
        lemma_div_multiples_vanish(mag(x), 1);
    }
}

/// Bounding the dividend bounds the truncating quotient.
pub proof fn lemma_tdiv_bound(x: int, d: int, m: int)
    requires
        d > 0,
        mag(x) <= m,
    ensures
        mag(tdiv(x, d)) <= m / d,
{
    lemma_tdiv_mag(x, d);
    lemma_div_is_ordered(mag(x), m, d);
}

/// A bound on the truncating quotient bounds the dividend in turn.
pub proof fn lemma_tdiv_inverse_bound(x: int, d: int, b: int)
    requires
        d > 0,
        0 <= b,
        mag(tdiv(x, d)) <= b,
    ensures
        mag(x) <= b * d + d - 1,
{
    lemma_tdiv_mag(x, d);
    lemma_fundamental_div_mod(mag(x), d);
    lemma_mod_division_less_than_divisor(mag(x), d);
    let q: int = mag(x) / d;
    assert(mag(x) == d * q + mag(x) % d);
    assert(d * q <= d * b) by {
        lemma_mul_inequality(q, b, d);
        lemma_mul_is_commutative(q, d);
        lemma_mul_is_commutative(b, d);
    }
    assert(b * d == d * b) by {
        lemma_mul_is_commutative(b, d);
    }
}

/// Two truncating quotients whose operands agree in magnitude, and whose
/// operand signs force the same result sign, are equal.
proof fn lemma_tdiv_signs_agree(x1: int, d1: int, x2: int, d2: int)
    requires
        d1 != 0,
        d2 != 0,
        mag(tdiv(x1, d1)) == mag(tdiv(x2, d2)),
        ((x1 > 0) == (d1 > 0)) == ((x2 > 0) == (d2 > 0)),
    ensures
        tdiv(x1, d1) == tdiv(x2, d2),
{
    lemma_tdiv_mag(x1, d1);
    lemma_tdiv_mag(x2, d2);
    if tdiv(x1, d1) == 0 {
        assert(mag(tdiv(x2, d2)) == 0);
    } else {
        assert(x1 != 0);
        assert(x2 != 0);
    }
}

/// A common positive factor of dividend and divisor cancels.
pub proof fn lemma_tdiv_cancel(k: int, x: int, d: int)
    requires
        k > 0,
        d != 0,
    ensures
        tdiv(k * x, k * d) == tdiv(x, d),
{
    lemma_mul_nonzero(k, d);
    assert(mag(k * x) == k * mag(x)) by {
        lemma_mag_mul(k, x);
    }
    assert(mag(k * d) == k * mag(d)) by {
        lemma_mag_mul(k, d);
    }
    lemma_tdiv_mag(k * x, k * d);
    lemma_tdiv_mag(x, d);
    if x != 0 {
        lemma_mul_nonzero(k, x);
        assert(mag(x) / mag(d) == (k * mag(x)) / (k * mag(d))) by {
            lemma_div_multiples_vanish_quotient(k, mag(x), mag(d));
        }
        assert((k * x > 0) == (x > 0)) by {
            lemma_mul_strictly_positive(k, x);
            lemma_mul_strictly_positive(k, -x);
            lemma_mul_unary_negation(k, x);
        }
        assert((k * d > 0) == (d > 0)) by {
            lemma_mul_strictly_positive(k, d);
            lemma_mul_strictly_positive(k, -d);
            lemma_mul_unary_negation(k, d);
        }
        lemma_tdiv_signs_agree(k * x, k * d, x, d);
    } else {
        assert(k * x == 0) by {
            lemma_mul_basics(k);
        }
    }
}

/// Dividing twice, the second time by a positive scale, is dividing once by
/// the product of the divisors.
pub proof fn lemma_tdiv_compose(x: int, m: int, n: int)
    requires
        m != 0,
        n > 0,
    ensures
        tdiv(tdiv(x, m), n) == tdiv(x, m * n),
{
    lemma_mul_nonzero(m, n);
    let q: int = tdiv(x, m);
    lemma_tdiv_mag(x, m);
    lemma_tdiv_mag(q, n);
    lemma_tdiv_mag(x, m * n);
    assert(mag(m * n) == mag(m) * n) by {
        lemma_mag_mul(m, n);
    }
    assert(mag(x) / mag(m) / n == mag(x) / (mag(m) * n)) by {
        lemma_div_denominator(mag(x), mag(m), n);
    }
    assert(mag(tdiv(q, n)) == mag(tdiv(x, m * n)));
    if tdiv(q, n) == 0 {
        assert(mag(tdiv(x, m * n)) == 0);
    } else {
        assert(q != 0);
        assert(x != 0);
        // The sign of q is the sign of x against m; dividing by positive n
        // preserves it, and m * n has the sign of m.
        assert((m * n > 0) == (m > 0)) by {
            lemma_mul_strictly_positive(n, m);
            lemma_mul_strictly_positive(n, -m);
            lemma_mul_unary_negation(m, n);
            lemma_mul_is_commutative(m, n);
            lemma_mul_is_commutative(-m, n);
        }
        lemma_tdiv_signs_agree(q, n, x, m * n);
    }
}

/// An exact multiple divides back out with no loss.
pub proof fn lemma_tdiv_exact(x: int, d: int)
    requires
        d != 0,
    ensures
        tdiv(x * d, d) == x,
{
    if x == 0 {
        assert(x * d == 0) by {
            lemma_mul_basics(d);
        }
    } else {
        lemma_mul_nonzero(x, d);
        lemma_tdiv_mag(x * d, d);
        assert(mag(x * d) == mag(x) * mag(d)) by {
            lemma_mag_mul(x, d);
        }
        assert(mag(x) * mag(d) / mag(d) == mag(x)) by {
            lemma_div_by_multiple(mag(x), mag(d));
        }
        assert(mag(tdiv(x * d, d)) == mag(x));
        assert((x * d > 0) == ((x > 0) == (d > 0))) by {
            lemma_mul_strictly_positive(x, d);
            lemma_mul_strictly_positive(-x, -d);
            lemma_mul_strictly_positive(-x, d);
            lemma_mul_strictly_positive(x, -d);
            lemma_mul_unary_negation(x, d);
            lemma_mul_unary_negation(-x, d);
            lemma_mul_unary_negation(x, -d);
        }
        if tdiv(x * d, d) >= 0 {
            assert(tdiv(x * d, d) == x || tdiv(x * d, d) == -x);
        }
        lemma_tdiv_mag(x * d, d);
        assert((tdiv(x * d, d) >= 0) == ((x * d > 0) == (d > 0)));
        assert(tdiv(x * d, d) == x);
    }
}

/// Truncating division rounds toward zero: the remainder `x - d * tdiv(x, d)`
/// has the sign of `x` and magnitude below `|d|`.
pub proof fn lemma_tdiv_fundamental(x: int, d: int)
    requires
        d != 0,
    ensures
        mag(x - d * tdiv(x, d)) < mag(d),
        x >= 0 ==> x - d * tdiv(x, d) >= 0,
        x <= 0 ==> x - d * tdiv(x, d) <= 0,
{
    let q: int = tdiv(x, d);
    lemma_tdiv_mag(x, d);
    let mq: int = mag(x) / mag(d);
    lemma_fundamental_div_mod(mag(x), mag(d));
    lemma_mod_division_less_than_divisor(mag(x), mag(d));
    let r: int = mag(x) % mag(d);
    assert(mag(x) == mag(d) * mq + r);
    // d * q == sign(x) * (|d| * mq), so x - d * q == sign(x) * r.
    assert(mag(d * q) == mag(d) * mq) by {
        lemma_mag_mul(d, q);
    }
    if x == 0 {
        assert(q == 0);
        assert(d * 0 == 0) by {
            lemma_mul_basics(d);
        }
    } else if x > 0 {
        assert(d * q >= 0) by {
            if q != 0 {
                lemma_mul_strictly_positive(d, q);
                lemma_mul_strictly_positive(-d, -q);
                lemma_mul_unary_negation(d, -q);
                lemma_mul_unary_negation(d, q);
            } else {
                lemma_mul_basics(d);
            }
        }
        assert(d * q == mag(d) * mq);
        assert(x - d * q == r);
    } else {
        assert(d * q <= 0) by {
            if q != 0 {
                lemma_mul_strictly_positive(d, -q);
                lemma_mul_strictly_positive(-d, q);
                lemma_mul_unary_negation(d, q);
                lemma_mul_unary_negation(-d, -q);
                lemma_mul_unary_negation(d, -q);
            } else {
                lemma_mul_basics(d);
            }
        }
        assert(d * q == -(mag(d) * mq));
        assert(x - d * q == -r);
    }
}

} // verus!
