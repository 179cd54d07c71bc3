//! Tests of the fixed-point scalar: conversions, the four operators, the
//! checked operators, and the derived operations.

use integrator::fixed::Fixed;
use integrator::fixed::FixedError;
use integrator::fixed::FullFixed;
use integrator::fixed::FIXED_DECIMAL;
use integrator::fixed::FULL_FIXED_DECIMAL;
use integrator::traits::FromLossy;
use integrator::traits::Numeric;

/// The fixed-point representation of a float: round half away from zero.
fn fx(value: f64) -> Fixed {
    Fixed((value * FIXED_DECIMAL as f64).round() as i64)
}

/// The float a fixed-point value represents.
fn to_f64(value: Fixed) -> f64 {
    value.0 as f64 / FIXED_DECIMAL as f64
}

#[test]
fn from_float() {
    let float_val = 132.1139;
    let fixed_val = fx(float_val);
    let expected = (float_val * FIXED_DECIMAL as f64).round() as i64;

    assert_eq!(expected, fixed_val.0)
}

#[test]
fn fixed_addition() {
    let a = fx(14.0);
    let b = fx(16.0);
    let expected = fx(14.0 + 16.0);

    assert_eq!(expected, a.add(b))
}

#[test]
fn fixed_subtraction() {
    let a = fx(10.0);
    let b = fx(20.0);
    let expected = fx(10.0 - 20.0);

    assert_eq!(expected, a.sub(b))
}

#[test]
fn multiplication() {
    let a = fx(1.5);
    let b = fx(30.0);
    let expected = fx(1.5 * 30.0);

    assert_eq!(expected, a.mul(b))
}

#[test]
fn division() {
    let a = fx(333.255);
    let b = fx(-9.0);
    let expected = fx(333.255 / -9.0);

    assert_eq!(expected, a.div(b))
}

#[test]
fn integer_round_trip() {
    for n in [0i64, 1, -1, 42, -37, 92233720, -92233720] {
        let f = Fixed::from_integer(n);
        assert_eq!(f.0, n * FIXED_DECIMAL);
        assert_eq!(to_f64(f), n as f64);
    }
}

#[test]
fn exact_integer_products() {
    assert_eq!(fx(2.0).mul(fx(3.0)), fx(6.0));
    assert_eq!(
        Fixed::from_integer(123).mul(Fixed::from_integer(-45)),
        Fixed::from_integer(123 * -45)
    );
}

#[test]
fn additive_identity_and_inverse() {
    let a = fx(123.456);
    assert_eq!(a.add(Fixed::from_integer(0)), a);
    assert_eq!(a.add(a.neg()), Fixed::from_integer(0));
}

#[test]
fn division_multiplication_round_trip() {
    // Dividing by a value of at most one and multiplying back stays within
    // one unit in the last place.
    let a = fx(0.37);
    let b = fx(0.9);
    let back = a.div(b).mul(b);
    assert!(a.0 - 1 <= back.0 && back.0 <= a.0);
}

#[test]
fn overflow_detected() {
    let top = Fixed(i64::MAX);
    assert_eq!(top.checked_mul(top), Err(FixedError::Overflow));
    assert_eq!(top.checked_add(top), Err(FixedError::Overflow));
    assert_eq!(Fixed(i64::MIN).checked_sub(Fixed(1)), Err(FixedError::Overflow));
}

#[test]
fn division_by_zero_reported() {
    let five = Fixed::from_integer(5);
    let zero = Fixed::from_integer(0);
    assert_eq!(five.checked_div(zero), Err(FixedError::DivisionByZero));
}

#[test]
fn checked_operations_agree_with_plain() {
    let a = fx(2.5);
    let b = fx(-0.75);
    assert_eq!(a.checked_add(b), Ok(a.add(b)));
    assert_eq!(a.checked_sub(b), Ok(a.sub(b)));
    assert_eq!(a.checked_mul(b), Ok(a.mul(b)));
    assert_eq!(a.checked_div(b), Ok(a.div(b)));
}

#[test]
fn square_roots() {
    assert_eq!(fx(25.0).sqrt(), fx(5.0));
    assert_eq!(fx(1.0).sqrt(), fx(1.0));
    assert_eq!(fx(0.0).sqrt(), fx(0.0));
    // The fixed square root rounds down on the stored grid.
    assert_eq!(fx(2.0).sqrt().0, 141421);
}

#[test]
fn rounding_ties_away_from_zero() {
    assert_eq!(fx(2.5).round(), fx(3.0));
    assert_eq!(fx(-2.5).round(), fx(-3.0));
    assert_eq!(fx(2.4).round(), fx(2.0));
    assert_eq!(fx(-2.4).round(), fx(-2.0));
    assert_eq!(fx(7.0).round(), fx(7.0));
}

#[test]
fn integer_powers() {
    assert_eq!(fx(2.0).powi(10), fx(1024.0));
    assert_eq!(fx(1.5).powi(2), fx(2.25));
    assert_eq!(fx(3.0).powi(0), fx(1.0));
    // The sign of the exponent is ignored, only its magnitude counts.
    assert_eq!(fx(2.0).powi(-3), fx(8.0));
}

#[test]
fn signum_and_abs() {
    assert_eq!(fx(-3.0).signum(), fx(-1.0));
    assert_eq!(fx(3.0).signum(), fx(1.0));
    assert_eq!(fx(0.0).signum(), fx(1.0));
    assert_eq!(fx(-3.5).abs(), fx(3.5));
    assert_eq!(fx(3.5).abs(), fx(3.5));
}

#[test]
fn assignment_forms() {
    let mut a = fx(10.0);
    a.add_assign(fx(2.0));
    assert_eq!(a, fx(12.0));
    a.sub_assign(fx(4.0));
    assert_eq!(a, fx(8.0));
    a.mul_assign(fx(0.5));
    assert_eq!(a, fx(4.0));
    a.div_assign(fx(2.0));
    assert_eq!(a, fx(2.0));
}

#[test]
fn trigonometry_on_the_grid() {
    let pi = integrator::constant::pi();
    assert_eq!(fx(0.0).sin(), fx(0.0));
    assert_eq!(fx(0.0).cos(), fx(1.0));
    // A quarter turn: the sine reaches one and the cosine vanishes, within
    // a stored unit.
    let quarter = pi.div(fx(2.0));
    assert!((quarter.sin().0 - 100000).abs() <= 1);
    assert!(quarter.cos().0.abs() <= 1);
    // The tangent of an eighth of a turn is one, within a stored unit.
    let eighth = pi.div(fx(4.0));
    assert!((eighth.tan().0 - 100000).abs() <= 2);
    // Arc cosine pins the ends of its range and the middle.
    assert_eq!(fx(1.0).acos(), fx(0.0));
    assert_eq!(fx(-1.0).acos().0, 314159);
    assert_eq!(fx(0.0).acos().0, 157080);
}

#[test]
fn wide_accumulator_round_trip() {
    let a = fx(1.5);
    let w = FullFixed::from_fixed(a);
    assert_eq!(w.0, a.0 as i128 * 10);
    assert_eq!(Fixed::from_full(w), a);
    let product = FullFixed::from_fixed(fx(1.5)).mul(FullFixed::from_fixed(fx(30.0)));
    assert_eq!(Fixed::from_full(product), fx(45.0));
}

#[test]
fn numeric_conversions() {
    assert_eq!(7i32.into_float(), fx(7.0));
    assert_eq!(200u8.into_float(), fx(200.0));
    assert_eq!(i32::from_float(fx(12.7)), Some(12));
    assert_eq!(i32::from_float(fx(-12.7)), Some(-12));
    assert_eq!(u8::from_float(fx(-3.0)), Some(0));
    assert_eq!(u8::from_float(fx(300.0)), None);
    assert_eq!(i8::from_float(fx(127.0)), Some(127));
    assert_eq!(i8::from_float(fx(128.0)), None);
}

#[test]
fn lossy_integer_conversions() {
    assert_eq!(<Fixed as FromLossy<i64>>::from_lossy(3), fx(3.0));
    assert_eq!(<Fixed as FromLossy<i32>>::from_lossy(-7), fx(-7.0));
}

#[test]
fn wide_integer_powers() {
    let two = FullFixed(2 * FULL_FIXED_DECIMAL);
    assert_eq!(two.powi(2).0, 4 * FULL_FIXED_DECIMAL);
    assert_eq!(two.powi(0).0, FULL_FIXED_DECIMAL);
}
