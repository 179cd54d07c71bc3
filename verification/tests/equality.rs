//! Tests of the scalar's approximate-equality comparator.

use integrator::fixed::Fixed;
use integrator::fixed::FIXED_DECIMAL;

/// The fixed-point representation of a float: round half away from zero.
fn fx(value: f64) -> Fixed {
    Fixed((value * FIXED_DECIMAL as f64).round() as i64)
}

/// The default comparison tolerance: three stored units.
fn epsilon() -> Fixed {
    Fixed(3)
}

#[test]
fn exact_equality() {
    let a = fx(1.0);
    let b = fx(1.0);
    assert!(a.approximately(b, fx(0.0)));
    assert!(a.approximately(b, epsilon()));
}

#[test]
fn difference_equals_epsilon() {
    let a = fx(1.0);
    let b = fx(1.0 + 0.5);
    assert!(a.approximately(b, fx(0.5)));
    assert!(b.approximately(a, fx(0.5)));
}

#[test]
fn zero_edge_cases() {
    assert!(fx(0.0).approximately(fx(0.0), fx(0.0)));
    assert!(fx(0.0).approximately(fx(1e-10), fx(1e-5)));
    assert!(!fx(0.0).approximately(fx(1e-5), fx(1e-6)));
}

#[test]
fn opposite_signs() {
    assert!(!fx(5.0).approximately(fx(-5.0), fx(9.9)));
    assert!(fx(5.0).approximately(fx(-5.0), fx(10.1)));
}

#[test]
fn subnormal_numbers() {
    let min = fx(f64::MIN_POSITIVE);
    let a = min;
    let b = a.add(a.div(fx(2.0)));
    assert!(a.approximately(b, min));
}

#[test]
fn symmetry_property() {
    let a = fx(1.0);
    let b = fx(1.000_000_1);
    assert_eq!(
        a.approximately(b, epsilon()),
        b.approximately(a, epsilon())
    );
}

#[test]
fn transitive_property() {
    let a = fx(1.0);
    let b = fx(1.000_000_05);
    let c = fx(1.000_000_1);
    assert!(a.approximately(b, epsilon()));
    assert!(b.approximately(c, epsilon()));
    assert!(a.approximately(c, epsilon()));
}
