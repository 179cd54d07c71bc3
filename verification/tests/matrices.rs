//! Tests of matrices.

use integrator::fixed::Fixed;
use integrator::fixed::FIXED_DECIMAL;
use integrator::matrix::Matrix;
use integrator::traits::Approximately;
use integrator::Point;
use integrator::Vector;

/// The fixed-point representation of a float: round half away from zero.
fn fx(value: f64) -> Fixed {
    Fixed((value * FIXED_DECIMAL as f64).round() as i64)
}

/// The default comparison tolerance: three stored units.
fn epsilon() -> Fixed {
    Fixed(3)
}

#[test]
fn test_look_at() {
    let eye = Point::origin();
    let target = Point::new(fx(0.0), fx(0.0), fx(-1.0));
    let up = Vector::unit_y();
    let view = Matrix::look_at(eye, target, up);
    let expected = Matrix::identity();

    assert!(view.approximately(expected, epsilon()));
}

#[test]
fn product_with_identity() {
    let m = Matrix::from_translation(Vector::new(fx(1.0), fx(2.0), fx(3.0)));
    let id = Matrix::identity();
    let left = m.product(&id);
    let right = id.product(&m);
    assert!(left.approximately(m, Fixed(0)));
    assert!(right.approximately(m, Fixed(0)));
}

#[test]
fn transpose_involution() {
    let m = Matrix::from_translation(Vector::new(fx(1.0), fx(2.0), fx(3.0)));
    let back = m.transposed().transposed();
    assert!(back.approximately(m, Fixed(0)));
    assert_eq!(m.transposed().element(3, 0), fx(1.0));
    assert_eq!(m.element(0, 3), fx(1.0));
}

#[test]
fn rows_and_columns() {
    let m = Matrix::identity();
    let r = m.row(2);
    let c = m.col(2);
    assert_eq!(r[2], fx(1.0));
    assert_eq!(c[2], fx(1.0));
    assert_eq!(r[0], fx(0.0));
    assert_eq!(m.elements()[3][3], fx(1.0));
}

#[test]
fn perspective_entries() {
    let near = fx(2.0);
    let far = fx(10.0);
    let p = Matrix::perspective(near, far);
    assert_eq!(p.element(0, 0), near);
    assert_eq!(p.element(1, 1), near);
    assert_eq!(p.element(2, 2), fx(12.0));
    assert_eq!(p.element(2, 3), fx(-20.0));
    assert_eq!(p.element(3, 2), fx(1.0));
    assert_eq!(p.element(3, 3), fx(0.0));
}

#[test]
fn orientation_of_identity_rotor() {
    let m = Matrix::from_orientation(integrator::rotor::Rotor::identity());
    assert!(m.approximately(Matrix::identity(), epsilon()));
}
