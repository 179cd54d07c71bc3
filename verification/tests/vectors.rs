//! Tests of the vector type.

use integrator::constant::pi;
use integrator::fixed::Fixed;
use integrator::fixed::FIXED_DECIMAL;
use integrator::traits::Approximately;
use integrator::traits::Zero;
use integrator::vec::Vector;

/// The fixed-point representation of a float: round half away from zero.
fn fx(value: f64) -> Fixed {
    Fixed((value * FIXED_DECIMAL as f64).round() as i64)
}

/// A vector from three floats.
fn vec3(x: f64, y: f64, z: f64) -> Vector {
    Vector::new(fx(x), fx(y), fx(z))
}

/// The default comparison tolerance: three stored units.
fn epsilon() -> Fixed {
    Fixed(3)
}

#[test]
fn vec_addition() {
    let v1 = vec3(1.0, 2.0, 3.0);
    let v2 = vec3(4.0, 5.0, 6.0);
    assert_eq!(v1.add(&v2), vec3(5.0, 7.0, 9.0));
}

#[test]
fn vec_subtraction() {
    let v1 = vec3(5.0, 5.0, 5.0);
    let v2 = vec3(2.0, 3.0, 4.0);
    assert_eq!(v1.sub(&v2), vec3(3.0, 2.0, 1.0));
}

#[test]
fn dot_product_perpendicular() {
    let v1 = Vector::unit_x();
    let v2 = Vector::unit_y();
    assert_eq!(v1.dot(&v2), fx(0.0));
}

#[test]
fn cross_product() {
    let cross = Vector::unit_x().cross(&Vector::unit_y());
    assert_eq!(cross, Vector::unit_z());
}

#[test]
fn length() {
    let v = vec3(3.0, 4.0, 0.0);
    assert_eq!(v.length(), fx(5.0));
}

#[test]
fn vec_normalization() {
    let v = vec3(3.0, 4.0, 0.0).normalized();
    assert!(v.length().approximately(fx(1.0), epsilon()));
}

#[test]
fn lerp() {
    let a = vec3(1.0, 2.0, 3.0);
    let b = vec3(2.0, 3.0, 4.0);
    let lerped = a.lerp(&b, fx(0.5));
    assert_eq!(lerped, vec3(1.5, 2.5, 3.5));
}

#[test]
fn clamp() {
    let v = vec3(5.0, -2.0, 10.0);
    let min = vec3(0.0, -1.0, 5.0);
    let max = vec3(4.0, 0.0, 8.0);
    let clamped = v.clamp(&min, &max);
    assert_eq!(clamped, vec3(4.0, -1.0, 8.0));
}

#[test]
fn sign() {
    let v = vec3(-3.0, 4.0, 0.0);
    assert_eq!(v.sign(), vec3(-1.0, 1.0, 1.0));
}

#[test]
fn wedge_product() {
    let v1 = Vector::unit_x();
    let v2 = Vector::unit_y();
    let bivector = v1.wedge(v2);
    assert_eq!(bivector.xy, fx(1.0));
    assert_eq!(bivector.xz, fx(0.0));
    assert_eq!(bivector.yz, fx(0.0));
}

#[test]
fn negation() {
    let v = vec3(1.0, -2.0, 3.0);
    assert_eq!(v.neg(), vec3(-1.0, 2.0, -3.0));
}

#[test]
fn cross_product_zero_vector() {
    let v1 = Vector::zero();
    let v2 = Vector::unit_x();
    let cross = v1.cross(&v2);
    assert_eq!(cross, Vector::zero());
}

#[test]
fn distance_to() {
    let v1 = vec3(0.0, 0.0, 0.0);
    let v2 = vec3(3.0, 4.0, 0.0);
    let h = fx(5.0);
    assert_eq!(v1.distance_to(&v2), h);
}

#[test]
fn assignment_operators() {
    let mut v = vec3(1.0, 2.0, 3.0);
    v = v.add(&vec3(0.5, 1.0, 1.5));
    assert_eq!(v, vec3(1.5, 3.0, 4.5));
    v = v.scale(fx(2.0));
    assert_eq!(v, vec3(3.0, 6.0, 9.0));
    v = v.sub(&vec3(1.0, 2.0, 3.0));
    assert_eq!(v, vec3(2.0, 4.0, 6.0));
    v = v.div(&vec3(2.0, 2.0, 2.0));
    assert_eq!(v, vec3(1.0, 2.0, 3.0));
}

#[test]
fn componentwise_operations() {
    let a = vec3(2.0, 3.0, 4.0);
    let b = vec3(1.0, 2.0, 0.5);
    assert_eq!(a.mul(&b), vec3(2.0, 6.0, 2.0));
    assert_eq!(a.div(&b), vec3(2.0, 1.5, 8.0));
}

#[test]
fn rotate_90_xy() {
    let v = Vector::unit_x();
    let rotated_cw = v.rotate_90_xy_cw();
    assert_eq!(rotated_cw, vec3(0.0, -1.0, 0.0));
    let rotated_ccw = v.rotate_90_xy_ccw();
    assert_eq!(rotated_ccw, vec3(0.0, 1.0, 0.0));
}

#[test]
fn limit_length() {
    let v = vec3(6.0, 8.0, 0.0);
    let limited = v.limit_length(fx(5.0));
    let expected = vec3(3.0, 4.0, 0.0);
    assert_eq!(limited, expected);
}

#[test]
fn rotation_about_x() {
    let v = Vector::unit_y();
    let rotated = v.rotate_about_x(pi().div(fx(2.0)));
    assert!(rotated.approximately(Vector::unit_z(), epsilon()));
}

#[test]
fn rotation_about_y() {
    let v = Vector::unit_z();
    let rotated = v.rotate_about_y(pi().div(fx(2.0)));
    assert!(rotated.approximately(Vector::unit_x(), epsilon()));
}

#[test]
fn rotation_about_z() {
    let v = Vector::unit_x();
    let rotated = v.rotate_about_z(pi().div(fx(2.0)));
    assert!(rotated.approximately(Vector::unit_y(), epsilon()));
}

#[test]
fn from_tuple() {
    let tup = (1.0, 2.0, 3.0);
    let v = vec3(tup.0, tup.1, tup.2);
    assert_eq!(v, vec3(1.0, 2.0, 3.0));
}

#[test]
fn approximately() {
    let v1 = vec3(1.0, 2.0, 3.0);
    let v2 = vec3(1.0 + 1e-17, 2.0 - 1e-17, 3.0 + 1e-17);
    assert!(v1.approximately(v2, epsilon()));
}

#[test]
fn vector_mul() {
    let v1 = vec3(5.0, 3.0, 1.0);
    let v2 = vec3(2.0, 4.0, 6.0);
    let f1 = fx(3.0);

    let r1 = vec3(10.0, 12.0, 6.0);
    assert_eq!(r1, v1.mul(&v2));
    assert_eq!(r1, v2.mul(&v1));

    let r2 = vec3(15.0, 9.0, 3.0);
    assert_eq!(r2, v1.scale(f1));

    let r3 = vec3(6.0, 12.0, 18.0);
    assert_eq!(r3, v2.scale(f1));
}

#[test]
fn orthogonal_is_perpendicular() {
    let v = vec3(1.0, 2.0, 3.0);
    let o = v.orthogonal();
    assert_eq!(v.dot(&o), fx(0.0));
}

#[test]
fn component_extremes() {
    let a = vec3(1.0, 5.0, -2.0);
    let b = vec3(2.0, 4.0, -3.0);
    assert_eq!(a.component_max(&b), vec3(2.0, 5.0, -2.0));
    assert_eq!(a.component_min(&b), vec3(1.0, 4.0, -3.0));
}
