//! Tests of the rotor type.

use integrator::bivec::Bivector;
use integrator::constant::pi;
use integrator::fixed::Fixed;
use integrator::fixed::FIXED_DECIMAL;
use integrator::rotor::Rotor;
use integrator::traits::Approximately;
use integrator::traits::Zero;
use integrator::vec::Vector;

/// The fixed-point representation of a float: round half away from zero.
fn fx(value: f64) -> Fixed {
    Fixed((value * FIXED_DECIMAL as f64).round() as i64)
}

/// A vector from three floats.
fn vec3(x: f64, y: f64, z: f64) -> Vector {
    Vector::new(fx(x), fx(y), fx(z))
}

/// The default comparison tolerance: three stored units.
fn epsilon() -> Fixed {
    Fixed(3)
}

fn test_vector() -> Vector {
    vec3(1.0, 0.0, 0.0)
}

#[test]
fn identity_rotation() {
    let mut v = test_vector();
    let identity = Rotor::identity();
    identity.rotate_vector(&mut v);
    assert!(v.approximately(test_vector(), epsilon()));
}

#[test]
fn half_turn_rotation() {
    let mut v = test_vector();
    let half_turn = Rotor::from_angle_and_plane(pi(), Bivector::unit_xy());
    half_turn.rotate_vector(&mut v);
    assert!(v.approximately(vec3(-1.0, 0.0, 0.0), epsilon()));
}

#[test]
fn quarter_turn_rotation() {
    let mut v = test_vector();
    let quarter_turn = Rotor::from_angle_and_plane(pi().div(fx(2.0)), Bivector::unit_xy());
    quarter_turn.rotate_vector(&mut v);
    assert!(v.approximately(vec3(0.0, 1.0, 0.0), epsilon()));
}

#[test]
fn vector_rotation_between_vectors() {
    let from = Vector::unit_x();
    let to = Vector::unit_y();
    let rotor = Rotor::from_rotation_between_vectors(from, to);
    let mut rotated = from;
    rotor.rotate_vector(&mut rotated);
    assert!(rotated.approximately(to, epsilon()));
}

#[test]
fn rotor_composition() {
    let rot_x = Rotor::from_angle_and_plane(pi().div(fx(2.0)), Bivector::unit_xz());
    let rot_y = Rotor::from_angle_and_plane(pi().div(fx(2.0)), Bivector::unit_yz());

    let mut v = test_vector();
    let combined = rot_x.product(&rot_y);

    combined.rotate_vector(&mut v);
    assert!(v.approximately(vec3(0.0, 0.0, 1.0), epsilon()));
}

#[test]
fn rotor_normalization() {
    let unnormalized = Rotor::new(Bivector::new(fx(3.0), fx(4.0), fx(0.0)), fx(0.0));
    let normalized = unnormalized.normalized();
    assert!(normalized.magnitude().approximately(fx(1.0), epsilon()));
}

#[test]
fn reverse_operation() {
    let original = Rotor::from_angle_and_plane(pi().div(fx(4.0)), Bivector::unit_xy());
    let reversed = original.reversed();

    let mut v = test_vector();
    original.rotate_vector(&mut v);
    reversed.rotate_vector(&mut v);
    assert!(v.approximately(test_vector(), epsilon()));
}

#[test]
fn zero_angle_rotation() {
    let rotor = Rotor::from_angle_and_plane(fx(0.0), Bivector::unit_xy());
    let mut v = test_vector();
    rotor.rotate_vector(&mut v);
    assert!(v.approximately(test_vector(), epsilon()));
}

#[test]
fn parallel_vector_rotation() {
    let v = Vector::unit_x();
    let rotor = Rotor::from_rotation_between_vectors(v, v);
    assert!(rotor.approximately(Rotor::default(), epsilon()));
}

#[test]
fn opposite_vector_rotation() {
    let from = Vector::unit_x();
    let to = Vector::unit_x().neg();
    let rotor = Rotor::from_rotation_between_vectors(from, to);
    let mut rotated = from;
    rotor.rotate_vector(&mut rotated);
    assert!(rotated.approximately(to, epsilon()));
}

#[test]
fn rotor_product_identity() {
    let id = Rotor::identity();
    let rotor = Rotor::from_angle_and_plane(pi().div(fx(4.0)), Bivector::unit_xy());
    assert!(rotor.product(&id).approximately(rotor, epsilon()));
    assert!(id.product(&rotor).approximately(rotor, epsilon()));
}

#[test]
fn rotor_inverse_property() {
    let rotor = Rotor::from_angle_and_plane(pi().div(fx(3.0)), Bivector::unit_yz());
    let inverse = rotor.reversed();
    assert!(rotor.product(&inverse).approximately(Rotor::default(), epsilon()));
}

#[test]
fn rotor_interaction_with_zero_vector() {
    let mut v = Vector::zero();
    let rotor = Rotor::from_angle_and_plane(pi().div(fx(2.0)), Bivector::unit_xy());
    rotor.rotate_vector(&mut v);
    assert_eq!(v, Vector::zero());
}

#[test]
fn rotated_by_matches_rotate_vector() {
    let rotor = Rotor::from_angle_and_plane(pi().div(fx(2.0)), Bivector::unit_xy());
    let v = vec3(1.0, 2.0, 3.0);
    let mut w = v;
    rotor.rotate_vector(&mut w);
    assert_eq!(v.rotated_by(&rotor), w);
}
