//! Tests of planes and their intersections.

use integrator::fixed::Fixed;
use integrator::fixed::FIXED_DECIMAL;
use integrator::plane::plane_xy;
use integrator::plane::plane_xz;
use integrator::plane::Plane;
use integrator::traits::Approximately;
use integrator::traits::Intersects;
use integrator::traits::Parallel;
use integrator::vec::Vector;

/// The fixed-point representation of a float: round half away from zero.
fn fx(value: f64) -> Fixed {
    Fixed((value * FIXED_DECIMAL as f64).round() as i64)
}

/// A vector from three floats.
fn vec3(x: f64, y: f64, z: f64) -> Vector {
    Vector::new(fx(x), fx(y), fx(z))
}

fn approx_eq(a: Fixed, b: Fixed) -> bool {
    a.approximately(b, Fixed(3))
}

#[test]
fn test_line_intersection_xy_xz() {
    let plane_xy = plane_xy();
    let plane_xz = plane_xz();
    let expected = Vector::unit_x();
    let intersect = plane_xy
        .intersection(&plane_xz)
        .expect("Expected an intercept between XY and XZ planes");

    assert!(plane_xy.interesects(&plane_xz));

    // The intersection point should lie on both planes.
    assert!(
        approx_eq(plane_xy.distance_to(intersect.origin), fx(0.0)),
        "Intersection point is not on PLANE_XY."
    );
    assert!(
        approx_eq(plane_xz.distance_to(intersect.origin), fx(0.0)),
        "Intersection point is not on PLANE_XZ."
    );

    assert!(
        intersect.direction.parallel(&expected),
        "Intersection direction is not parallel to the x-axis."
    );
}

#[test]
fn test_line_intersection_xy_rotated() {
    let plane_xy = plane_xy();
    let normal_rotated = vec3(0.70710678, 0.0, 0.70710678);
    let plane_rotated = Plane::new(normal_rotated, fx(0.0));
    let intersect = plane_xy
        .intersection(&plane_rotated)
        .expect("Expected an intersect between XY and rotated plane");
    let expected = Vector::unit_y();

    assert!(plane_xy.interesects(&plane_rotated));

    // The intersection point must lie on both planes.
    assert!(
        approx_eq(plane_xy.distance_to(intersect.origin), fx(0.0)),
        "Intersection point is not on the XY plane."
    );
    assert!(
        approx_eq(plane_rotated.distance_to(intersect.origin), fx(0.0)),
        "Intersection point is not on the rotated plane."
    );

    assert!(
        intersect.direction.parallel(&expected),
        "Intersection direction is not parallel to the y-axis."
    );
}

#[test]
fn test_parallel_planes() {
    // Two parallel planes: the XY plane and a shifted XY plane.
    let plane1 = Plane::new(Vector::unit_z(), fx(0.0));
    let plane2 = Plane::new(Vector::unit_z(), fx(1.0));
    let intersect = plane1.intersection(&plane2);

    assert!(!plane1.interesects(&plane2));
    assert!(
        intersect.is_none(),
        "Expected no intersection line between parallel planes."
    );
}

#[test]
fn test_inverted_planes_intersection() {
    // Inverting a plane should not change the intersection line.
    let plane1 = plane_xy();
    let mut plane2 = plane_xz();

    let intersect = plane1
        .intersection(&plane2)
        .expect("Expected an intersection between XY and XZ planes");

    plane2.invert();
    let intersect_inverted = plane1
        .intersection(&plane2)
        .expect("Expected an intersection between inverted planes");

    assert!(plane1.interesects(&plane2));

    // Both intersection points must lie on plane1.
    assert!(
        approx_eq(plane1.distance_to(intersect.origin), fx(0.0)),
        "Intersection point pt1 is not on PLANE_XY."
    );
    assert!(
        approx_eq(plane1.distance_to(intersect_inverted.origin), fx(0.0)),
        "Intersection point pt2 is not on PLANE_XY."
    );

    // The directions should stay parallel even with one plane inverted.
    assert!(
        intersect.direction.parallel(&intersect_inverted.direction),
        "Intersection directions differ between the original and inverted plane cases."
    );
}

#[test]
fn projection_lands_on_plane() {
    let plane = plane_xy();
    let p = integrator::Point::new(fx(2.0), fx(3.0), fx(7.0));
    let projected = plane.project_point(p);
    assert_eq!(projected, integrator::Point::new(fx(2.0), fx(3.0), fx(0.0)));
    assert!(plane.point_on_positive_half(p));
    assert!(!plane.point_on_positive_half(integrator::Point::new(
        fx(0.0),
        fx(0.0),
        fx(-1.0)
    )));
}

#[test]
fn perpendicular_planes() {
    assert!(plane_xy().perpendicular_to(&plane_xz()));
    assert!(!plane_xy().perpendicular_to(&plane_xy()));
}

#[test]
fn angle_between_planes() {
    let quarter = plane_xy().angle_between(&plane_xz());
    // A quarter turn, within a stored unit.
    assert!((quarter.0 - 157080).abs() <= 1);
    assert_eq!(plane_xy().angle_between(&plane_xy()), fx(0.0));
}
