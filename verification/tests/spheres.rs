//! Tests of spheres and circles.

use integrator::fixed::Fixed;
use integrator::fixed::FIXED_DECIMAL;
use integrator::sphere::Sphere;
use integrator::traits::Approximately;
use integrator::traits::Intersects;
use integrator::Point;

/// The fixed-point representation of a float: round half away from zero.
fn fx(value: f64) -> Fixed {
    Fixed((value * FIXED_DECIMAL as f64).round() as i64)
}

/// A point from three floats.
fn pt(x: f64, y: f64, z: f64) -> Point {
    Point::new(fx(x), fx(y), fx(z))
}

#[test]
fn containment() {
    let s = Sphere::new(Point::origin(), fx(2.0));
    assert!(s.contains(&pt(1.0, 1.0, 1.0)));
    assert!(!s.contains(&pt(2.0, 0.0, 0.0)));
    assert!(!s.contains(&pt(3.0, 0.0, 0.0)));
}

#[test]
fn overlapping_spheres_intersect_in_a_circle() {
    let a = Sphere::new(Point::origin(), fx(1.0));
    let b = Sphere::new(pt(1.0, 0.0, 0.0), fx(1.0));
    assert!(a.interesects(&b));
    let circle = a.intersection(&b).expect("expected an intersection circle");
    assert!(circle.center().approximately(pt(0.5, 0.0, 0.0), Fixed(3)));
    // The chord circle radius is the square root of three quarters.
    assert!((circle.radius().0 - 86603).abs() <= 3);
}

#[test]
fn distant_spheres_do_not_intersect() {
    let a = Sphere::new(Point::origin(), fx(1.0));
    let b = Sphere::new(pt(5.0, 0.0, 0.0), fx(1.0));
    assert!(!a.interesects(&b));
    assert!(a.intersection(&b).is_none());
}

#[test]
fn concentric_spheres_have_no_circle() {
    let a = Sphere::new(Point::origin(), fx(1.0));
    let b = Sphere::new(Point::origin(), fx(1.0));
    assert!(a.intersection(&b).is_none());
}

#[test]
fn bounding_sphere_is_not_provided() {
    let pts = [Point::origin(), pt(1.0, 0.0, 0.0)];
    assert!(Sphere::minimum_bounding(&pts).is_none());
}
