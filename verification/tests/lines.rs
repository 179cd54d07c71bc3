//! Tests of lines.

use integrator::fixed::Fixed;
use integrator::fixed::FIXED_DECIMAL;
use integrator::line::Line;
use integrator::traits::Coincident;
use integrator::traits::Distance;
use integrator::traits::Parallel;
use integrator::Point;
use integrator::Vector;

/// The fixed-point representation of a float: round half away from zero.
fn fx(value: f64) -> Fixed {
    Fixed((value * FIXED_DECIMAL as f64).round() as i64)
}

/// A vector from three floats.
fn vec3(x: f64, y: f64, z: f64) -> Vector {
    Vector::new(fx(x), fx(y), fx(z))
}

#[test]
fn lines_parallel() {
    let a = Line::new(Point::origin(), Vector::up());
    let b = Line::new(Point::origin().add(&vec3(1.0, 0.0, 0.0)), Vector::up());
    let c = Line::new(Point::origin(), Vector::forward());

    assert!(a.parallel(&b));
    assert!(!a.parallel(&c));
    assert!(!b.parallel(&c));
}

#[test]
fn lines_coincident() {
    let a = Line::new(Point::origin(), Vector::up());
    let b = Line::new(Point::origin().add(&Vector::up()), Vector::up());
    let c = Line::new(Point::origin().add(&vec3(1.0, 0.0, 0.0)), Vector::up());

    assert!(a.coincident(&b));
    assert!(!a.coincident(&c));
    assert!(!b.coincident(&c));
}

#[test]
fn segment_length() {
    let seg = integrator::segment::LineSegment::new(
        Point::new(fx(1.0), fx(0.0), fx(0.0)),
        Point::new(fx(4.0), fx(4.0), fx(0.0)),
    );
    assert_eq!(seg.length(), fx(5.0));
}

#[test]
fn distance_from_line_to_point() {
    let line = Line::new(Point::origin(), Vector::unit_x());
    let p = Point::new(fx(0.0), fx(3.0), fx(4.0));
    assert_eq!(line.distance_to_sq(&p), fx(25.0));
    assert_eq!(line.distance_to(&p), fx(5.0));
}

#[test]
fn snapped_to_grid() {
    let p = Point::new(fx(2.3), fx(5.7), fx(-1.2));
    let snapped = p.snapped(vec3(1.0, 1.0, 1.0));
    assert_eq!(snapped, Point::new(fx(2.0), fx(6.0), fx(-1.0)));
}
