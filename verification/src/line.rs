//! Infinite lines in 3D space.

use crate::arith::mag;
use crate::fixed::fits64;
use crate::fixed::spec_div;
use crate::fixed::Fixed;
use crate::point::as_vector_spec;
use crate::point::Point;
use crate::segment::LineSegment;
use crate::traits::Approximately;
use crate::traits::Parallel;
use crate::vec::dot_spec;
use crate::vec::sub_ok;
use crate::vec::sub_spec;
use crate::vec::vec_bounded;
use crate::vec::Vector;
use vstd::prelude::*;

verus! {

/// An infinite line: any origin point on it and a direction.
#[derive(Clone, Copy, PartialEq, Eq, Structural, Default, Debug)]
pub struct Line {
    pub origin: Point,
    pub direction: Vector,
}

impl Line {
    /// Create a new line from an origin and a direction.
    pub fn new(origin: Point, direction: Vector) -> (r: Self)
        ensures
            r == (Line { origin, direction }),
    {
        Line { origin, direction }
    }

    /// The line through a segment's start, with the segment's end read as
    /// the direction.
    pub fn from_segment(segment: LineSegment) -> (r: Self)
        ensures
            r.origin == segment.start,
            r.direction == as_vector_spec(segment.end),
    {
        let direction = segment.end.as_vector();
        Self::new(segment.start, direction)
    }
}

/// Whether a vector is within the default tolerance of zero, componentwise.
pub open spec fn approx_zero(v: Vector) -> bool {
    &&& mag(v.x@) <= 3
    &&& mag(v.y@) <= 3
    &&& mag(v.z@) <= 3
}

/// What it means for two lines to lie on the same set of points, following
/// the branches of the computation: two point-like lines coincide when
/// their origins do; a point-like and a true line never do; true lines
/// coincide when they are parallel and the origin offset is zero or
/// parallel to them.
pub open spec fn line_coincident_spec(a: Line, b: Line) -> bool {
    let sdz = approx_zero(a.direction);
    let odz = approx_zero(b.direction);
    let ab = sub_spec(as_vector_spec(b.origin), as_vector_spec(a.origin));
    if sdz && odz {
        &&& mag(a.origin.x@ - b.origin.x@) <= 3
        &&& mag(a.origin.y@ - b.origin.y@) <= 3
        &&& mag(a.origin.z@ - b.origin.z@) <= 3
    } else if sdz || odz {
        false
    } else if !a.direction.parallel_spec(&b.direction) {
        false
    } else if approx_zero(ab) {
        true
    } else {
        ab.parallel_spec(&a.direction)
    }
}

/// The inputs on which the coincidence test is defined: budgeted
/// directions, a representable origin offset, and normalizable vectors
/// wherever a branch normalizes them.
pub open spec fn line_coincident_req(a: Line, b: Line) -> bool {
    let sdz = approx_zero(a.direction);
    let odz = approx_zero(b.direction);
    let ab = sub_spec(as_vector_spec(b.origin), as_vector_spec(a.origin));
    &&& vec_bounded(a.direction)
    &&& vec_bounded(b.direction)
    &&& sub_ok(as_vector_spec(b.origin), as_vector_spec(a.origin))
    &&& (!sdz && !odz ==> dot_spec(a.direction, a.direction) >= 1 && dot_spec(
        b.direction,
        b.direction,
    ) >= 1)
    &&& (!sdz && !odz && a.direction.parallel_spec(&b.direction) && !approx_zero(ab)
        ==> dot_spec(ab, ab) >= 1)
}

impl crate::traits::Parallel for Line {
    open spec fn parallel_spec(&self, other: &Line) -> bool {
        self.direction.parallel_spec(&other.direction)
    }

    open spec fn parallel_req(&self, other: &Line) -> bool {
        self.direction.parallel_req(&other.direction)
    }

    fn parallel(&self, other: &Line) -> (r: bool) {
        self.direction.parallel(&other.direction)
    }
}

impl crate::traits::Coincident for Line {
    open spec fn coincident_spec(&self, other: &Line) -> bool {
        line_coincident_spec(*self, *other)
    }

    open spec fn coincident_req(&self, other: &Line) -> bool {
        line_coincident_req(*self, *other)
    }

    fn coincident(&self, other: &Line) -> (r: bool) {
        let eps = Fixed(3);
        let zero = Vector { x: Fixed(0), y: Fixed(0), z: Fixed(0) };
        let self_dir_zero = self.direction.approximately(zero, eps);
        let other_dir_zero = other.direction.approximately(zero, eps);
        if self_dir_zero && other_dir_zero {
            return self.origin.approximately(other.origin, eps);
        } else if self_dir_zero || other_dir_zero {
            return false;
        }
        if !self.direction.parallel(&other.direction) {
            return false;
        }
        let ab = other.origin.sub_point(&self.origin);
        if ab.approximately(zero, eps) {
            return true;
        }
        ab.parallel(&self.direction)
    }
}

/// The stored integer of the squared distance from a line to a point: the
/// squared length of the rejection, divided by the squared length of the
/// direction.
pub open spec fn line_point_dist_sq_spec(l: Line, p: Point) -> int {
    let ab = sub_spec(as_vector_spec(l.origin), as_vector_spec(p));
    let c = crate::vec::cross_spec(ab, l.direction);
    spec_div(dot_spec(c, c), dot_spec(l.direction, l.direction))
}

/// The inputs on which the line-to-point distance is defined.
pub open spec fn line_point_dist_req(l: Line, p: Point) -> bool {
    let ab = sub_spec(as_vector_spec(l.origin), as_vector_spec(p));
    let c = crate::vec::cross_spec(ab, l.direction);
    &&& vec_bounded(l.direction)
    &&& sub_ok(as_vector_spec(l.origin), as_vector_spec(p))
    &&& vec_bounded(c)
    &&& dot_spec(l.direction, l.direction) != 0
    &&& fits64(spec_div(dot_spec(c, c), dot_spec(l.direction, l.direction)))
}

impl crate::traits::Distance<Point> for Line {
    open spec fn dist_sq_spec(&self, other: &Point) -> int {
        line_point_dist_sq_spec(*self, *other)
    }

    open spec fn dist_req(&self, other: &Point) -> bool {
        line_point_dist_req(*self, *other)
    }

    fn distance_to_sq(&self, other: &Point) -> (r: Fixed) {
        let ab = self.origin.sub_point(other);
        let c = ab.cross(&self.direction);
        let num = c.length_sq();
        let den = self.direction.length_sq();
        num.div(den)
    }
}

} // verus!
