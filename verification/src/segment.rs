//! Line segments.
//!
//! Nearly identical to a line, the difference lying in how they are used:
//! where a line is an origin and a direction extending to infinity, a
//! segment is a start and an end and has a length.

use crate::fixed::Fixed;
use crate::point::as_vector_spec;
use crate::point::Point;
use crate::vec::length_spec;
use crate::vec::sub_ok;
use crate::vec::sub_spec;
use vstd::prelude::*;

verus! {

/// A line segment between two points.
#[derive(Clone, Copy, PartialEq, Eq, Structural, Default, Debug)]
pub struct LineSegment {
    pub start: Point,
    pub end: Point,
}

impl LineSegment {
    /// Create a new segment from its endpoints.
    pub fn new(start: Point, end: Point) -> (r: Self)
        ensures
            r == (LineSegment { start, end }),
    {
        LineSegment { start, end }
    }

    /// The length of the segment: the distance between its endpoints.
    pub fn length(&self) -> (r: Fixed)
        requires
            sub_ok(as_vector_spec(self.end), as_vector_spec(self.start)),
        ensures
            r@ == length_spec(sub_spec(as_vector_spec(self.end), as_vector_spec(self.start))),
    {
        let diff = self.end.sub_point(&self.start);
        diff.length()
    }

    /// The segment from a line's origin toward its direction read as a
    /// point.
    pub fn from_line(line: crate::line::Line) -> (r: Self)
        ensures
            r.start == line.origin,
            r.end == (Point { x: line.direction.x, y: line.direction.y, z: line.direction.z }),
    {
        Self::new(line.origin, Point::from_vector(line.direction))
    }
}

} // verus!
