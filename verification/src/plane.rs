//! Infinite planes in 3D space.

use crate::arith::mag;
use crate::fixed::fits64;
use crate::fixed::spec_div;
use crate::fixed::spec_mul;
use crate::fixed::Fixed;
use crate::line::Line;
use crate::point::as_vector_spec;
use crate::point::Point;
use crate::traits::Parallel;
use crate::trig::spec_acos;
use crate::vec::add_spec;
use crate::vec::cross_spec;
use crate::vec::dot_spec;
use crate::vec::lemma_fmul_bounded;
use crate::vec::lemma_normalized_scale_fits;
use crate::vec::normalized_spec;
use crate::vec::scale_spec;
use crate::vec::vec_bounded;
use crate::vec::Vector;
use crate::vec::VEC_LIMIT;
use vstd::prelude::*;

verus! {

/// An infinite plane: a unit normal and the distance from the origin along
/// it.
#[derive(Clone, Copy, Debug)]
pub struct Plane {
    pub norm: Vector,
    pub dist: Fixed,
}

/// The xy plane through the origin.
pub fn plane_xy() -> (r: Plane)
    ensures
        r.norm == crate::vec::z_axis(),
        r.dist@ == 0,
{
    Plane { norm: Vector::unit_z(), dist: Fixed(0) }
}

/// The xz plane through the origin.
pub fn plane_xz() -> (r: Plane)
    ensures
        r.norm == crate::vec::y_axis(),
        r.dist@ == 0,
{
    Plane { norm: Vector::unit_y(), dist: Fixed(0) }
}

/// The yz plane through the origin.
pub fn plane_yz() -> (r: Plane)
    ensures
        r.norm == crate::vec::x_axis(),
        r.dist@ == 0,
{
    Plane { norm: Vector::unit_x(), dist: Fixed(0) }
}

/// The stored integer of the signed distance from a plane to a point.
pub open spec fn plane_point_dist_spec(p: Plane, pt: Point) -> int {
    dot_spec(p.norm, as_vector_spec(pt)) - p.dist@
}

/// The inputs on which the signed distance is representable.
pub open spec fn plane_point_dist_req(p: Plane, pt: Point) -> bool {
    &&& vec_bounded(p.norm)
    &&& vec_bounded(as_vector_spec(pt))
    &&& fits64(plane_point_dist_spec(p, pt))
}

/// Whether two planes are parallel: the cross product of the normals has a
/// squared length within the default tolerance of zero.
pub open spec fn plane_parallel_spec(a: Plane, b: Plane) -> bool {
    dot_spec(cross_spec(a.norm, b.norm), cross_spec(a.norm, b.norm)) <= 3
}

/// The inputs on which the parallelism test is defined.
pub open spec fn plane_parallel_req(a: Plane, b: Plane) -> bool {
    &&& vec_bounded(a.norm)
    &&& vec_bounded(b.norm)
    &&& vec_bounded(cross_spec(a.norm, b.norm))
}

/// The line where two planes meet, following the branches of the
/// computation: nothing for parallel planes or a degenerate direction,
/// otherwise the line through the combined moment point along the cross of
/// the normals.
pub open spec fn plane_intersection_spec(a: Plane, b: Plane) -> Option<Line> {
    if plane_parallel_spec(a, b) {
        None
    } else {
        let direction = cross_spec(a.norm, b.norm);
        let num = add_spec(
            scale_spec(cross_spec(b.norm, direction), a.dist@),
            scale_spec(cross_spec(a.norm, direction), b.dist@),
        );
        let den = dot_spec(direction, direction);
        if mag(den) <= 3 {
            None
        } else {
            Some(
                Line {
                    origin: Point {
                        x: Fixed(spec_div(num.x@, den) as i64),
                        y: Fixed(spec_div(num.y@, den) as i64),
                        z: Fixed(spec_div(num.z@, den) as i64),
                    },
                    direction,
                },
            )
        }
    }
}

/// The inputs on which the plane intersection is representable.
pub open spec fn plane_intersection_req(a: Plane, b: Plane) -> bool {
    let direction = cross_spec(a.norm, b.norm);
    let c2 = cross_spec(b.norm, direction);
    let c1 = cross_spec(a.norm, direction);
    let num = add_spec(scale_spec(c2, a.dist@), scale_spec(c1, b.dist@));
    let den = dot_spec(direction, direction);
    &&& plane_parallel_req(a, b)
    &&& vec_bounded(direction)
    &&& vec_bounded(c2)
    &&& vec_bounded(c1)
    &&& mag(a.dist@) <= VEC_LIMIT as int
    &&& mag(b.dist@) <= VEC_LIMIT as int
    &&& (!plane_parallel_spec(a, b) && mag(den) > 3 ==> fits64(spec_div(num.x@, den)) && fits64(
        spec_div(num.y@, den),
    ) && fits64(spec_div(num.z@, den)))
}

/// The point where a plane meets a line, following the branches of the
/// computation: nothing when the line runs parallel to the plane or hits
/// it behind the origin, otherwise the origin advanced by the unit
/// direction scaled to the plane.
pub open spec fn plane_line_intersection_spec(p: Plane, l: Line) -> Option<Point> {
    let denom = dot_spec(p.norm, l.direction);
    if mag(denom) <= 3 {
        None
    } else {
        let t = spec_div(p.dist@ - dot_spec(p.norm, as_vector_spec(l.origin)), denom);
        if t >= 0 {
            let step = scale_spec(normalized_spec(l.direction), t);
            Some(
                Point {
                    x: Fixed((l.origin.x@ + step.x@) as i64),
                    y: Fixed((l.origin.y@ + step.y@) as i64),
                    z: Fixed((l.origin.z@ + step.z@) as i64),
                },
            )
        } else {
            None
        }
    }
}

/// The inputs on which the plane-line intersection is representable.
pub open spec fn plane_line_intersection_req(p: Plane, l: Line) -> bool {
    let denom = dot_spec(p.norm, l.direction);
    let t = spec_div(p.dist@ - dot_spec(p.norm, as_vector_spec(l.origin)), denom);
    &&& vec_bounded(p.norm)
    &&& vec_bounded(l.direction)
    &&& vec_bounded(as_vector_spec(l.origin))
    &&& fits64(p.dist@ - dot_spec(p.norm, as_vector_spec(l.origin)))
    &&& (mag(denom) > 3 ==> fits64(t) && dot_spec(l.direction, l.direction) >= 1 && mag(t)
        <= VEC_LIMIT as int)
}

impl Plane {
    /// Create a new plane from a normal, which is normalized, and a
    /// distance from the origin.
    pub fn new(normal: Vector, distance: Fixed) -> (r: Self)
        requires
            vec_bounded(normal),
            dot_spec(normal, normal) >= 1,
        ensures
            r.norm == normalized_spec(normal),
            r.dist == distance,
    {
        Plane { norm: normal.normalized(), dist: distance }
    }

    /// Flip this plane in place: the normal and distance negate.
    pub fn invert(&mut self)
        requires
            old(self).norm.x@ != i64::MIN,
            old(self).norm.y@ != i64::MIN,
            old(self).norm.z@ != i64::MIN,
            old(self).dist@ != i64::MIN,
        ensures
            final(self).norm.x@ == -old(self).norm.x@,
            final(self).norm.y@ == -old(self).norm.y@,
            final(self).norm.z@ == -old(self).norm.z@,
            final(self).dist@ == -old(self).dist@,
    {
        *self = self.inverted();
    }

    /// The flipped plane: the same set of points with the opposite
    /// orientation.
    pub fn inverted(&self) -> (r: Self)
        requires
            self.norm.x@ != i64::MIN,
            self.norm.y@ != i64::MIN,
            self.norm.z@ != i64::MIN,
            self.dist@ != i64::MIN,
        ensures
            r.norm.x@ == -self.norm.x@,
            r.norm.y@ == -self.norm.y@,
            r.norm.z@ == -self.norm.z@,
            r.dist@ == -self.dist@,
    {
        Plane { norm: self.norm.neg(), dist: self.dist.neg() }
    }

    /// The signed distance from this plane to a point, positive on the
    /// side the normal points to.
    pub fn distance_to(&self, point: Point) -> (r: Fixed)
        requires
            plane_point_dist_req(*self, point),
        ensures
            r@ == plane_point_dist_spec(*self, point),
    {
        let pv = point.as_vector();
        self.norm.dot(&pv).sub(self.dist)
    }

    /// The closest point on the plane to the given point.
    pub fn project_point(&self, point: Point) -> (r: Point)
        requires
            plane_point_dist_req(*self, point),
            mag(plane_point_dist_spec(*self, point)) <= VEC_LIMIT as int,
        ensures
            r.x@ == point.x@ - spec_mul(self.norm.x@, plane_point_dist_spec(*self, point)),
            r.y@ == point.y@ - spec_mul(self.norm.y@, plane_point_dist_spec(*self, point)),
            r.z@ == point.z@ - spec_mul(self.norm.z@, plane_point_dist_spec(*self, point)),
    {
        let d = self.distance_to(point);
        proof {
            lemma_fmul_bounded(self.norm.x@, d@);
            lemma_fmul_bounded(self.norm.y@, d@);
            lemma_fmul_bounded(self.norm.z@, d@);
        }
        let step = self.norm.scale(d);
        point.sub(&step)
    }

    /// Whether the point is on the positive half of the plane; points on
    /// the plane itself count as positive.
    pub fn point_on_positive_half(&self, point: Point) -> (r: bool)
        requires
            plane_point_dist_req(*self, point),
        ensures
            r == (plane_point_dist_spec(*self, point) >= 0),
    {
        let d = self.distance_to(point);
        let s = d.signum();
        s.0 > 0
    }

    /// Whether this plane is perpendicular to another plane: the normals'
    /// dot product is within the default tolerance of zero.
    pub fn perpendicular_to(&self, other: &Plane) -> (r: bool)
        requires
            vec_bounded(self.norm),
            vec_bounded(other.norm),
        ensures
            r == (mag(dot_spec(self.norm, other.norm)) <= 3),
    {
        let d = self.norm.dot(&other.norm);
        let m = if d.0 >= 0 {
            d
        } else {
            proof {
                lemma_fmul_bounded(self.norm.x@, other.norm.x@);
                lemma_fmul_bounded(self.norm.y@, other.norm.y@);
                lemma_fmul_bounded(self.norm.z@, other.norm.z@);
            }
            Fixed(-d.0)
        };
        m.approximately(Fixed(0), Fixed(3))
    }

    /// The line where this plane meets another, if they are not parallel.
    pub fn line_of_intersection(&self, other: &Plane) -> (r: Option<Line>)
        requires
            plane_intersection_req(*self, *other),
        ensures
            r == plane_intersection_spec(*self, *other),
    {
        plane_intersection(self, other)
    }

    /// The angle between this plane and another: the arc cosine of the
    /// magnitude of the normals' dot product.
    pub fn angle_between(&self, other: &Plane) -> (r: Fixed)
        requires
            vec_bounded(self.norm),
            vec_bounded(other.norm),
        ensures
            r@ == spec_acos(mag(dot_spec(self.norm, other.norm))),
    {
        proof {
            lemma_fmul_bounded(self.norm.x@, other.norm.x@);
            lemma_fmul_bounded(self.norm.y@, other.norm.y@);
            lemma_fmul_bounded(self.norm.z@, other.norm.z@);
        }
        let d = self.norm.dot(&other.norm);
        let m = if d.0 >= 0 {
            d
        } else {
            Fixed(-d.0)
        };
        m.acos()
    }
}

/// The shared body of the plane-plane intersection.
fn plane_intersection(a: &Plane, b: &Plane) -> (r: Option<Line>)
    requires
        plane_intersection_req(*a, *b),
    ensures
        r == plane_intersection_spec(*a, *b),
{
    if a.parallel(b) {
        return None;
    }
    let direction = a.norm.cross(&b.norm);
    proof {
        lemma_fmul_bounded(cross_spec(b.norm, direction).x@, a.dist@);
        lemma_fmul_bounded(cross_spec(b.norm, direction).y@, a.dist@);
        lemma_fmul_bounded(cross_spec(b.norm, direction).z@, a.dist@);
        lemma_fmul_bounded(cross_spec(a.norm, direction).x@, b.dist@);
        lemma_fmul_bounded(cross_spec(a.norm, direction).y@, b.dist@);
        lemma_fmul_bounded(cross_spec(a.norm, direction).z@, b.dist@);
    }
    let num = b.norm.cross(&direction).scale(a.dist).add(&a.norm.cross(&direction).scale(b.dist));
    let den = direction.dot(&direction);
    let m = if den.0 >= 0 {
        den
    } else {
        proof {
            lemma_fmul_bounded(direction.x@, direction.x@);
            lemma_fmul_bounded(direction.y@, direction.y@);
            lemma_fmul_bounded(direction.z@, direction.z@);
        }
        Fixed(-den.0)
    };
    if m.approximately(Fixed(0), Fixed(3)) {
        return None;
    }
    let origin = Point::from_vector(num.scale_div(den));
    Some(Line::new(origin, direction))
}

impl crate::traits::Parallel for Plane {
    open spec fn parallel_spec(&self, other: &Plane) -> bool {
        plane_parallel_spec(*self, *other)
    }

    open spec fn parallel_req(&self, other: &Plane) -> bool {
        plane_parallel_req(*self, *other)
    }

    fn parallel(&self, other: &Plane) -> (r: bool) {
        let c = self.norm.cross(&other.norm);
        let lsq = c.length_sq();
        lsq.approximately(Fixed(0), Fixed(3))
    }
}

impl crate::traits::Parallel<Line> for Plane {
    open spec fn parallel_spec(&self, other: &Line) -> bool {
        mag(dot_spec(self.norm, other.direction)) <= 3
    }

    open spec fn parallel_req(&self, other: &Line) -> bool {
        &&& vec_bounded(self.norm)
        &&& vec_bounded(other.direction)
    }

    fn parallel(&self, other: &Line) -> (r: bool) {
        proof {
            lemma_fmul_bounded(self.norm.x@, other.direction.x@);
            lemma_fmul_bounded(self.norm.y@, other.direction.y@);
            lemma_fmul_bounded(self.norm.z@, other.direction.z@);
        }
        let d = self.norm.dot(&other.direction);
        let m = if d.0 >= 0 {
            d
        } else {
            Fixed(-d.0)
        };
        m.approximately(Fixed(0), Fixed(3))
    }
}

impl crate::traits::Intersects for Plane {
    type Intersection = Option<Line>;

    open spec fn intersects_spec(&self, other: &Plane) -> bool {
        !plane_parallel_spec(*self, *other)
    }

    open spec fn intersection_spec(&self, other: &Plane) -> Option<Line> {
        plane_intersection_spec(*self, *other)
    }

    open spec fn intersects_req(&self, other: &Plane) -> bool {
        plane_intersection_req(*self, *other)
    }

    fn interesects(&self, other: &Plane) -> (r: bool) {
        !self.parallel(other)
    }

    fn intersection(&self, other: &Plane) -> (r: Option<Line>) {
        plane_intersection(self, other)
    }
}

impl crate::traits::Intersects<Line> for Plane {
    type Intersection = Option<Point>;

    open spec fn intersects_spec(&self, other: &Line) -> bool {
        mag(dot_spec(self.norm, other.direction)) > 3
    }

    open spec fn intersection_spec(&self, other: &Line) -> Option<Point> {
        plane_line_intersection_spec(*self, *other)
    }

    open spec fn intersects_req(&self, other: &Line) -> bool {
        plane_line_intersection_req(*self, *other)
    }

    fn interesects(&self, other: &Line) -> (r: bool) {
        !Parallel::<Line>::parallel(self, other)
    }

    fn intersection(&self, other: &Line) -> (r: Option<Point>) {
        proof {
            lemma_fmul_bounded(self.norm.x@, other.direction.x@);
            lemma_fmul_bounded(self.norm.y@, other.direction.y@);
            lemma_fmul_bounded(self.norm.z@, other.direction.z@);
        }
        let denom = self.norm.dot(&other.direction);
        let md = if denom.0 >= 0 {
            denom
        } else {
            Fixed(-denom.0)
        };
        if md.approximately(Fixed(0), Fixed(3)) {
            None
        } else {
            let ov = other.origin.as_vector();
            let t = self.dist.sub(self.norm.dot(&ov)).div(denom);
            if t.0 >= 0 {
                proof {
                    lemma_normalized_scale_fits(other.direction, t@);
                }
                let unit = other.direction.normalized();
                let step = unit.scale(t);
                Some(other.origin.add(&step))
            } else {
                None
            }
        }
    }
}

} // verus!
