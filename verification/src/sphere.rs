//! Spheres in 3D space.

use crate::arith::mag;
use crate::circle::Circle;
use crate::fixed::fits64;
use crate::fixed::spec_div;
use crate::fixed::spec_mul;
use crate::fixed::sqrt_val;
use crate::fixed::Fixed;
use crate::fixed::FIXED_DECIMAL;
use crate::line::line_point_dist_req;
use crate::line::line_point_dist_sq_spec;
use crate::line::Line;
use crate::point::as_vector_spec;
use crate::point::Point;
use crate::traits::Distance;
use crate::vec::dot_spec;
use crate::vec::lemma_fmul_bounded;
use crate::vec::lemma_normalized_scale_fits;
use crate::vec::normalized_spec;
use crate::vec::scale_spec;
use crate::vec::sub_ok;
use crate::vec::sub_spec;
use crate::vec::VEC_LIMIT;
use vstd::prelude::*;

verus! {

/// A sphere: a center and a radius.
#[derive(Clone, Copy, Debug)]
pub struct Sphere {
    pub center: Point,
    pub radius: Fixed,
}

/// The stored integer of the squared distance between the centers.
pub open spec fn center_dist_sq_spec(a: Sphere, b: Sphere) -> int {
    dot_spec(
        sub_spec(as_vector_spec(b.center), as_vector_spec(a.center)),
        sub_spec(as_vector_spec(b.center), as_vector_spec(a.center)),
    )
}

/// The squared radius on the stored grid.
pub open spec fn radius_sq_spec(s: Sphere) -> int {
    spec_mul(s.radius@, s.radius@)
}

/// Whether two spheres intersect: the center distance lies between the
/// difference and the sum of the radii, all squared.
pub open spec fn sphere_intersects_spec(a: Sphere, b: Sphere) -> bool {
    let d_sq = center_dist_sq_spec(a, b);
    let r_sum = a.radius@ + b.radius@;
    let r_diff = mag(a.radius@ - b.radius@);
    d_sq <= spec_mul(r_sum, r_sum) && d_sq >= spec_mul(r_diff, r_diff)
}

/// The inputs on which the intersection test is representable.
pub open spec fn sphere_intersects_req(a: Sphere, b: Sphere) -> bool {
    &&& sub_ok(as_vector_spec(b.center), as_vector_spec(a.center))
    &&& mag(a.radius@) <= 250000000000
    &&& mag(b.radius@) <= 250000000000
}

/// The circle where two spheres meet, following the branches of the
/// computation: nothing when they are apart, nested or concentric,
/// otherwise the circle on the chord plane.
pub open spec fn sphere_intersection_spec(a: Sphere, b: Sphere) -> Option<Circle> {
    let direction = sub_spec(as_vector_spec(b.center), as_vector_spec(a.center));
    let d_sq = dot_spec(direction, direction);
    let d = sqrt_val(d_sq * (FIXED_DECIMAL as int));
    let r_sum = a.radius@ + b.radius@;
    let r_diff = mag(a.radius@ - b.radius@);
    if d > r_sum || d < r_diff {
        None
    } else if d == 0 {
        None
    } else {
        let h = spec_div(d_sq + radius_sq_spec(a) - radius_sq_spec(b), 2 * d);
        let ir = sqrt_val((radius_sq_spec(a) - spec_mul(h, h)) * (FIXED_DECIMAL as int));
        let step = scale_spec(direction, spec_div(h, d));
        let center = Point {
            x: Fixed((a.center.x@ + step.x@) as i64),
            y: Fixed((a.center.y@ + step.y@) as i64),
            z: Fixed((a.center.z@ + step.z@) as i64),
        };
        Some(Circle { center, frame: scale_spec(normalized_spec(direction), ir) })
    }
}

/// The inputs on which the sphere intersection is representable: budgeted
/// centers and radii, and every intermediate of the reached branch in
/// range.
pub open spec fn sphere_intersection_req(a: Sphere, b: Sphere) -> bool {
    let direction = sub_spec(as_vector_spec(b.center), as_vector_spec(a.center));
    let d_sq = dot_spec(direction, direction);
    let d = sqrt_val(d_sq * (FIXED_DECIMAL as int));
    let r_sum = a.radius@ + b.radius@;
    let r_diff = mag(a.radius@ - b.radius@);
    let h = spec_div(d_sq + radius_sq_spec(a) - radius_sq_spec(b), 2 * d);
    let deep = !(d > r_sum || d < r_diff) && d != 0;
    &&& sub_ok(as_vector_spec(b.center), as_vector_spec(a.center))
    &&& mag(a.radius@) <= VEC_LIMIT as int
    &&& mag(b.radius@) <= VEC_LIMIT as int
    &&& fits64(r_sum)
    &&& fits64(d_sq + radius_sq_spec(a))
    &&& fits64(d_sq + radius_sq_spec(a) - radius_sq_spec(b))
    &&& (deep ==> fits64(h) && mag(h) <= VEC_LIMIT as int && radius_sq_spec(a) - spec_mul(h, h)
        >= 0 && fits64(spec_div(h, d)) && mag(spec_div(h, d)) <= VEC_LIMIT as int && fits64(
        a.center.x@ + scale_spec(direction, spec_div(h, d)).x@,
    ) && fits64(a.center.y@ + scale_spec(direction, spec_div(h, d)).y@) && fits64(
        a.center.z@ + scale_spec(direction, spec_div(h, d)).z@,
    ) && mag(sqrt_val((radius_sq_spec(a) - spec_mul(h, h)) * (FIXED_DECIMAL as int)))
        <= VEC_LIMIT as int)
}

impl Sphere {
    /// Create a new sphere from a center and a radius.
    pub fn new(center: Point, radius: Fixed) -> (r: Self)
        ensures
            r == (Sphere { center, radius }),
    {
        Sphere { center, radius }
    }

    /// Whether the point lies strictly inside the sphere.
    pub fn contains(&self, point: &Point) -> (r: bool)
        requires
            sub_ok(as_vector_spec(*point), as_vector_spec(self.center)),
            mag(self.radius@) <= VEC_LIMIT as int,
        ensures
            r == (self.center.dist_sq_spec(point) < spec_mul(self.radius@, self.radius@)),
    {
        proof {
            lemma_fmul_bounded(self.radius@, self.radius@);
        }
        let d = self.center.distance_to_sq(point);
        let rr = self.radius.mul(self.radius);
        d.0 < rr.0
    }

    /// The smallest sphere enclosing a set of points. The computation is
    /// not provided; every call reports that by returning nothing.
    pub fn minimum_bounding(_points: &[Point]) -> (r: Option<Sphere>)
        ensures
            r == None::<Sphere>,
    {
        None
    }
}

impl crate::traits::Distance for Sphere {
    open spec fn dist_sq_spec(&self, other: &Sphere) -> int {
        center_dist_sq_spec(*self, *other) - radius_sq_spec(*self) - radius_sq_spec(*other)
    }

    open spec fn dist_req(&self, other: &Sphere) -> bool {
        &&& sub_ok(as_vector_spec(other.center), as_vector_spec(self.center))
        &&& mag(self.radius@) <= VEC_LIMIT as int
        &&& mag(other.radius@) <= VEC_LIMIT as int
        &&& fits64(center_dist_sq_spec(*self, *other) - radius_sq_spec(*self))
        &&& fits64(
            center_dist_sq_spec(*self, *other) - radius_sq_spec(*self) - radius_sq_spec(*other),
        )
    }

    fn distance_to_sq(&self, other: &Sphere) -> (r: Fixed) {
        proof {
            lemma_fmul_bounded(self.radius@, self.radius@);
            lemma_fmul_bounded(other.radius@, other.radius@);
        }
        let center_distance_squared = self.center.distance_to_sq(&other.center);
        center_distance_squared.sub(self.radius.mul(self.radius)).sub(
            other.radius.mul(other.radius),
        )
    }
}

impl crate::traits::Distance<Point> for Sphere {
    open spec fn dist_sq_spec(&self, other: &Point) -> int {
        self.center.dist_sq_spec(other) - radius_sq_spec(*self)
    }

    open spec fn dist_req(&self, other: &Point) -> bool {
        &&& sub_ok(as_vector_spec(*other), as_vector_spec(self.center))
        &&& mag(self.radius@) <= VEC_LIMIT as int
        &&& fits64(self.center.dist_sq_spec(other) - radius_sq_spec(*self))
    }

    fn distance_to_sq(&self, other: &Point) -> (r: Fixed) {
        proof {
            lemma_fmul_bounded(self.radius@, self.radius@);
        }
        self.center.distance_to_sq(other).sub(self.radius.mul(self.radius))
    }
}

impl crate::traits::Distance<Line> for Sphere {
    open spec fn dist_sq_spec(&self, other: &Line) -> int {
        line_point_dist_sq_spec(*other, self.center) - radius_sq_spec(*self)
    }

    open spec fn dist_req(&self, other: &Line) -> bool {
        &&& line_point_dist_req(*other, self.center)
        &&& mag(self.radius@) <= VEC_LIMIT as int
        &&& fits64(line_point_dist_sq_spec(*other, self.center) - radius_sq_spec(*self))
    }

    fn distance_to_sq(&self, other: &Line) -> (r: Fixed) {
        proof {
            lemma_fmul_bounded(self.radius@, self.radius@);
        }
        other.distance_to_sq(&self.center).sub(self.radius.mul(self.radius))
    }
}

impl crate::traits::Intersects for Sphere {
    type Intersection = Option<Circle>;

    open spec fn intersects_spec(&self, other: &Sphere) -> bool {
        sphere_intersects_spec(*self, *other)
    }

    open spec fn intersection_spec(&self, other: &Sphere) -> Option<Circle> {
        sphere_intersection_spec(*self, *other)
    }

    open spec fn intersects_req(&self, other: &Sphere) -> bool {
        &&& sphere_intersects_req(*self, *other)
        &&& sphere_intersection_req(*self, *other)
    }

    fn interesects(&self, other: &Sphere) -> (r: bool) {
        let d_sq = self.center.distance_to_sq(&other.center);
        proof {
            lemma_fmul_bounded(self.radius@ + other.radius@, self.radius@ + other.radius@);
            lemma_fmul_bounded(
                mag(self.radius@ - other.radius@),
                mag(self.radius@ - other.radius@),
            );
        }
        let r_sum = self.radius.add(other.radius);
        let diff = self.radius.sub(other.radius);
        let r_diff = if diff.0 >= 0 {
            diff
        } else {
            Fixed(-diff.0)
        };
        let r_diff_sq = r_diff.mul(r_diff);
        let r_sum_sq = r_sum.mul(r_sum);
        d_sq.0 <= r_sum_sq.0 && d_sq.0 >= r_diff_sq.0
    }

    fn intersection(&self, other: &Sphere) -> (r: Option<Circle>) {
        let direction = other.center.sub_point(&self.center);
        let d_sq = direction.length_sq();
        let d = d_sq.sqrt();
        let r_sum = self.radius.add(other.radius);
        let diff = self.radius.sub(other.radius);
        let r_diff = if diff.0 >= 0 {
            diff
        } else {
            Fixed(-diff.0)
        };
        if d.0 > r_sum.0 || d.0 < r_diff.0 {
            return None;
        }
        if d.0 == 0 {
            return None;
        }
        proof {
            lemma_fmul_bounded(self.radius@, self.radius@);
            lemma_fmul_bounded(other.radius@, other.radius@);
        }
        proof {
            assert(d@ <= 1000000000000) by (nonlinear_arith)
                requires
                    0 <= d@,
                    d@ * d@ <= d_sq@ * 100000,
                    d_sq@ <= 0x7fffffffffffffff,
            ;
            assert(d_sq@ >= 1) by (nonlinear_arith)
                requires
                    d@ >= 1,
                    d@ * d@ <= d_sq@ * 100000,
            ;
        }
        let num = d_sq.add(self.radius.mul(self.radius)).sub(other.radius.mul(other.radius));
        let two_d = Fixed(2 * d.0);
        let h = num.div(two_d);
        proof {
            lemma_fmul_bounded(h@, h@);
        }
        let under = self.radius.mul(self.radius).sub(h.mul(h));
        let intersection_radius = under.sqrt();
        let hd = h.div(d);
        proof {
            crate::vec::lemma_fmul_bounded(direction.x@, hd@);
            crate::vec::lemma_fmul_bounded(direction.y@, hd@);
            crate::vec::lemma_fmul_bounded(direction.z@, hd@);
        }
        let step = direction.scale(hd);
        let center = self.center.add(&step);
        proof {
            lemma_normalized_scale_fits(direction, intersection_radius@);
        }
        let normal = direction.normalized();
        Some(Circle::new(center, normal, intersection_radius))
    }
}

} // verus!
