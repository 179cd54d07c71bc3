//! Points in 3D space.

use crate::arith::mag;
use crate::fixed::fits64;
use crate::fixed::spec_div;
use crate::fixed::spec_mul;
use crate::fixed::spec_round;
use crate::fixed::Fixed;
use crate::vec::dot_spec;
use crate::vec::sub_ok;
use crate::vec::sub_spec;
use crate::vec::Vector;
use crate::vec::VEC_LIMIT;
use vstd::prelude::*;

verus! {

/// A point in 3D space.
#[derive(Clone, Copy, PartialEq, Eq, Structural, Default, Debug)]
pub struct Point {
    pub x: Fixed,
    pub y: Fixed,
    pub z: Fixed,
}

/// The point read as a displacement from the origin.
pub open spec fn as_vector_spec(p: Point) -> Vector {
    Vector { x: p.x, y: p.y, z: p.z }
}

/// One component of `snapped`: the component rounded to the nearest whole
/// multiple of the corresponding step component.
pub open spec fn snap_component_spec(c: int, step: int) -> int {
    spec_mul(spec_round(spec_div(c, step)), step)
}

/// The inputs on which `snapped` stays representable: nonzero steps within
/// the budget, and every intermediate in range.
pub open spec fn snapped_req(p: Point, step: Vector) -> bool {
    &&& step.x@ != 0
    &&& step.y@ != 0
    &&& step.z@ != 0
    &&& mag(step.x@) <= VEC_LIMIT as int
    &&& mag(step.y@) <= VEC_LIMIT as int
    &&& mag(step.z@) <= VEC_LIMIT as int
    &&& fits64(spec_div(p.x@, step.x@))
    &&& fits64(spec_div(p.y@, step.y@))
    &&& fits64(spec_div(p.z@, step.z@))
    &&& fits64(spec_round(spec_div(p.x@, step.x@)))
    &&& fits64(spec_round(spec_div(p.y@, step.y@)))
    &&& fits64(spec_round(spec_div(p.z@, step.z@)))
    &&& mag(spec_round(spec_div(p.x@, step.x@))) <= VEC_LIMIT as int
    &&& mag(spec_round(spec_div(p.y@, step.y@))) <= VEC_LIMIT as int
    &&& mag(spec_round(spec_div(p.z@, step.z@))) <= VEC_LIMIT as int
}

impl Point {
    /// Create a new point from its three components.
    pub fn new(x: Fixed, y: Fixed, z: Fixed) -> (r: Self)
        ensures
            r == (Point { x, y, z }),
    {
        Point { x, y, z }
    }

    /// The origin.
    pub fn origin() -> (r: Self)
        ensures
            r == (Point { x: Fixed(0), y: Fixed(0), z: Fixed(0) }),
    {
        Point { x: Fixed(0), y: Fixed(0), z: Fixed(0) }
    }

    /// This point read as a displacement from the origin.
    pub fn as_vector(&self) -> (r: Vector)
        ensures
            r == as_vector_spec(*self),
    {
        Vector { x: self.x, y: self.y, z: self.z }
    }

    /// The point built from a displacement from the origin.
    pub fn from_vector(value: Vector) -> (r: Self)
        ensures
            r == (Point { x: value.x, y: value.y, z: value.z }),
    {
        Point { x: value.x, y: value.y, z: value.z }
    }

    /// This point with each component snapped to the nearest multiple of
    /// the corresponding component of `step`.
    pub fn snapped(&self, step: Vector) -> (r: Self)
        requires
            snapped_req(*self, step),
        ensures
            r.x@ == snap_component_spec(self.x@, step.x@),
            r.y@ == snap_component_spec(self.y@, step.y@),
            r.z@ == snap_component_spec(self.z@, step.z@),
    {
        proof {
            crate::vec::lemma_fmul_bounded(spec_round(spec_div(self.x@, step.x@)), step.x@);
            crate::vec::lemma_fmul_bounded(spec_round(spec_div(self.y@, step.y@)), step.y@);
            crate::vec::lemma_fmul_bounded(spec_round(spec_div(self.z@, step.z@)), step.z@);
        }
        Point {
            x: self.x.div(step.x).round().mul(step.x),
            y: self.y.div(step.y).round().mul(step.y),
            z: self.z.div(step.z).round().mul(step.z),
        }
    }

    /// This point displaced by the vector `rhs`.
    pub fn add(&self, rhs: &Vector) -> (r: Self)
        requires
            fits64(self.x@ + rhs.x@),
            fits64(self.y@ + rhs.y@),
            fits64(self.z@ + rhs.z@),
        ensures
            r.x@ == self.x@ + rhs.x@,
            r.y@ == self.y@ + rhs.y@,
            r.z@ == self.z@ + rhs.z@,
    {
        Point { x: self.x.add(rhs.x), y: self.y.add(rhs.y), z: self.z.add(rhs.z) }
    }

    /// This point displaced against the vector `rhs`.
    pub fn sub(&self, rhs: &Vector) -> (r: Self)
        requires
            fits64(self.x@ - rhs.x@),
            fits64(self.y@ - rhs.y@),
            fits64(self.z@ - rhs.z@),
        ensures
            r.x@ == self.x@ - rhs.x@,
            r.y@ == self.y@ - rhs.y@,
            r.z@ == self.z@ - rhs.z@,
    {
        Point { x: self.x.sub(rhs.x), y: self.y.sub(rhs.y), z: self.z.sub(rhs.z) }
    }

    /// The displacement from `rhs` to this point.
    pub fn sub_point(&self, rhs: &Point) -> (r: Vector)
        requires
            fits64(self.x@ - rhs.x@),
            fits64(self.y@ - rhs.y@),
            fits64(self.z@ - rhs.z@),
        ensures
            r == sub_spec(as_vector_spec(*self), as_vector_spec(*rhs)),
    {
        Vector { x: self.x.sub(rhs.x), y: self.y.sub(rhs.y), z: self.z.sub(rhs.z) }
    }

    /// Displace this point in place by the vector `rhs`.
    pub fn add_assign(&mut self, rhs: &Vector)
        requires
            fits64(old(self).x@ + rhs.x@),
            fits64(old(self).y@ + rhs.y@),
            fits64(old(self).z@ + rhs.z@),
        ensures
            final(self).x@ == old(self).x@ + rhs.x@,
            final(self).y@ == old(self).y@ + rhs.y@,
            final(self).z@ == old(self).z@ + rhs.z@,
    {
        *self = (*self).add(rhs);
    }

    /// Displace this point in place against the vector `rhs`.
    pub fn sub_assign(&mut self, rhs: &Vector)
        requires
            fits64(old(self).x@ - rhs.x@),
            fits64(old(self).y@ - rhs.y@),
            fits64(old(self).z@ - rhs.z@),
        ensures
            final(self).x@ == old(self).x@ - rhs.x@,
            final(self).y@ == old(self).y@ - rhs.y@,
            final(self).z@ == old(self).z@ - rhs.z@,
    {
        *self = (*self).sub(rhs);
    }
}

impl crate::traits::Zero for Point {
    open spec fn zero_spec() -> Point {
        Point { x: Fixed(0), y: Fixed(0), z: Fixed(0) }
    }

    fn zero() -> (r: Point) {
        Point { x: Fixed(0), y: Fixed(0), z: Fixed(0) }
    }
}

impl crate::traits::Approximately for Point {
    open spec fn approx_spec(&self, other: Point, epsilon: Fixed) -> bool {
        &&& mag(self.x@ - other.x@) <= epsilon@
        &&& mag(self.y@ - other.y@) <= epsilon@
        &&& mag(self.z@ - other.z@) <= epsilon@
    }

    fn approximately(&self, other: Point, epsilon: Fixed) -> (r: bool) {
        self.x.approximately(other.x, epsilon) && self.y.approximately(other.y, epsilon)
            && self.z.approximately(other.z, epsilon)
    }
}

impl crate::traits::Distance for Point {
    open spec fn dist_sq_spec(&self, other: &Point) -> int {
        dot_spec(
            sub_spec(as_vector_spec(*other), as_vector_spec(*self)),
            sub_spec(as_vector_spec(*other), as_vector_spec(*self)),
        )
    }

    open spec fn dist_req(&self, other: &Point) -> bool {
        sub_ok(as_vector_spec(*other), as_vector_spec(*self))
    }

    fn distance_to_sq(&self, other: &Point) -> (r: Fixed) {
        let diff = other.sub_point(self);
        diff.length_sq()
    }
}

} // verus!
