//! Oriented circles in 3D space.

use crate::fixed::is_sqrt_of;
use crate::fixed::Fixed;
use crate::fixed::FIXED_DECIMAL;
use crate::point::Point;
use crate::vec::dot_spec;
use crate::vec::length_spec;
use crate::vec::scale_spec;
use crate::vec::vec_bounded;
use crate::vec::Vector;
use crate::vec::VEC_LIMIT;
use vstd::prelude::*;

verus! {

/// An oriented circle: a center and a frame vector along the normal whose
/// length is the radius.
#[derive(Clone, Copy, Debug)]
pub struct Circle {
    pub center: Point,
    pub frame: Vector,
}

impl Circle {
    /// Create a new circle from a center, a unit normal and a radius; the
    /// radius is stored as the length of the frame vector.
    pub fn new(center: Point, normal: Vector, radius: Fixed) -> (r: Self)
        requires
            vec_bounded(normal),
            crate::arith::mag(radius@) <= VEC_LIMIT as int,
        ensures
            r.center == center,
            r.frame == scale_spec(normal, radius@),
    {
        let frame = normal.scale(radius);
        Circle { center, frame }
    }

    /// The radius of the circle: the length of its frame vector.
    pub fn radius(&self) -> (r: Fixed)
        requires
            vec_bounded(self.frame),
        ensures
            r@ == length_spec(self.frame),
            is_sqrt_of(r@, dot_spec(self.frame, self.frame) * (FIXED_DECIMAL as int)),
    {
        self.frame.length()
    }

    /// The center of the circle.
    pub fn center(&self) -> (r: Point)
        ensures
            r == self.center,
    {
        self.center
    }
}

} // verus!
