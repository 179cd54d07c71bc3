//! Bivectors: oriented plane segments in 3D space.

use crate::arith::mag;
use crate::fixed::spec_mul;
use crate::fixed::Fixed;
use crate::fixed::FIXED_DECIMAL;
use crate::vec::lemma_fmul_bounded;
use crate::vec::vec_bounded;
use crate::vec::Vector;
use crate::vec::VEC_LIMIT;
use vstd::prelude::*;

verus! {

/// A bivector with components on the xy, xz and yz planes.
#[derive(Clone, Copy, PartialEq, Eq, Structural, Default, Debug)]
pub struct Bivector {
    pub xy: Fixed,
    pub xz: Fixed,
    pub yz: Fixed,
}

/// Whether every component is within the coordinate budget.
pub open spec fn bivec_bounded(b: Bivector) -> bool {
    &&& mag(b.xy@) <= VEC_LIMIT as int
    &&& mag(b.xz@) <= VEC_LIMIT as int
    &&& mag(b.yz@) <= VEC_LIMIT as int
}

/// The wedge product of two vectors, componentwise on the stored grid.
pub open spec fn wedge_spec(u: Vector, v: Vector) -> Bivector {
    Bivector {
        xy: Fixed((spec_mul(u.x@, v.y@) - spec_mul(u.y@, v.x@)) as i64),
        xz: Fixed((spec_mul(u.x@, v.z@) - spec_mul(u.z@, v.x@)) as i64),
        yz: Fixed((spec_mul(u.y@, v.z@) - spec_mul(u.z@, v.y@)) as i64),
    }
}

impl Bivector {
    /// Create a new bivector from its three components.
    pub fn new(xy: Fixed, xz: Fixed, yz: Fixed) -> (r: Self)
        ensures
            r == (Bivector { xy, xz, yz }),
    {
        Bivector { xy, xz, yz }
    }

    /// The zero bivector.
    pub fn zero() -> (r: Self)
        ensures
            r == (Bivector { xy: Fixed(0), xz: Fixed(0), yz: Fixed(0) }),
    {
        Bivector { xy: Fixed(0), xz: Fixed(0), yz: Fixed(0) }
    }

    /// The unit bivector on the xy plane.
    pub fn unit_xy() -> (r: Self)
        ensures
            r == (Bivector { xy: Fixed(FIXED_DECIMAL), xz: Fixed(0), yz: Fixed(0) }),
    {
        Bivector { xy: Fixed(FIXED_DECIMAL), xz: Fixed(0), yz: Fixed(0) }
    }

    /// The unit bivector on the xz plane.
    pub fn unit_xz() -> (r: Self)
        ensures
            r == (Bivector { xy: Fixed(0), xz: Fixed(FIXED_DECIMAL), yz: Fixed(0) }),
    {
        Bivector { xy: Fixed(0), xz: Fixed(FIXED_DECIMAL), yz: Fixed(0) }
    }

    /// The unit bivector on the yz plane.
    pub fn unit_yz() -> (r: Self)
        ensures
            r == (Bivector { xy: Fixed(0), xz: Fixed(0), yz: Fixed(FIXED_DECIMAL) }),
    {
        Bivector { xy: Fixed(0), xz: Fixed(0), yz: Fixed(FIXED_DECIMAL) }
    }

    /// The bivector of the plane perpendicular to an axis vector: the
    /// components are the axis components read in reverse order.
    pub fn from_axis_vector(axis: Vector) -> (r: Self)
        ensures
            r == (Bivector { xy: axis.z, xz: axis.y, yz: axis.x }),
    {
        Self::new(axis.z, axis.y, axis.x)
    }

    /// The wedge product of `u` and `v`.
    pub fn from_wedge(u: Vector, v: Vector) -> (r: Self)
        requires
            vec_bounded(u),
            vec_bounded(v),
        ensures
            r == wedge_spec(u, v),
    {
        proof {
            lemma_fmul_bounded(u.x@, v.y@);
            lemma_fmul_bounded(u.y@, v.x@);
            lemma_fmul_bounded(u.x@, v.z@);
            lemma_fmul_bounded(u.z@, v.x@);
            lemma_fmul_bounded(u.y@, v.z@);
            lemma_fmul_bounded(u.z@, v.y@);
        }
        Bivector {
            xy: u.x.mul(v.y).sub(u.y.mul(v.x)),
            xz: u.x.mul(v.z).sub(u.z.mul(v.x)),
            yz: u.y.mul(v.z).sub(u.z.mul(v.y)),
        }
    }

    /// The squared magnitude, read off the xy component: this bivector
    /// family is treated as planar.
    pub fn magnitude_sq(&self) -> (r: Fixed)
        requires
            mag(self.xy@) <= VEC_LIMIT as int,
        ensures
            r@ == spec_mul(self.xy@, self.xy@),
    {
        proof {
            lemma_fmul_bounded(self.xy@, self.xy@);
        }
        self.xy.mul(self.xy)
    }

    /// The magnitude, read off the xy component: this bivector family is
    /// treated as planar.
    pub fn magnitude(&self) -> (r: Fixed)
        ensures
            r == self.xy,
    {
        self.xy
    }
}

impl crate::traits::Approximately for Bivector {
    open spec fn approx_spec(&self, other: Bivector, epsilon: Fixed) -> bool {
        &&& mag(self.xy@ - other.xy@) <= epsilon@
        &&& mag(self.xz@ - other.xz@) <= epsilon@
        &&& mag(self.yz@ - other.yz@) <= epsilon@
    }

    fn approximately(&self, other: Bivector, epsilon: Fixed) -> (r: bool) {
        self.xy.approximately(other.xy, epsilon) && self.xz.approximately(other.xz, epsilon)
            && self.yz.approximately(other.yz, epsilon)
    }
}

} // verus!
