//! Rotors: the rotation carriers of geometric algebra.
//!
//! A rotor holds a bivector part and a scalar part. Applying one to a
//! vector runs the whole sandwich product in the wide accumulator, so only
//! the final narrowing of each component rounds.

use crate::arith::lemma_mag_mul_bound;
use crate::arith::lemma_tdiv_bound;
use crate::arith::lemma_tdiv_le_self;
use crate::arith::lemma_tdiv_mag;
use crate::arith::mag;
use crate::arith::tdiv;
use crate::bivec::Bivector;
use crate::fixed::fits64;
use crate::fixed::is_sqrt_of;
use crate::fixed::spec_div;
use crate::fixed::spec_mul;
use crate::fixed::spec_wide_mul;
use crate::fixed::sqrt_val;
use crate::fixed::Fixed;
use crate::fixed::FullFixed;
use crate::fixed::FIXED_DECIMAL;
use crate::trig::sin_core;
use crate::trig::sin_core_approx;
use crate::trig::HALF_PI_E11;
use crate::vec::dot_spec;
use crate::vec::lemma_unit_div_fits;
use crate::vec::normalized_spec;
use crate::vec::orthogonal_spec;
use crate::vec::vec_bounded;
use crate::vec::Vector;
use vstd::prelude::*;

verus! {

/// The component budget of a rotor entering a product: four products must
/// sum within the stored range.
pub const ROTOR_LIMIT: i64 = 400000000000;

/// The component budget of a rotor applied to a vector: twice the unit
/// scale, room enough for any normalized rotor.
pub const ROTOR_UNIT_LIMIT: i64 = 200000;

/// A rotor: a bivector part and a scalar part.
#[derive(Clone, Copy, PartialEq, Eq, Structural, Debug)]
pub struct Rotor {
    pub b: Bivector,
    pub s: Fixed,
}

/// Whether every component is within the product budget.
pub open spec fn rotor_bounded(r: Rotor) -> bool {
    &&& mag(r.b.xy@) <= ROTOR_LIMIT as int
    &&& mag(r.b.xz@) <= ROTOR_LIMIT as int
    &&& mag(r.b.yz@) <= ROTOR_LIMIT as int
    &&& mag(r.s@) <= ROTOR_LIMIT as int
}

/// Whether every component is within the near-unit budget.
pub open spec fn rotor_near_unit(r: Rotor) -> bool {
    &&& mag(r.b.xy@) <= ROTOR_UNIT_LIMIT as int
    &&& mag(r.b.xz@) <= ROTOR_UNIT_LIMIT as int
    &&& mag(r.b.yz@) <= ROTOR_UNIT_LIMIT as int
    &&& mag(r.s@) <= ROTOR_UNIT_LIMIT as int
}

/// The stored integer of the squared magnitude.
pub open spec fn rotor_mag_sq_spec(r: Rotor) -> int {
    spec_mul(r.b.xy@, r.b.xy@) + spec_mul(r.b.xz@, r.b.xz@) + spec_mul(r.b.yz@, r.b.yz@)
        + spec_mul(r.s@, r.s@)
}

/// The stored length of a rotor.
pub open spec fn rotor_mag_spec(r: Rotor) -> int {
    sqrt_val(rotor_mag_sq_spec(r) * (FIXED_DECIMAL as int))
}

/// The rotor scaled down to unit length.
pub open spec fn rotor_normalized_spec(r: Rotor) -> Rotor {
    let l = rotor_mag_spec(r);
    Rotor {
        b: Bivector {
            xy: Fixed(spec_div(r.b.xy@, l) as i64),
            xz: Fixed(spec_div(r.b.xz@, l) as i64),
            yz: Fixed(spec_div(r.b.yz@, l) as i64),
        },
        s: Fixed(spec_div(r.s@, l) as i64),
    }
}

/// The rotor with its bivector part negated.
pub open spec fn rotor_reversed_spec(r: Rotor) -> Rotor {
    Rotor {
        b: Bivector {
            xy: Fixed((-r.b.xy@) as i64),
            xz: Fixed((-r.b.xz@) as i64),
            yz: Fixed((-r.b.yz@) as i64),
        },
        s: r.s,
    }
}

/// The geometric product before normalization.
pub open spec fn rotor_product_raw_spec(p: Rotor, q: Rotor) -> Rotor {
    Rotor {
        b: Bivector {
            xy: Fixed(
                (spec_mul(p.b.xy@, q.s@) + spec_mul(p.s@, q.b.xy@) + spec_mul(p.b.yz@, q.b.xz@)
                    - spec_mul(p.b.xz@, q.b.yz@)) as i64,
            ),
            xz: Fixed(
                (spec_mul(p.b.xz@, q.s@) + spec_mul(p.s@, q.b.xz@) - spec_mul(p.b.yz@, q.b.xy@)
                    + spec_mul(p.b.xy@, q.b.yz@)) as i64,
            ),
            yz: Fixed(
                (spec_mul(p.b.yz@, q.s@) + spec_mul(p.s@, q.b.yz@) + spec_mul(p.b.xz@, q.b.xy@)
                    - spec_mul(p.b.xy@, q.b.xz@)) as i64,
            ),
        },
        s: Fixed(
            (spec_mul(p.s@, q.s@) - spec_mul(p.b.xy@, q.b.xy@) - spec_mul(p.b.xz@, q.b.xz@)
                - spec_mul(p.b.yz@, q.b.yz@)) as i64,
        ),
    }
}

/// The geometric product, normalized.
pub open spec fn rotor_product_spec(p: Rotor, q: Rotor) -> Rotor {
    rotor_normalized_spec(rotor_product_raw_spec(p, q))
}

/// The inputs on which a normalized geometric product is defined: bounded
/// factors whose raw product has a positive squared magnitude.
pub open spec fn rotor_product_req(p: Rotor, q: Rotor) -> bool {
    &&& rotor_bounded(p)
    &&& rotor_bounded(q)
    &&& rotor_bounded(rotor_product_raw_spec(p, q))
    &&& rotor_mag_sq_spec(rotor_product_raw_spec(p, q)) >= 1
}

/// The sandwich product applied to a vector, entirely in the wide
/// accumulator: only the final narrowing of each component rounds.
pub open spec fn rotate_spec(r: Rotor, v: Vector) -> Vector {
    let rots = 10 * r.s@;
    let rbxy = 10 * r.b.xy@;
    let rbxz = 10 * r.b.xz@;
    let rbyz = 10 * r.b.yz@;
    let vx = 10 * v.x@;
    let vy = 10 * v.y@;
    let vz = 10 * v.z@;
    let qx = spec_wide_mul(rots, vx) + spec_wide_mul(vy, rbxy) + spec_wide_mul(vz, rbxz);
    let qy = spec_wide_mul(rots, vy) - spec_wide_mul(vx, rbxy) + spec_wide_mul(vz, rbyz);
    let qz = spec_wide_mul(rots, vz) - spec_wide_mul(vx, rbxz) - spec_wide_mul(vy, rbyz);
    let t = spec_wide_mul(vx, rbyz) - spec_wide_mul(vy, rbxz) + spec_wide_mul(vz, rbxy);
    let nx = spec_wide_mul(rots, qx) + spec_wide_mul(qy, rbxy) + spec_wide_mul(qz, rbxz)
        + spec_wide_mul(t, rbyz);
    let ny = spec_wide_mul(rots, qy) - spec_wide_mul(qx, rbxy) - spec_wide_mul(t, rbxz)
        + spec_wide_mul(qz, rbyz);
    let nz = spec_wide_mul(rots, qz) + spec_wide_mul(t, rbxy) - spec_wide_mul(qx, rbxz)
        - spec_wide_mul(qy, rbyz);
    Vector {
        x: Fixed(tdiv(nx, 10) as i64),
        y: Fixed(tdiv(ny, 10) as i64),
        z: Fixed(tdiv(nz, 10) as i64),
    }
}

/// The rotor of a rotation by `angle` in the given plane, before
/// normalization: the half-angle sine against the plane and the half-angle
/// cosine as scalar. The half angle is taken at the internal trig scale, so
/// halving is exact.
pub open spec fn from_angle_raw_spec(angle: Fixed, plane: Bivector) -> Rotor {
    let sina = sin_core_approx(angle@ * 500000);
    let cosa = sin_core_approx(angle@ * 500000 + HALF_PI_E11 as int);
    Rotor {
        b: Bivector {
            xy: Fixed(spec_mul(-sina, plane.xy@) as i64),
            xz: Fixed(spec_mul(-sina, plane.xz@) as i64),
            yz: Fixed(spec_mul(-sina, plane.yz@) as i64),
        },
        s: Fixed(cosa as i64),
    }
}

/// The rotation by `angle` in the given plane, as a normalized rotor.
pub open spec fn from_angle_spec(angle: Fixed, plane: Bivector) -> Rotor {
    rotor_normalized_spec(from_angle_raw_spec(angle, plane))
}

/// The inputs on which `from_angle_and_plane` is defined: a near-unit
/// plane whose raw rotor has a positive squared magnitude.
pub open spec fn from_angle_req(angle: Fixed, plane: Bivector) -> bool {
    &&& mag(plane.xy@) <= ROTOR_UNIT_LIMIT as int
    &&& mag(plane.xz@) <= ROTOR_UNIT_LIMIT as int
    &&& mag(plane.yz@) <= ROTOR_UNIT_LIMIT as int
    &&& rotor_mag_sq_spec(from_angle_raw_spec(angle, plane)) >= 1
}

/// A product of rotor-budgeted components fits, with room for four.
proof fn lemma_rmul_bounded(a: int, b: int)
    requires
        mag(a) <= ROTOR_LIMIT as int,
        mag(b) <= ROTOR_LIMIT as int,
    ensures
        mag(spec_mul(a, b)) <= 1600000000000000000,
        fits64(spec_mul(a, b)),
{
    lemma_mag_mul_bound(a, b, ROTOR_LIMIT as int, ROTOR_LIMIT as int);
    lemma_tdiv_bound(a * b, FIXED_DECIMAL as int, 160000000000000000000000);
}

/// The squared magnitude is nonnegative and, rescaled, dominates each
/// squared component up to one grid step.
proof fn lemma_rotor_mag_sq_dominates(r: Rotor)
    ensures
        rotor_mag_sq_spec(r) >= 0,
        rotor_mag_sq_spec(r) * (FIXED_DECIMAL as int) >= r.b.xy@ * r.b.xy@ - 99999,
        rotor_mag_sq_spec(r) * (FIXED_DECIMAL as int) >= r.b.xz@ * r.b.xz@ - 99999,
        rotor_mag_sq_spec(r) * (FIXED_DECIMAL as int) >= r.b.yz@ * r.b.yz@ - 99999,
        rotor_mag_sq_spec(r) * (FIXED_DECIMAL as int) >= r.s@ * r.s@ - 99999,
{
    let s = FIXED_DECIMAL as int;
    assert(r.b.xy@ * r.b.xy@ >= 0) by (nonlinear_arith);
    assert(r.b.xz@ * r.b.xz@ >= 0) by (nonlinear_arith);
    assert(r.b.yz@ * r.b.yz@ >= 0) by (nonlinear_arith);
    assert(r.s@ * r.s@ >= 0) by (nonlinear_arith);
    lemma_tdiv_mag(r.b.xy@ * r.b.xy@, s);
    lemma_tdiv_mag(r.b.xz@ * r.b.xz@, s);
    lemma_tdiv_mag(r.b.yz@ * r.b.yz@, s);
    lemma_tdiv_mag(r.s@ * r.s@, s);
    crate::arith::lemma_tdiv_fundamental(r.b.xy@ * r.b.xy@, s);
    crate::arith::lemma_tdiv_fundamental(r.b.xz@ * r.b.xz@, s);
    crate::arith::lemma_tdiv_fundamental(r.b.yz@ * r.b.yz@, s);
    crate::arith::lemma_tdiv_fundamental(r.s@ * r.s@, s);
    let d = rotor_mag_sq_spec(r);
    assert(d * s >= spec_mul(r.b.xy@, r.b.xy@) * s && d * s >= spec_mul(r.b.xz@, r.b.xz@) * s && d
        * s >= spec_mul(r.b.yz@, r.b.yz@) * s && d * s >= spec_mul(r.s@, r.s@) * s)
        by (nonlinear_arith)
        requires
            d >= spec_mul(r.b.xy@, r.b.xy@),
            d >= spec_mul(r.b.xz@, r.b.xz@),
            d >= spec_mul(r.b.yz@, r.b.yz@),
            d >= spec_mul(r.s@, r.s@),
            s > 0,
    ;
}

/// Normalizing a bounded rotor of positive squared magnitude is defined and
/// keeps every component within a thousandth of the budget.
proof fn lemma_rotor_normalize_fits(r: Rotor)
    requires
        rotor_bounded(r),
        rotor_mag_sq_spec(r) >= 1,
    ensures
        rotor_mag_spec(r) >= 1,
        is_sqrt_of(rotor_mag_spec(r), rotor_mag_sq_spec(r) * (FIXED_DECIMAL as int)),
        mag(rotor_normalized_spec(r).b.xy@) <= 1000000000,
        mag(rotor_normalized_spec(r).b.xz@) <= 1000000000,
        mag(rotor_normalized_spec(r).b.yz@) <= 1000000000,
        mag(rotor_normalized_spec(r).s@) <= 1000000000,
        fits64(spec_div(r.b.xy@, rotor_mag_spec(r))),
        fits64(spec_div(r.b.xz@, rotor_mag_spec(r))),
        fits64(spec_div(r.b.yz@, rotor_mag_spec(r))),
        fits64(spec_div(r.s@, rotor_mag_spec(r))),
{
    let d = rotor_mag_sq_spec(r) * (FIXED_DECIMAL as int);
    lemma_rotor_mag_sq_dominates(r);
    assert(d >= 100000) by (nonlinear_arith)
        requires
            rotor_mag_sq_spec(r) >= 1,
            d == rotor_mag_sq_spec(r) * (FIXED_DECIMAL as int),
    ;
    crate::fixed::lemma_sqrt_exists(d);
    let l = rotor_mag_spec(r);
    assert(l >= 1) by (nonlinear_arith)
        requires
            0 <= l,
            d < (l + 1) * (l + 1),
            d >= 100000,
    ;
    lemma_unit_div_fits(r.b.xy@, d, l);
    lemma_unit_div_fits(r.b.xz@, d, l);
    lemma_unit_div_fits(r.b.yz@, d, l);
    lemma_unit_div_fits(r.s@, d, l);
}

impl Rotor {
    /// Construct a new rotor from a bivector and a scalar.
    pub fn new(bivector: Bivector, scalar: Fixed) -> (r: Self)
        ensures
            r == (Rotor { b: bivector, s: scalar }),
    {
        Rotor { b: bivector, s: scalar }
    }

    /// The identity rotor: no rotation.
    pub fn identity() -> (r: Self)
        ensures
            r.b == (Bivector { xy: Fixed(0), xz: Fixed(0), yz: Fixed(0) }),
            r.s@ == FIXED_DECIMAL as int,
    {
        Rotor {
            b: Bivector { xy: Fixed(0), xz: Fixed(0), yz: Fixed(0) },
            s: Fixed(FIXED_DECIMAL),
        }
    }

    /// Rotate a vector by the rotation this rotor represents.
    pub fn rotate_vector(&self, vector: &mut Vector)
        requires
            rotor_near_unit(*self),
            vec_bounded(*old(vector)),
        ensures
            *final(vector) == rotate_spec(*self, *old(vector)),
    {
        rotate_vector(self, vector)
    }

    /// Rotate this rotor by another rotor: the sandwich of geometric
    /// products, each normalized.
    pub fn rotate(&mut self, other: &Rotor)
        requires
            old(self).b.xy@ != i64::MIN,
            old(self).b.xz@ != i64::MIN,
            old(self).b.yz@ != i64::MIN,
            rotor_product_req(*old(self), *other),
            rotor_product_req(
                rotor_product_spec(*old(self), *other),
                rotor_reversed_spec(*old(self)),
            ),
        ensures
            *final(self) == rotor_product_spec(
                rotor_product_spec(*old(self), *other),
                rotor_reversed_spec(*old(self)),
            ),
    {
        let first = self.product(other);
        let rev = self.reversed();
        *self = first.product(&rev);
    }

    /// The rotor rotated by another rotor, as a new value.
    pub fn rotated(&self, other: &Rotor) -> (r: Self)
        requires
            self.b.xy@ != i64::MIN,
            self.b.xz@ != i64::MIN,
            self.b.yz@ != i64::MIN,
            rotor_product_req(*self, *other),
            rotor_product_req(rotor_product_spec(*self, *other), rotor_reversed_spec(*self)),
        ensures
            r == rotor_product_spec(rotor_product_spec(*self, *other), rotor_reversed_spec(*self)),
    {
        let mut rotated = *self;
        rotated.rotate(other);
        rotated
    }

    /// The rotor that turns the direction of `from` into the direction of
    /// `to`. Opposite directions turn half a turn about an orthogonal axis.
    pub fn from_rotation_between_vectors(from: Vector, to: Vector) -> (r: Self)
        requires
            from_rotation_req(from, to),
        ensures
            r == from_rotation_spec(from, to),
    {
        let ghost from0 = from;
        let ghost to0 = to;
        proof {
            crate::vec::lemma_normalized_scale_fits(to, 0);
            crate::vec::lemma_normalized_scale_fits(from, 0);
        }
        let to = to.normalized();
        let from = from.normalized();
        let negated = Vector { x: Fixed(-to.x.0), y: Fixed(-to.y.0), z: Fixed(-to.z.0) };
        if from.x.0 == negated.x.0 && from.y.0 == negated.y.0 && from.z.0 == negated.z.0 {
            proof {
                crate::vec::lemma_orthogonal_bounded(crate::vec::normalized_spec(from0));
            }
            let orth = from.orthogonal();
            let axis = orth.normalized();
            proof {
                crate::vec::lemma_normalized_scale_fits(crate::vec::orthogonal_spec(
                    crate::vec::normalized_spec(from0),
                ), 0);
            }
            let b = Bivector::from_axis_vector(axis);
            let raw = Rotor { b, s: Fixed(0) };
            raw.normalized()
        } else {
            proof {
                lemma_wedge_of_units_bounded(
                    crate::vec::normalized_spec(to0),
                    crate::vec::normalized_spec(from0),
                );
            }
            let b = Bivector::from_wedge(to, from);
            let s = Fixed(FIXED_DECIMAL).add(to.dot(&from));
            let raw = Rotor { b, s };
            raw.normalized()
        }
    }

    /// The rotation by `angle` radians in the given plane, which must be
    /// normalized.
    pub fn from_angle_and_plane(angle: Fixed, plane: Bivector) -> (r: Self)
        requires
            from_angle_req(angle, plane),
        ensures
            r == from_angle_spec(angle, plane),
    {
        from_angle_and_plane(angle, plane)
    }

    /// The geometric product of this rotor and `other`, normalized.
    pub fn product(&self, other: &Self) -> (r: Self)
        requires
            rotor_product_req(*self, *other),
        ensures
            r == rotor_product_spec(*self, *other),
    {
        let p = self;
        let q = other;
        proof {
            lemma_rmul_bounded(p.s@, q.s@);
            lemma_rmul_bounded(p.b.xy@, q.b.xy@);
            lemma_rmul_bounded(p.b.xz@, q.b.xz@);
            lemma_rmul_bounded(p.b.yz@, q.b.yz@);
            lemma_rmul_bounded(p.b.xy@, q.s@);
            lemma_rmul_bounded(p.s@, q.b.xy@);
            lemma_rmul_bounded(p.b.yz@, q.b.xz@);
            lemma_rmul_bounded(p.b.xz@, q.b.yz@);
            lemma_rmul_bounded(p.b.xz@, q.s@);
            lemma_rmul_bounded(p.s@, q.b.xz@);
            lemma_rmul_bounded(p.b.yz@, q.b.xy@);
            lemma_rmul_bounded(p.b.xy@, q.b.yz@);
            lemma_rmul_bounded(p.b.yz@, q.s@);
            lemma_rmul_bounded(p.s@, q.b.yz@);
            lemma_rmul_bounded(p.b.xy@, q.b.xz@);
            lemma_rmul_bounded(p.b.xz@, q.b.xy@);
        }
        let s = p.s.mul(q.s).sub(p.b.xy.mul(q.b.xy)).sub(p.b.xz.mul(q.b.xz)).sub(
            p.b.yz.mul(q.b.yz),
        );
        let xy = p.b.xy.mul(q.s).add(p.s.mul(q.b.xy)).add(p.b.yz.mul(q.b.xz)).sub(
            p.b.xz.mul(q.b.yz),
        );
        let xz = p.b.xz.mul(q.s).add(p.s.mul(q.b.xz)).sub(p.b.yz.mul(q.b.xy)).add(
            p.b.xy.mul(q.b.yz),
        );
        let yz = p.b.yz.mul(q.s).add(p.s.mul(q.b.yz)).add(p.b.xz.mul(q.b.xy)).sub(
            p.b.xy.mul(q.b.xz),
        );
        let raw = Rotor { b: Bivector { xy, xz, yz }, s };
        raw.normalized()
    }

    /// A normalized copy of this rotor.
    pub fn normalized(&self) -> (r: Self)
        requires
            rotor_bounded(*self),
            rotor_mag_sq_spec(*self) >= 1,
        ensures
            r == rotor_normalized_spec(*self),
    {
        let mut normalized = *self;
        normalized.normalize();
        normalized
    }

    /// Normalize this rotor in place: divide every component by the
    /// magnitude.
    pub fn normalize(&mut self)
        requires
            rotor_bounded(*old(self)),
            rotor_mag_sq_spec(*old(self)) >= 1,
        ensures
            *final(self) == rotor_normalized_spec(*old(self)),
    {
        proof {
            lemma_rotor_normalize_fits(*self);
        }
        let magnitude = self.magnitude();
        self.s = self.s.div(magnitude);
        self.b.xy = self.b.xy.div(magnitude);
        self.b.xz = self.b.xz.div(magnitude);
        self.b.yz = self.b.yz.div(magnitude);
    }

    /// The magnitude of this rotor.
    pub fn magnitude(&self) -> (r: Fixed)
        requires
            rotor_bounded(*self),
        ensures
            r@ == rotor_mag_spec(*self),
            is_sqrt_of(r@, rotor_mag_sq_spec(*self) * (FIXED_DECIMAL as int)),
    {
        proof {
            lemma_rotor_mag_sq_dominates(*self);
        }
        self.magnitude_sq().sqrt()
    }

    /// The squared magnitude of this rotor: slightly faster than the
    /// magnitude.
    pub fn magnitude_sq(&self) -> (r: Fixed)
        requires
            rotor_bounded(*self),
        ensures
            r@ == rotor_mag_sq_spec(*self),
            r@ >= 0,
    {
        proof {
            lemma_rmul_bounded(self.b.xy@, self.b.xy@);
            lemma_rmul_bounded(self.b.xz@, self.b.xz@);
            lemma_rmul_bounded(self.b.yz@, self.b.yz@);
            lemma_rmul_bounded(self.s@, self.s@);
            lemma_rotor_mag_sq_dominates(*self);
        }
        self.b.xy.mul(self.b.xy).add(self.b.xz.mul(self.b.xz)).add(self.b.yz.mul(self.b.yz)).add(
            self.s.mul(self.s),
        )
    }

    /// The reverse (conjugate) of this rotor: the inverse rotation.
    pub fn reversed(&self) -> (r: Self)
        requires
            self.b.xy@ != i64::MIN,
            self.b.xz@ != i64::MIN,
            self.b.yz@ != i64::MIN,
        ensures
            r == rotor_reversed_spec(*self),
    {
        let mut reversed = *self;
        reversed.reverse();
        reversed
    }

    /// Reverse this rotor in place: negate the bivector part.
    pub fn reverse(&mut self)
        requires
            old(self).b.xy@ != i64::MIN,
            old(self).b.xz@ != i64::MIN,
            old(self).b.yz@ != i64::MIN,
        ensures
            *final(self) == rotor_reversed_spec(*old(self)),
    {
        self.b.xy = self.b.xy.neg();
        self.b.xz = self.b.xz.neg();
        self.b.yz = self.b.yz.neg();
    }
}

/// The normalized direction of `to`, negated.
pub open spec fn opposite_dir_spec(from: Vector, to: Vector) -> Vector {
    let n = normalized_spec(to);
    Vector { x: Fixed((-n.x@) as i64), y: Fixed((-n.y@) as i64), z: Fixed((-n.z@) as i64) }
}

/// The rotor construction between two directions, following the branch the
/// computation takes: opposite directions get a half turn about an
/// orthogonal axis, any other pair the normalized wedge-and-dot rotor.
pub open spec fn from_rotation_spec(from: Vector, to: Vector) -> Rotor {
    let tn = normalized_spec(to);
    let fnv = normalized_spec(from);
    if fnv == opposite_dir_spec(from, to) {
        let axis = normalized_spec(orthogonal_spec(fnv));
        rotor_normalized_spec(
            Rotor { b: Bivector { xy: axis.z, xz: axis.y, yz: axis.x }, s: Fixed(0) },
        )
    } else {
        let raw = Rotor {
            b: crate::bivec::wedge_spec(tn, fnv),
            s: Fixed((FIXED_DECIMAL as int + dot_spec(tn, fnv)) as i64),
        };
        rotor_normalized_spec(raw)
    }
}

/// The inputs on which `from_rotation_between_vectors` is defined: both
/// directions normalizable, and the branch taken has a normalizable result.
pub open spec fn from_rotation_req(from: Vector, to: Vector) -> bool {
    let tn = normalized_spec(to);
    let fnv = normalized_spec(from);
    &&& vec_bounded(from)
    &&& vec_bounded(to)
    &&& dot_spec(from, from) >= 1
    &&& dot_spec(to, to) >= 1
    &&& if fnv == opposite_dir_spec(from, to) {
        let orth = orthogonal_spec(fnv);
        let axis = normalized_spec(orth);
        let raw = Rotor { b: Bivector { xy: axis.z, xz: axis.y, yz: axis.x }, s: Fixed(0) };
        &&& dot_spec(orth, orth) >= 1
        &&& rotor_mag_sq_spec(raw) >= 1
    } else {
        let raw = Rotor {
            b: crate::bivec::wedge_spec(tn, fnv),
            s: Fixed((FIXED_DECIMAL as int + dot_spec(tn, fnv)) as i64),
        };
        rotor_mag_sq_spec(raw) >= 1
    }
}

impl Default for Rotor {
    /// The identity rotor.
    fn default() -> (r: Self)
        ensures
            r.b == (Bivector { xy: Fixed(0), xz: Fixed(0), yz: Fixed(0) }),
            r.s@ == FIXED_DECIMAL as int,
    {
        Rotor::identity()
    }
}

impl crate::traits::Approximately for Rotor {
    open spec fn approx_spec(&self, other: Rotor, epsilon: Fixed) -> bool {
        &&& mag(self.s@ - other.s@) <= epsilon@
        &&& self.b.approx_spec(other.b, epsilon)
    }

    fn approximately(&self, other: Rotor, epsilon: Fixed) -> (r: bool) {
        self.s.approximately(other.s, epsilon) && self.b.approximately(other.b, epsilon)
    }
}

/// Rotate a vector by a rotor: the whole sandwich product in the wide
/// accumulator, narrowed once per component.
#[verifier::rlimit(60)]
pub fn rotate_vector(rotor: &Rotor, vector: &mut Vector)
    requires
        rotor_near_unit(*rotor),
        vec_bounded(*old(vector)),
    ensures
        *final(vector) == rotate_spec(*rotor, *old(vector)),
{
    let rots = FullFixed::from_fixed(rotor.s);
    let rbxy = FullFixed::from_fixed(rotor.b.xy);
    let rbyz = FullFixed::from_fixed(rotor.b.yz);
    let rbxz = FullFixed::from_fixed(rotor.b.xz);
    let vx = FullFixed::from_fixed(vector.x);
    let vy = FullFixed::from_fixed(vector.y);
    let vz = FullFixed::from_fixed(vector.z);
    proof {
        lemma_wmul_stage1(rots@, vx@);
        lemma_wmul_stage1(rots@, vy@);
        lemma_wmul_stage1(rots@, vz@);
        lemma_wmul_stage1(rbxy@, vx@);
        lemma_wmul_stage1(rbxy@, vy@);
        lemma_wmul_stage1(rbxz@, vx@);
        lemma_wmul_stage1(rbxz@, vz@);
        lemma_wmul_stage1(rbyz@, vy@);
        lemma_wmul_stage1(rbyz@, vz@);
        lemma_wmul_stage1(rbxy@, vz@);
        lemma_wmul_stage1(rbxz@, vy@);
        lemma_wmul_stage1(rbyz@, vx@);
    }
    let qx = rots.mul(vx).add(vy.mul(rbxy)).add(vz.mul(rbxz));
    let qy = rots.mul(vy).sub(vx.mul(rbxy)).add(vz.mul(rbyz));
    let qz = rots.mul(vz).sub(vx.mul(rbxz)).sub(vy.mul(rbyz));
    let t = vx.mul(rbyz).sub(vy.mul(rbxz)).add(vz.mul(rbxy));
    proof {
        lemma_wmul_stage2(rots@, qx@);
        lemma_wmul_stage2(rots@, qy@);
        lemma_wmul_stage2(rots@, qz@);
        lemma_wmul_stage2(rbxy@, qx@);
        lemma_wmul_stage2(rbxy@, qy@);
        lemma_wmul_stage2(rbxz@, qx@);
        lemma_wmul_stage2(rbxz@, t@);
        lemma_wmul_stage2(rbyz@, qy@);
        lemma_wmul_stage2(rbyz@, qz@);
        lemma_wmul_stage2(rbxy@, t@);
        lemma_wmul_stage2(rbxz@, qz@);
        lemma_wmul_stage2(rbyz@, t@);
        lemma_wmul_stage2(rbxy@, qz@);
        lemma_wmul_stage2(rbxz@, qy@);
        lemma_wmul_stage2(rbyz@, qx@);
    }
    let nx = rots.mul(qx).add(qy.mul(rbxy)).add(qz.mul(rbxz)).add(t.mul(rbyz));
    let ny = rots.mul(qy).sub(qx.mul(rbxy)).sub(t.mul(rbxz)).add(qz.mul(rbyz));
    let nz = rots.mul(qz).add(t.mul(rbxy)).sub(qx.mul(rbxz)).sub(qy.mul(rbyz));
    proof {
        lemma_tdiv_le_self(nx@, 10);
        lemma_tdiv_le_self(ny@, 10);
        lemma_tdiv_le_self(nz@, 10);
    }
    *vector = Vector {
        x: Fixed::from_full(nx),
        y: Fixed::from_full(ny),
        z: Fixed::from_full(nz),
    };
}

/// A first-stage wide product of a near-unit rotor component and a budgeted
/// vector component.
proof fn lemma_wmul_stage1(a: int, b: int)
    requires
        mag(a) <= 2000000,
        mag(b) <= 5000000000000,
    ensures
        mag(spec_wide_mul(a, b)) <= 10000000000000,
        mag(spec_wide_mul(b, a)) <= 10000000000000,
        mag(a * b) <= 10000000000000000000,
{
    lemma_mag_mul_bound(a, b, 2000000, 5000000000000);
    lemma_mag_mul_bound(b, a, 5000000000000, 2000000);
    lemma_tdiv_bound(a * b, 1000000, 10000000000000000000);
    lemma_tdiv_bound(b * a, 1000000, 10000000000000000000);
}

/// A second-stage wide product of a near-unit rotor component and a
/// first-stage sum.
proof fn lemma_wmul_stage2(a: int, b: int)
    requires
        mag(a) <= 2000000,
        mag(b) <= 30000000000000,
    ensures
        mag(spec_wide_mul(a, b)) <= 60000000000000,
        mag(spec_wide_mul(b, a)) <= 60000000000000,
        mag(a * b) <= 60000000000000000000,
{
    lemma_mag_mul_bound(a, b, 2000000, 30000000000000);
    lemma_mag_mul_bound(b, a, 30000000000000, 2000000);
    lemma_tdiv_bound(a * b, 1000000, 60000000000000000000);
    lemma_tdiv_bound(b * a, 1000000, 60000000000000000000);
}

/// The rotation by `angle` radians in the given normalized plane.
pub fn from_angle_and_plane(angle: Fixed, plane: Bivector) -> (r: Rotor)
    requires
        from_angle_req(angle, plane),
    ensures
        r == from_angle_spec(angle, plane),
{
    proof {
        lemma_mag_mul_bound(angle@, 500000, 0x8000000000000000, 500000);
    }
    let half = (angle.0 as i128) * 500000;
    let sina = Fixed(sin_core(half));
    let cosa = Fixed(sin_core(half + HALF_PI_E11));
    proof {
        lemma_mag_mul_bound(-sina@, plane.xy@, 100000, ROTOR_UNIT_LIMIT as int);
        lemma_mag_mul_bound(-sina@, plane.xz@, 100000, ROTOR_UNIT_LIMIT as int);
        lemma_mag_mul_bound(-sina@, plane.yz@, 100000, ROTOR_UNIT_LIMIT as int);
        lemma_tdiv_bound(-sina@ * plane.xy@, FIXED_DECIMAL as int, 20000000000);
        lemma_tdiv_bound(-sina@ * plane.xz@, FIXED_DECIMAL as int, 20000000000);
        lemma_tdiv_bound(-sina@ * plane.yz@, FIXED_DECIMAL as int, 20000000000);
    }
    let nsina = Fixed(-sina.0);
    let bv = Bivector {
        xy: nsina.mul(plane.xy),
        xz: nsina.mul(plane.xz),
        yz: nsina.mul(plane.yz),
    };
    let raw = Rotor { b: bv, s: cosa };
    raw.normalized()
}

/// The wedge and dot of two near-unit vectors keep every raw rotor
/// component small.
proof fn lemma_wedge_of_units_bounded(u: Vector, v: Vector)
    requires
        mag(u.x@) <= 3200000,
        mag(u.y@) <= 3200000,
        mag(u.z@) <= 3200000,
        mag(v.x@) <= 3200000,
        mag(v.y@) <= 3200000,
        mag(v.z@) <= 3200000,
    ensures
        mag(crate::bivec::wedge_spec(u, v).xy@) <= 204800000,
        mag(crate::bivec::wedge_spec(u, v).xz@) <= 204800000,
        mag(crate::bivec::wedge_spec(u, v).yz@) <= 204800000,
        mag(dot_spec(u, v)) <= 307200000,
        fits64(FIXED_DECIMAL as int + dot_spec(u, v)),
{
    lemma_mag_mul_bound(u.x@, v.y@, 3200000, 3200000);
    lemma_mag_mul_bound(u.y@, v.x@, 3200000, 3200000);
    lemma_mag_mul_bound(u.x@, v.z@, 3200000, 3200000);
    lemma_mag_mul_bound(u.z@, v.x@, 3200000, 3200000);
    lemma_mag_mul_bound(u.y@, v.z@, 3200000, 3200000);
    lemma_mag_mul_bound(u.z@, v.y@, 3200000, 3200000);
    lemma_mag_mul_bound(u.x@, v.x@, 3200000, 3200000);
    lemma_mag_mul_bound(u.y@, v.y@, 3200000, 3200000);
    lemma_mag_mul_bound(u.z@, v.z@, 3200000, 3200000);
    lemma_tdiv_bound(u.x@ * v.y@, FIXED_DECIMAL as int, 10240000000000);
    lemma_tdiv_bound(u.y@ * v.x@, FIXED_DECIMAL as int, 10240000000000);
    lemma_tdiv_bound(u.x@ * v.z@, FIXED_DECIMAL as int, 10240000000000);
    lemma_tdiv_bound(u.z@ * v.x@, FIXED_DECIMAL as int, 10240000000000);
    lemma_tdiv_bound(u.y@ * v.z@, FIXED_DECIMAL as int, 10240000000000);
    lemma_tdiv_bound(u.z@ * v.y@, FIXED_DECIMAL as int, 10240000000000);
    lemma_tdiv_bound(u.x@ * v.x@, FIXED_DECIMAL as int, 10240000000000);
    lemma_tdiv_bound(u.y@ * v.y@, FIXED_DECIMAL as int, 10240000000000);
    lemma_tdiv_bound(u.z@ * v.z@, FIXED_DECIMAL as int, 10240000000000);
}

} // verus!
