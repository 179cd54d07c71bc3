//! A math toolkit for 3D geometry built on a deterministic fixed-point
//! scalar.
//!
//! The numeric core is [`fixed::Fixed`], a fixed-point number stored as a
//! signed 64-bit integer scaled by a power of ten. Every arithmetic
//! operation promotes to the wider [`fixed::FullFixed`] accumulator,
//! computes with headroom, and narrows back, so results are bit-identical
//! across platforms. The geometry layer (vectors, points, bivectors,
//! rotors, matrices, planes, lines, spheres) is built entirely on that
//! scalar.

pub mod arith;
pub mod fixed;
pub mod trig;
pub mod traits;
pub mod constant;
pub mod vec;
pub mod bivec;
pub mod point;
pub mod rotor;
pub mod line;
pub mod segment;
pub mod plane;
pub mod circle;
pub mod sphere;
pub mod matrix;
pub mod integrate;

pub use point::Point;
pub use traits::Approximately;
pub use traits::Coincident;
pub use traits::Distance;
pub use traits::FloatExt;
pub use traits::FromLossy;
pub use traits::Intersects;
pub use traits::Numeric;
pub use traits::Parallel;
pub use traits::Zero;
pub use vec::Vector;

use vstd::prelude::*;

verus! {

/// The scalar type of the library: the deterministic fixed-point number.
pub type Float = crate::fixed::Fixed;

/// The integer type matching the scalar's storage.
pub type Int = i64;

/// The unsigned type matching the scalar's storage.
pub type Unsigned = u64;

} // verus!
