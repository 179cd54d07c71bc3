//! Various useful constants, rounded once onto the fixed-point grid.

use crate::fixed::Fixed;
use vstd::prelude::*;

verus! {

/// Pi, the half turn in radians, on the stored grid.
pub fn pi() -> (r: Fixed)
    ensures
        r@ == 314159,
{
    Fixed(314159)
}

/// Euler's number on the stored grid.
pub fn e() -> (r: Fixed)
    ensures
        r@ == 271828,
{
    Fixed(271828)
}

/// Phi, the golden ratio, on the stored grid.
pub fn phi() -> (r: Fixed)
    ensures
        r@ == 161803,
{
    Fixed(161803)
}

/// Pi over 180: degrees to radians, on the stored grid.
pub fn deg2rad() -> (r: Fixed)
    ensures
        r@ == 1745,
{
    Fixed(1745)
}

/// 180 over pi: radians to degrees, on the stored grid.
pub fn rad2deg() -> (r: Fixed)
    ensures
        r@ == 5729578,
{
    Fixed(5729578)
}

} // verus!
