//! Integration.

use vstd::prelude::*;

verus! {

/// A numeric integrator: computes the accumulated output of a function
/// over an input interval.
pub trait Integrator {
    /// The domain of integration.
    type Input;

    /// The accumulated result.
    type Output;

    /// Integrate `func` from `from` to `to`.
    fn integrate<F: Fn(Self::Input) -> Self::Output>(from: Self::Input, to: Self::Input, func: F) -> Self::Output;
}

} // verus!
