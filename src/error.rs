use vstd::prelude::*;

verus! {

/// The ways in which building or comparing embedding spaces fails.
#[derive(Clone, Copy, Debug, PartialEq, Eq, Structural)]
pub enum BiasError {
    /// A space was built from no tokens.
    EmptySpace,
    /// A calculator was given no group space.
    InsufficientGroups,
    /// Two vectors that are compared have different lengths.
    DimensionMismatch,
    /// A principal component reduction could not be fitted.
    Reduction,
    /// Normalisation across values that do not vary.
    DegenerateDistribution,
    /// A computation produced a value that is not a finite number.
    NonFinite,
}

} // verus!
