use vstd::prelude::*;

verus! {

/// Failure taxonomy of the control core.
///
/// `ConfigurationError` is raised at construction or start time: invalid
/// subaperture bounds, zero subapertures, inconsistent wiring, or starting a
/// loop that is already running.  `DimensionError` is raised when a vector or
/// matrix has the wrong length or shape; a rejected call leaves all owned
/// state unchanged.  `NumericAnomaly` is raised when a value lies outside the
/// documented fixed-point range, so that no arithmetic step can overflow.
#[derive(Clone, Copy, Debug, PartialEq, Eq, Structural)]
pub enum AoError {
    ConfigurationError,
    DimensionError,
    NumericAnomaly,
}

} // verus!
