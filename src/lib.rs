use vstd::prelude::*;

pub mod order;
pub mod stats;
pub mod var;
pub mod series;
pub mod fetch;

verus! {

/// The failures that the estimators and the return-series pipeline report.
#[derive(Clone, Copy, Debug, PartialEq, Eq, Structural)]
pub enum RiskError {
    /// An empty return series, or a confidence level outside (0, 1).
    InvalidParameter,
    /// A method selector that names none of the estimators.
    InvalidMethod,
    /// Both price sources failed, or the fallback source reported an error.
    UpstreamError,
    /// The credential that the fallback source needs is missing.
    ConfigurationError,
    /// An upstream payload could not be decoded.
    DecodeError,
}

} // verus!
