//! The error taxonomy of the library.

use vstd::prelude::*;

verus! {

/// An error of the aggregation engine.
///
/// Every fallible function of the library says in its contract exactly
/// which variant it returns and on which inputs.
#[derive(Debug, PartialEq, Eq)]
pub enum StatsError {
    /// A network or HTTP failure, reported by the transport adapter.
    Transport,
    /// A response body that did not match the expected shape,
    /// for instance a creation timestamp that is not valid RFC 3339 text.
    Decode,
    /// A value that breaks a structural assumption about the remote API,
    /// for instance a pull-request URL with too few path segments.
    InvariantViolation,
    /// A missing required configuration input, such as a credential.
    Configuration,
    /// A template marker that was not found while updating a document.
    MarkerNotFound,
}

impl StatsError {
    /// A short human-readable description of the error.
    pub fn message(&self) -> (r: &'static str)
        ensures
            r@.len() > 0,
    {
        proof {
            reveal_strlit("transport failure");
            reveal_strlit("malformed response body");
            reveal_strlit("remote API shape changed");
            reveal_strlit("missing configuration");
            reveal_strlit("template marker not found");
        }
        match self {
            StatsError::Transport => "transport failure",
            StatsError::Decode => "malformed response body",
            StatsError::InvariantViolation => "remote API shape changed",
            StatsError::Configuration => "missing configuration",
            StatsError::MarkerNotFound => "template marker not found",
        }
    }
}

} // verus!
