//! The error taxonomy of the pipeline.  Per-item failures are absorbed by
//! callers ("skip and continue"); only total absence of usable input is
//! terminal.

use vstd::prelude::*;

verus! {

/// Why one call to the source provider failed.  All three are handled the
/// same way: the item is skipped, the run goes on.
#[derive(Clone, Copy, Debug, PartialEq, Eq, Structural)]
pub enum FetchError {
    /// The resource is absent upstream.
    NotFound,
    /// The upstream throttled the call.
    RateLimited,
    /// The transport failed or the response was not usable.
    TransportError,
    /// The upstream answered with an unexpected shape.
    MalformedResponse,
}

/// Why one embedding call failed.
#[derive(Clone, Copy, Debug, PartialEq, Eq, Structural)]
pub enum EmbedError {
    /// No API key is configured: every embedding call fails at once.
    MissingCredential,
    /// The transport failed.
    Transport,
    /// The upstream answered without a vector.
    EmptyResponse,
}

/// The one terminal failure of a profiling run.
#[derive(Clone, Copy, Debug, PartialEq, Eq, Structural)]
pub enum HarvestError {
    /// Not a single file could be harvested: no profile can be built.
    NoUsableInput,
}

impl FetchError {
    /// A short description of the failure.
    pub fn message(&self) -> (r: &'static str)
        ensures
            (*self == FetchError::NotFound) ==> r@ == "not found"@,
            (*self == FetchError::RateLimited) ==> r@ == "rate limited"@,
            (*self == FetchError::TransportError) ==> r@ == "transport error"@,
            (*self == FetchError::MalformedResponse) ==> r@ == "malformed response"@,
    {
        match self {
            FetchError::NotFound => "not found",
            FetchError::RateLimited => "rate limited",
            FetchError::TransportError => "transport error",
            FetchError::MalformedResponse => "malformed response",
        }
    }
}

impl EmbedError {
    /// A short description of the failure.
    pub fn message(&self) -> (r: &'static str)
        ensures
            (*self == EmbedError::MissingCredential) ==> r@ == "missing credential"@,
            (*self == EmbedError::Transport) ==> r@ == "transport error"@,
            (*self == EmbedError::EmptyResponse) ==> r@ == "empty response"@,
    {
        match self {
            EmbedError::MissingCredential => "missing credential",
            EmbedError::Transport => "transport error",
            EmbedError::EmptyResponse => "empty response",
        }
    }
}

impl HarvestError {
    /// A short description of the failure.
    pub fn message(&self) -> (r: &'static str)
        ensures
            r@ == "no usable input harvested"@,
    {
        match self {
            HarvestError::NoUsableInput => "no usable input harvested",
        }
    }
}

} // verus!
