//! Error kinds surfaced by the ingestion core.
//!
//! A single fetch attempt can fail in three retryable ways; once the retry
//! budget is spent the last of them is wrapped in `RetriesExhausted`.
//! Store-side and configuration failures are never retried.

use vstd::prelude::*;

verus! {

/// One failed fetch attempt: these three kinds are retried automatically.
#[derive(Debug, Clone, PartialEq)]
pub enum FetchFailure {
    /// Connection-level failure before any HTTP status was seen.
    Transport(String),
    /// A response arrived with a non-2xx status code.
    HttpStatus(u16),
    /// The response body did not match the expected schema.
    Decode(String),
}

/// An error surfaced by the ingestion core.
#[derive(Debug, Clone, PartialEq)]
pub enum Error {
    /// Connection-level failure (retried while budget remains).
    Transport(String),
    /// Non-2xx HTTP status (retried while budget remains).
    HttpStatus(u16),
    /// Response-schema mismatch (retried while budget remains).
    Decode(String),
    /// Every attempt failed; holds the last observed failure.
    RetriesExhausted(FetchFailure),
    /// Store-side failure during an upsert; never retried.
    Load(String),
    /// Missing credential or required parameter; detected before any
    /// network call and never retried.
    Config(String),
}

impl Error {
    /// Whether the per-request retry loop retries this kind.
    pub open spec fn spec_is_retryable(self) -> bool {
        match self {
            Error::Transport(_) => true,
            Error::HttpStatus(_) => true,
            Error::Decode(_) => true,
            _ => false,
        }
    }

    /// Whether the per-request retry loop retries this kind.
    pub fn is_retryable(&self) -> (r: bool)
        ensures
            r == self.spec_is_retryable(),
    {
        match self {
            Error::Transport(_) => true,
            Error::HttpStatus(_) => true,
            Error::Decode(_) => true,
            _ => false,
        }
    }

    /// Promote a single-attempt failure to the matching error kind.
    pub fn from_fetch_failure(f: FetchFailure) -> (r: Error)
        ensures
            r == spec_error_of_failure(f),
    {
        match f {
            FetchFailure::Transport(m) => Error::Transport(m),
            FetchFailure::HttpStatus(s) => Error::HttpStatus(s),
            FetchFailure::Decode(m) => Error::Decode(m),
        }
    }
}

/// The error kind corresponding to one fetch failure.
pub open spec fn spec_error_of_failure(f: FetchFailure) -> Error {
    match f {
        FetchFailure::Transport(m) => Error::Transport(m),
        FetchFailure::HttpStatus(s) => Error::HttpStatus(s),
        FetchFailure::Decode(m) => Error::Decode(m),
    }
}

} // verus!
