//! The error type shared by every backend and by the facade.

use vstd::prelude::*;
use vstd::string::StringExecFns;

verus! {

/// What can go wrong while a limit is evaluated.
///
/// A bucket that lacks tokens reports `LimitExceeded`; the backends turn that
/// into a plain denial, so callers of a backend see it only where a wrapper
/// chooses to pass it on.
#[derive(Debug)]
pub enum RateLimitError {
    /// The bucket named by the payload cannot cover the requested cost.
    LimitExceeded(String),
    /// The store behind a backend could not be reached or answered badly.
    StorageError(String),
    /// The limiter was set up with values it cannot work with.
    ConfigError(String),
}

impl RateLimitError {
    /// The text that `message` puts before the payload of each variant.
    pub open spec fn prefix(self) -> Seq<char> {
        match self {
            RateLimitError::LimitExceeded(_) => "Rate limit exceeded for key: "@,
            RateLimitError::StorageError(_) => "Storage backend error: "@,
            RateLimitError::ConfigError(_) => "Invalid configuration: "@,
        }
    }

    /// The payload carried by the variant.
    pub open spec fn detail(self) -> Seq<char> {
        match self {
            RateLimitError::LimitExceeded(s) => s@,
            RateLimitError::StorageError(s) => s@,
            RateLimitError::ConfigError(s) => s@,
        }
    }

    /// The human-readable form of the error: the variant's prefix followed by
    /// its payload.
    pub fn message(&self) -> (text: String)
        ensures
            text@ == self.prefix() + self.detail(),
    {
        match self {
            RateLimitError::LimitExceeded(s) => {
                String::from_str("Rate limit exceeded for key: ").concat(s.as_str())
            },
            RateLimitError::StorageError(s) => {
                String::from_str("Storage backend error: ").concat(s.as_str())
            },
            RateLimitError::ConfigError(s) => {
                String::from_str("Invalid configuration: ").concat(s.as_str())
            },
        }
    }
}

} // verus!
