//! The interface between the facade and whatever keeps the buckets.

use vstd::prelude::*;
use crate::error::RateLimitError;

verus! {

/// A store of token buckets, one per client key.
///
/// An implementation says in its three relations what a call may do: each
/// relation holds of the backend before the call, the backend after it, the
/// arguments and the answer. Code that is generic in the backend is proved
/// against these relations and knows nothing else of the answer. A backend
/// that states no relation of its own allows every answer.
pub trait StorageBackend: Sized {
    /// What `take_token` may do.
    open spec fn take_token_spec(
        &self,
        after: &Self,
        key: &str,
        cost: u64,
        outcome: Result<bool, RateLimitError>,
    ) -> bool {
        true
    }

    /// What `get_usage` may do.
    open spec fn get_usage_spec(
        &self,
        after: &Self,
        key: &str,
        outcome: Result<u64, RateLimitError>,
    ) -> bool {
        true
    }

    /// What `reset` may do.
    open spec fn reset_spec(
        &self,
        after: &Self,
        key: &str,
        outcome: Result<(), RateLimitError>,
    ) -> bool {
        true
    }

    /// Asks for `cost` tokens of the bucket of `key`: `Ok(true)` where they
    /// were drawn, `Ok(false)` where the bucket lacks them.
    fn take_token(&mut self, key: &str, cost: u64) -> (outcome: Result<bool, RateLimitError>)
        ensures
            old(self).take_token_spec(final(self), key, cost, outcome),
    ;

    /// The tokens of `key` that are in use: the capacity less what is on
    /// offer.
    fn get_usage(&mut self, key: &str) -> (outcome: Result<u64, RateLimitError>)
        ensures
            old(self).get_usage_spec(final(self), key, outcome),
    ;

    /// Forgets the bucket of `key`; the next request finds a full one.
    fn reset(&mut self, key: &str) -> (outcome: Result<(), RateLimitError>)
        ensures
            old(self).reset_spec(final(self), key, outcome),
    ;
}

} // verus!
