//! The facade: one backend and the policy for its failures.

use vstd::prelude::*;
use std::time::Duration;
use crate::backend::StorageBackend;
use crate::error::RateLimitError;
use crate::time::duration_nanos;

verus! {

/// The answer to one check.
#[derive(Debug, PartialEq)]
pub enum LimitResult {
    /// The request may proceed.
    Allowed,
    /// The request is turned away; `retry_after` says when to come back.
    Denied { retry_after: Duration },
}

/// The decision that the facade owes for a backend's `reply`.
///
/// An admission is allowed and a refusal is denied with a hint of one
/// second. A failure of the backend is allowed under `fail_open` and handed
/// on unchanged otherwise.
pub open spec fn decision_for(
    fail_open: bool,
    reply: Result<bool, RateLimitError>,
    decision: Result<LimitResult, RateLimitError>,
) -> bool {
    match reply {
        Ok(true) => decision == Ok::<LimitResult, RateLimitError>(LimitResult::Allowed),
        Ok(false) => decision matches Ok(LimitResult::Denied { retry_after })
            && duration_nanos(retry_after) == 1_000_000_000,
        Err(e) => if fail_open {
            decision == Ok::<LimitResult, RateLimitError>(LimitResult::Allowed)
        } else {
            decision == Err::<LimitResult, RateLimitError>(e)
        },
    }
}

/// Turns a backend's `reply` into the decision that `decision_for` describes.
pub fn decide(fail_open: bool, reply: Result<bool, RateLimitError>) -> (decision: Result<
    LimitResult,
    RateLimitError,
>)
    ensures
        decision_for(fail_open, reply, decision),
{
    match reply {
        Ok(true) => Ok(LimitResult::Allowed),
        Ok(false) => Ok(LimitResult::Denied { retry_after: Duration::from_secs(1) }),
        Err(e) => {
            if fail_open {
                Ok(LimitResult::Allowed)
            } else {
                Err(e)
            }
        },
    }
}

/// The failure that a limiter let pass: the backend's error where the
/// limiter fails open, nothing otherwise.
pub open spec fn passed_over(fail_open: bool, reply: Result<bool, RateLimitError>) -> Option<
    RateLimitError,
> {
    match reply {
        Err(e) => if fail_open {
            Some(e)
        } else {
            None
        },
        Ok(_) => None,
    }
}

/// A backend together with the policy for its failures.
pub struct RateLimiter<B: StorageBackend> {
    backend: B,
    fail_open: bool,
    warning: Option<RateLimitError>,
}

impl<B: StorageBackend> RateLimiter<B> {
    /// The backend that the limiter asks.
    pub closed spec fn backend(&self) -> B {
        self.backend
    }

    /// Whether a failure of the backend admits the request.
    pub closed spec fn fail_open(&self) -> bool {
        self.fail_open
    }

    /// The last failure of the backend that the limiter let pass and that
    /// nobody has taken note of yet.
    pub closed spec fn warning(&self) -> Option<RateLimitError> {
        self.warning
    }

    /// A limiter over `backend` that fails open or closed as `fail_open`
    /// says.
    pub fn new(backend: B, fail_open: bool) -> (limiter: Self)
        ensures
            limiter.backend() == backend,
            limiter.fail_open() == fail_open,
            limiter.warning() is None,
    {
        RateLimiter { backend, fail_open, warning: None }
    }

    /// Hands out the failure that the limiter last let pass, if there is one
    /// that was not handed out before.
    pub fn take_warning(&mut self) -> (warning: Option<RateLimitError>)
        ensures
            warning == old(self).warning(),
            final(self).warning() is None,
            final(self).backend() == old(self).backend(),
            final(self).fail_open() == old(self).fail_open(),
    {
        self.warning.take()
    }

    /// What `check_limit` may do: the backend was asked once for `cost`
    /// tokens of `client_id`, the decision is the one owed for its reply, and
    /// a failure that was let pass is kept as the limiter's warning.
    pub open spec fn check_limit_spec(
        &self,
        after: &Self,
        client_id: &str,
        cost: u64,
        decision: Result<LimitResult, RateLimitError>,
    ) -> bool {
        &&& after.fail_open() == self.fail_open()
        &&& exists|reply: Result<bool, RateLimitError>|
            {
                &&& #[trigger] self.backend().take_token_spec(
                    &after.backend(),
                    client_id,
                    cost,
                    reply,
                )
                &&& decision_for(self.fail_open(), reply, decision)
                &&& after.warning() == match passed_over(self.fail_open(), reply) {
                    Some(e) => Some(e),
                    None => self.warning(),
                }
            }
    }

    /// Decides whether a request of `cost` by `client_id` may proceed.
    ///
    /// A limiter that fails open never returns an error; the failure that it
    /// lets pass waits in `take_warning`.
    pub fn check_limit(&mut self, client_id: &str, cost: u64) -> (decision: Result<
        LimitResult,
        RateLimitError,
    >)
        ensures
            old(self).check_limit_spec(final(self), client_id, cost, decision),
            old(self).fail_open() ==> decision is Ok,
    {
        let reply = self.backend.take_token(client_id, cost);
        let ghost seen = reply;
        let decision = match reply {
            Err(e) => {
                if self.fail_open {
                    self.warning = Some(e);
                    Ok(LimitResult::Allowed)
                } else {
                    Err(e)
                }
            },
            Ok(admitted) => decide(self.fail_open, Ok(admitted)),
        };
        assert(old(self).backend().take_token_spec(&self.backend(), client_id, cost, seen));
        decision
    }

    /// The tokens of `client_id` in use, as the backend reports them; its
    /// failure is handed on whatever the policy.
    pub fn get_usage(&mut self, client_id: &str) -> (outcome: Result<u64, RateLimitError>)
        ensures
            final(self).fail_open() == old(self).fail_open(),
            final(self).warning() == old(self).warning(),
            old(self).backend().get_usage_spec(&final(self).backend(), client_id, outcome),
    {
        self.backend.get_usage(client_id)
    }
}

} // verus!
