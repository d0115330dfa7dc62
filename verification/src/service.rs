//! What the network service decides once a request has been taken out of
//! its envelope: which key and cost a check is for, what the caller is told,
//! and what a caller who is willing to wait does next.

use vstd::prelude::*;
use std::time::Duration;
use crate::backend::StorageBackend;
use crate::bucket::TokenBucketConfig;
use crate::error::RateLimitError;
use crate::limiter::{LimitResult, RateLimiter};
use crate::memory::MemoryBackend;
use crate::time::duration_secs;

verus! {

/// The cost that a check is made with: a request that names none costs one
/// token.
pub open spec fn effective_cost_spec(cost: u32) -> u64 {
    if cost == 0 {
        1
    } else {
        cost as u64
    }
}

/// The cost that a check is made with.
pub fn effective_cost(cost: u32) -> (c: u64)
    ensures
        c == effective_cost_spec(cost),
{
    if cost == 0 {
        1
    } else {
        cost as u64
    }
}

/// The key that a check is made for: a caller without a name is
/// `anonymous`.
pub open spec fn effective_client_id_spec(client_id: Seq<char>) -> Seq<char> {
    if client_id.len() == 0 {
        "anonymous"@
    } else {
        client_id
    }
}

/// The key that a check is made for.
pub fn effective_client_id<'a>(client_id: &'a str) -> (id: &'a str)
    ensures
        id@ == effective_client_id_spec(client_id@),
{
    if client_id.is_empty() {
        "anonymous"
    } else {
        client_id
    }
}

/// The key for a request whose envelope may lack the client's name: the name
/// as it was sent, `anonymous` where none was sent.
pub fn client_id_from_metadata<'a>(value: Option<&'a str>) -> (id: &'a str)
    ensures
        id@ == match value {
            Some(sent) => sent@,
            None => "anonymous"@,
        },
{
    match value {
        Some(sent) => sent,
        None => "anonymous",
    }
}

/// The tokens that remain of `capacity` when `used` are in use; none where
/// more are in use than the capacity holds.
pub fn remaining_tokens(capacity: u64, used: u64) -> (remaining: u64)
    ensures
        remaining == if used <= capacity {
            capacity - used
        } else {
            0
        },
{
    if used <= capacity {
        capacity - used
    } else {
        0
    }
}

/// What the caller of a check is told.
#[derive(Debug, Clone, Copy)]
pub struct LimitCheckResult {
    pub allowed: bool,
    /// Seconds to wait before the next try; 0 for an allowed request.
    pub retry_after_seconds: u32,
    /// Not reported by the service; always 0.
    pub remaining_tokens: u64,
}

impl LimitCheckResult {
    /// The report of `decision`. The hint is given in whole seconds and, like
    /// every 32-bit field on the wire, holds their low 32 bits.
    pub open spec fn for_decision(decision: LimitResult) -> LimitCheckResult {
        match decision {
            LimitResult::Allowed => LimitCheckResult {
                allowed: true,
                retry_after_seconds: 0,
                remaining_tokens: 0,
            },
            LimitResult::Denied { retry_after } => LimitCheckResult {
                allowed: false,
                retry_after_seconds: (duration_secs(retry_after) % 0x1_0000_0000) as u32,
                remaining_tokens: 0,
            },
        }
    }

    /// The report of `decision`.
    pub fn from_decision(decision: &LimitResult) -> (report: Self)
        ensures
            report == Self::for_decision(*decision),
    {
        match decision {
            LimitResult::Allowed => LimitCheckResult {
                allowed: true,
                retry_after_seconds: 0,
                remaining_tokens: 0,
            },
            LimitResult::Denied { retry_after } => LimitCheckResult {
                allowed: false,
                retry_after_seconds: (retry_after.as_secs() % 0x1_0000_0000) as u32,
                remaining_tokens: 0,
            },
        }
    }
}

/// The checks of the service, free of their envelope.
pub struct GuardianService<B: StorageBackend> {
    limiter: RateLimiter<B>,
}

impl<B: StorageBackend> GuardianService<B> {
    /// The limiter that the service asks.
    pub closed spec fn limiter(&self) -> RateLimiter<B> {
        self.limiter
    }

    /// A service over `limiter`.
    pub fn new(limiter: RateLimiter<B>) -> (service: Self)
        ensures
            service.limiter() == limiter,
    {
        GuardianService { limiter }
    }

    /// Checks a request as it came over the wire: an empty name stands for
    /// `anonymous`, a cost of 0 for 1. The limiter is asked once, its
    /// decision is reported and its error handed on.
    pub fn check_limit(&mut self, client_id: &str, cost: u32) -> (outcome: Result<
        LimitCheckResult,
        RateLimitError,
    >)
        ensures
            exists|id: &str, decision: Result<LimitResult, RateLimitError>|
                {
                    &&& id@ == effective_client_id_spec(client_id@)
                    &&& #[trigger] old(self).limiter().check_limit_spec(
                        &final(self).limiter(),
                        id,
                        effective_cost_spec(cost),
                        decision,
                    )
                    &&& match decision {
                        Ok(d) => outcome == Ok::<LimitCheckResult, RateLimitError>(
                            LimitCheckResult::for_decision(d),
                        ),
                        Err(e) => outcome == Err::<LimitCheckResult, RateLimitError>(e),
                    }
                },
            old(self).limiter().fail_open() ==> outcome is Ok,
    {
        let id = effective_client_id(client_id);
        let decision = self.limiter.check_limit(id, effective_cost(cost));
        let ghost seen = decision;
        let outcome = match decision {
            Ok(d) => Ok(LimitCheckResult::from_decision(&d)),
            Err(e) => Err(e),
        };
        assert(old(self).limiter().check_limit_spec(
            &self.limiter(),
            id,
            effective_cost_spec(cost),
            seen,
        ));
        outcome
    }

    /// Hands out the failure that the limiter last let pass, if there is one
    /// that was not handed out before.
    pub fn take_warning(&mut self) -> (warning: Option<RateLimitError>)
        ensures
            warning == old(self).limiter().warning(),
            final(self).limiter().warning() is None,
            final(self).limiter().backend() == old(self).limiter().backend(),
            final(self).limiter().fail_open() == old(self).limiter().fail_open(),
    {
        self.limiter.take_warning()
    }

    /// The tokens in use under the key that a check for `client_id` draws
    /// from, as the limiter reports them: an empty name stands for
    /// `anonymous` here too.
    pub fn get_usage(&mut self, client_id: &str) -> (outcome: Result<u64, RateLimitError>)
        ensures
            final(self).limiter().fail_open() == old(self).limiter().fail_open(),
            final(self).limiter().warning() == old(self).limiter().warning(),
            exists|id: &str|
                {
                    &&& id@ == effective_client_id_spec(client_id@)
                    &&& #[trigger] old(self).limiter().backend().get_usage_spec(
                        &final(self).limiter().backend(),
                        id,
                        outcome,
                    )
                },
    {
        let id = effective_client_id(client_id);
        let outcome = self.limiter.get_usage(id);
        assert(old(self).limiter().backend().get_usage_spec(
            &self.limiter().backend(),
            id,
            outcome,
        ));
        outcome
    }
}

/// What becomes of a request that passes the interceptor.
#[derive(Debug)]
pub enum InterceptOutcome {
    /// The request goes on to its handler.
    Forward,
    /// The request is turned away for want of tokens.
    ResourceExhausted { retry_after_seconds: u64 },
    /// The limiter failed and does not fail open.
    Internal(RateLimitError),
}

/// The outcome that the interceptor owes for a `decision` of its limiter.
pub open spec fn outcome_for(decision: Result<LimitResult, RateLimitError>) -> InterceptOutcome {
    match decision {
        Ok(LimitResult::Allowed) => InterceptOutcome::Forward,
        Ok(LimitResult::Denied { retry_after }) => InterceptOutcome::ResourceExhausted {
            retry_after_seconds: duration_secs(retry_after) as u64,
        },
        Err(e) => InterceptOutcome::Internal(e),
    }
}

/// Turns a `decision` into the outcome that `outcome_for` describes.
pub fn intercept_outcome(decision: Result<LimitResult, RateLimitError>) -> (outcome:
    InterceptOutcome)
    ensures
        outcome == outcome_for(decision),
{
    match decision {
        Ok(LimitResult::Allowed) => InterceptOutcome::Forward,
        Ok(LimitResult::Denied { retry_after }) => InterceptOutcome::ResourceExhausted {
            retry_after_seconds: retry_after.as_secs(),
        },
        Err(e) => InterceptOutcome::Internal(e),
    }
}

/// A limiter in front of every request: in-process buckets, one token per
/// request, failing open.
pub struct RateLimitInterceptor {
    limiter: RateLimiter<MemoryBackend>,
}

impl RateLimitInterceptor {
    /// The limiter that the interceptor asks.
    pub closed spec fn limiter(&self) -> RateLimiter<MemoryBackend> {
        self.limiter
    }

    /// An interceptor whose buckets have the limits of `config`.
    pub fn new(config: TokenBucketConfig) -> (interceptor: Self)
        ensures
            interceptor.limiter().fail_open(),
            interceptor.limiter().backend()@.wf(),
            interceptor.limiter().backend()@.capacity == config.capacity,
            interceptor.limiter().backend()@.refill_rate == config.refill_rate,
            interceptor.limiter().backend()@.buckets == Map::<
                Seq<char>,
                crate::bucket::BucketModel,
            >::empty(),
    {
        RateLimitInterceptor { limiter: RateLimiter::new(MemoryBackend::new(config), true) }
    }

    /// Hands out the failure that the limiter last let pass, if there is one
    /// that was not handed out before.
    pub fn take_warning(&mut self) -> (warning: Option<RateLimitError>)
        ensures
            warning == old(self).limiter().warning(),
            final(self).limiter().warning() is None,
            final(self).limiter().backend() == old(self).limiter().backend(),
            final(self).limiter().fail_open() == old(self).limiter().fail_open(),
    {
        self.limiter.take_warning()
    }

    /// Charges one token to the client named in the envelope, or to
    /// `anonymous` where it names none, and says what becomes of the
    /// request.
    pub fn intercept(&mut self, client_id: Option<&str>) -> (outcome: InterceptOutcome)
        ensures
            exists|id: &str, decision: Result<LimitResult, RateLimitError>|
                {
                    &&& id@ == match client_id {
                        Some(sent) => sent@,
                        None => "anonymous"@,
                    }
                    &&& #[trigger] old(self).limiter().check_limit_spec(
                        &final(self).limiter(),
                        id,
                        1,
                        decision,
                    )
                    &&& outcome == outcome_for(decision)
                },
            old(self).limiter().fail_open() ==> final(self).limiter().fail_open() && !(outcome
                is Internal),
    {
        let id = client_id_from_metadata(client_id);
        let decision = self.limiter.check_limit(id, 1);
        let ghost seen = decision;
        let outcome = intercept_outcome(decision);
        assert(old(self).limiter().check_limit_spec(&self.limiter(), id, 1, seen));
        outcome
    }
}

/// How a caller wants a denial handled.
#[derive(Debug, Clone, Copy)]
pub enum CheckMode {
    /// Wait as long as the denial asks and try again, until admitted.
    Blocking,
    /// Take the denial as the answer.
    NonBlocking,
}

/// What a caller does after one check.
#[derive(Debug)]
pub enum CheckStep {
    /// The check is settled: admitted or not.
    Done(bool),
    /// Wait this long, then check again.
    RetryAfter(Duration),
}

/// The step that follows a `decision` under `mode`.
pub open spec fn step_for(mode: CheckMode, decision: LimitResult) -> CheckStep {
    match decision {
        LimitResult::Allowed => CheckStep::Done(true),
        LimitResult::Denied { retry_after } => match mode {
            CheckMode::NonBlocking => CheckStep::Done(false),
            CheckMode::Blocking => CheckStep::RetryAfter(retry_after),
        },
    }
}

/// The step that follows a `decision` under `mode`.
pub fn next_step(mode: CheckMode, decision: LimitResult) -> (step: CheckStep)
    ensures
        step == step_for(mode, decision),
{
    match decision {
        LimitResult::Allowed => CheckStep::Done(true),
        LimitResult::Denied { retry_after } => match mode {
            CheckMode::NonBlocking => CheckStep::Done(false),
            CheckMode::Blocking => CheckStep::RetryAfter(retry_after),
        },
    }
}

/// One round of a check under `mode`: the limiter is asked once. An
/// admission settles the check; a denial settles it unless the caller
/// blocks, in which case the caller is told how long to wait before the next
/// round. An error of the limiter ends the rounds.
pub fn check_with_mode<B: StorageBackend>(
    limiter: &mut RateLimiter<B>,
    client_id: &str,
    cost: u64,
    mode: CheckMode,
) -> (outcome: Result<CheckStep, RateLimitError>)
    ensures
        exists|decision: Result<LimitResult, RateLimitError>|
            {
                &&& #[trigger] old(limiter).check_limit_spec(
                    final(limiter),
                    client_id,
                    cost,
                    decision,
                )
                &&& match decision {
                    Ok(d) => outcome == Ok::<CheckStep, RateLimitError>(step_for(mode, d)),
                    Err(e) => outcome == Err::<CheckStep, RateLimitError>(e),
                }
            },
        mode is NonBlocking ==> !(outcome matches Ok(CheckStep::RetryAfter(_))),
{
    let decision = limiter.check_limit(client_id, cost);
    let ghost seen = decision;
    let outcome = match decision {
        Ok(d) => Ok(next_step(mode, d)),
        Err(e) => Err(e),
    };
    assert(old(limiter).check_limit_spec(limiter, client_id, cost, seen));
    outcome
}

} // verus!
