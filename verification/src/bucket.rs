//! The token bucket: a reservoir that refills at a constant rate up to a
//! capacity and from which each admission draws its cost.

use vstd::prelude::*;
use vstd::string::StringExecFns;
use std::time::Duration;
use crate::error::RateLimitError;
use crate::time::{duration_nanos, now_millis};

verus! {

/// The limits of one bucket.
#[derive(Debug)]
pub struct TokenBucketConfig {
    /// The most tokens a bucket holds, and so the largest burst.
    pub capacity: u64,
    /// Tokens added per second while the bucket is below capacity.
    pub refill_rate: u64,
    /// A hint for callers that poll; the refill itself is continuous.
    pub refill_interval: Duration,
}

impl Clone for TokenBucketConfig {
    fn clone(&self) -> (copy: Self)
        ensures
            copy == *self,
    {
        TokenBucketConfig {
            capacity: self.capacity,
            refill_rate: self.refill_rate,
            refill_interval: self.refill_interval,
        }
    }
}

impl Default for TokenBucketConfig {
    fn default() -> (config: Self)
        ensures
            config.capacity == 100,
            config.refill_rate == 10,
            duration_nanos(config.refill_interval) == 1_000_000_000,
    {
        TokenBucketConfig { capacity: 100, refill_rate: 10, refill_interval: Duration::from_secs(1) }
    }
}

/// The tokens that accrue in `elapsed_ms` milliseconds at `rate` tokens per
/// second: the whole part of the product of the rate and the elapsed seconds.
pub open spec fn accrued(elapsed_ms: nat, rate: nat) -> nat {
    elapsed_ms * rate / 1000
}

/// The mathematical bucket that a `TokenBucket` stands for.
pub struct BucketModel {
    pub tokens: nat,
    pub capacity: nat,
    pub refill_rate: nat,
    /// The instant of the last refill, in milliseconds since the epoch.
    pub last_refill: nat,
}

impl BucketModel {
    /// A bucket never holds more than its capacity.
    pub open spec fn wf(self) -> bool {
        self.tokens <= self.capacity
    }

    /// The full bucket created at `now`.
    pub open spec fn full(capacity: nat, refill_rate: nat, now: nat) -> BucketModel {
        BucketModel { tokens: capacity, capacity, refill_rate, last_refill: now }
    }

    /// The bucket after a refill at `now`. A reading that lies before the last
    /// refill changes nothing; otherwise what accrued since then is added, up
    /// to the capacity, and `now` becomes the last refill.
    pub open spec fn refill(self, now: nat) -> BucketModel {
        if now < self.last_refill {
            self
        } else {
            let topped = self.tokens + accrued((now - self.last_refill) as nat, self.refill_rate);
            BucketModel {
                tokens: if topped <= self.capacity { topped } else { self.capacity },
                last_refill: now,
                ..self
            }
        }
    }

    /// The tokens on offer at `now`, after the refill.
    pub open spec fn available(self, now: nat) -> nat {
        self.refill(now).tokens
    }

    /// Whether a request of `cost` at `now` is admitted.
    pub open spec fn admits(self, cost: nat, now: nat) -> bool {
        cost <= self.available(now)
    }

    /// The bucket after a request of `cost` at `now`: refilled, and lowered by
    /// `cost` where the request is admitted.
    pub open spec fn take(self, cost: nat, now: nat) -> BucketModel {
        let refilled = self.refill(now);
        if cost <= refilled.tokens {
            BucketModel { tokens: (refilled.tokens - cost) as nat, ..refilled }
        } else {
            refilled
        }
    }
}

/// One token bucket.
#[derive(Debug, Clone, Copy)]
pub struct TokenBucket {
    tokens: u64,
    capacity: u64,
    refill_rate: u64,
    last_refill: u64,
}

impl View for TokenBucket {
    type V = BucketModel;

    closed spec fn view(&self) -> BucketModel {
        BucketModel {
            tokens: self.tokens as nat,
            capacity: self.capacity as nat,
            refill_rate: self.refill_rate as nat,
            last_refill: self.last_refill as nat,
        }
    }
}

/// The tokens that accrue in `elapsed_ms` at `rate`, cut off at `room`.
fn accrued_up_to(elapsed_ms: u64, rate: u64, room: u64) -> (added: u64)
    ensures
        added as nat == if accrued(elapsed_ms as nat, rate as nat) <= room {
            accrued(elapsed_ms as nat, rate as nat)
        } else {
            room as nat
        },
{
    assert(elapsed_ms as nat * rate as nat <= u128::MAX) by (nonlinear_arith)
        requires
            elapsed_ms <= u64::MAX,
            rate <= u64::MAX,
    ;
    let product: u128 = (elapsed_ms as u128) * (rate as u128);
    let whole: u128 = product / 1000;
    if whole <= room as u128 {
        whole as u64
    } else {
        room
    }
}

impl TokenBucket {
    #[verifier::type_invariant]
    spec fn inv(self) -> bool {
        self.tokens <= self.capacity
    }

    /// A full bucket with the limits of `config`, created at the current
    /// instant.
    pub fn new(config: TokenBucketConfig) -> (bucket: Self)
        ensures
            exists|now: nat| #[trigger]
                BucketModel::full(config.capacity as nat, config.refill_rate as nat, now)
                    == bucket@,
            bucket@.wf(),
    {
        let now = now_millis();
        let bucket = Self::new_at(config, now);
        assert(BucketModel::full(config.capacity as nat, config.refill_rate as nat, now as nat)
            == bucket@);
        bucket
    }

    /// A full bucket with the limits of `config`, created at `now`.
    pub fn new_at(config: TokenBucketConfig, now: u64) -> (bucket: Self)
        ensures
            bucket@ == BucketModel::full(
                config.capacity as nat,
                config.refill_rate as nat,
                now as nat,
            ),
    {
        TokenBucket {
            tokens: config.capacity,
            capacity: config.capacity,
            refill_rate: config.refill_rate,
            last_refill: now,
        }
    }

    /// The tokens that the bucket held at its last refill or request.
    pub fn tokens(&self) -> (t: u64)
        ensures
            t == self@.tokens,
            t <= self@.capacity,
    {
        proof {
            use_type_invariant(self);
        }
        self.tokens
    }

    /// The instant of the last refill.
    pub fn last_refill(&self) -> (t: u64)
        ensures
            t == self@.last_refill,
    {
        self.last_refill
    }

    /// The bucket's capacity.
    pub fn capacity(&self) -> (c: u64)
        ensures
            c == self@.capacity,
            self@.wf(),
    {
        proof {
            use_type_invariant(self);
        }
        self.capacity
    }

    /// Adds what accrued between the last refill and `now`.
    pub fn refill_at(&mut self, now: u64)
        ensures
            final(self)@ == old(self)@.refill(now as nat),
            final(self)@.wf(),
    {
        proof {
            use_type_invariant(&*self);
        }
        if now >= self.last_refill {
            let added = accrued_up_to(
                now - self.last_refill,
                self.refill_rate,
                self.capacity - self.tokens,
            );
            *self = TokenBucket {
                tokens: self.tokens + added,
                capacity: self.capacity,
                refill_rate: self.refill_rate,
                last_refill: now,
            };
        }
    }

    /// Refills at `now`, then draws `cost` tokens if the bucket holds them.
    /// A request that the bucket cannot cover changes nothing but the refill
    /// and is answered with `LimitExceeded`.
    pub fn try_consume_at(&mut self, cost: u64, now: u64) -> (outcome: Result<(), RateLimitError>)
        ensures
            final(self)@ == old(self)@.take(cost as nat, now as nat),
            final(self)@.wf(),
            outcome is Ok <==> old(self)@.admits(cost as nat, now as nat),
            outcome matches Err(e) ==> e matches RateLimitError::LimitExceeded(text)
                && text@ == "Insufficient tokens"@,
    {
        self.refill_at(now);
        if self.tokens < cost {
            Err(RateLimitError::LimitExceeded(String::from_str("Insufficient tokens")))
        } else {
            *self = TokenBucket {
                tokens: self.tokens - cost,
                capacity: self.capacity,
                refill_rate: self.refill_rate,
                last_refill: self.last_refill,
            };
            Ok(())
        }
    }

    /// `try_consume_at` at the current instant. Whatever the clock reads, a
    /// request of cost 0 is admitted and one above the capacity is not.
    pub fn try_consume(&mut self, cost: u64) -> (outcome: Result<(), RateLimitError>)
        ensures
            exists|now: nat|
                {
                    &&& final(self)@ == old(self)@.take(cost as nat, now)
                    &&& outcome is Ok <==> #[trigger] old(self)@.admits(cost as nat, now)
                },
            final(self)@.wf(),
            cost == 0 ==> outcome is Ok,
            cost > old(self)@.capacity ==> outcome is Err,
            outcome matches Err(e) ==> e matches RateLimitError::LimitExceeded(text)
                && text@ == "Insufficient tokens"@,
    {
        proof {
            use_type_invariant(&*self);
        }
        let now = now_millis();
        let outcome = self.try_consume_at(cost, now);
        assert(old(self)@.admits(cost as nat, now as nat) == outcome is Ok);
        outcome
    }

    /// The tokens on offer at `now`; the bucket is refilled on the way.
    pub fn available_tokens_at(&mut self, now: u64) -> (tokens: u64)
        ensures
            final(self)@ == old(self)@.refill(now as nat),
            final(self)@.wf(),
            tokens == old(self)@.available(now as nat),
            tokens <= old(self)@.capacity,
    {
        self.refill_at(now);
        self.tokens
    }

    /// The tokens on offer at the current instant: never more than the
    /// capacity, and never fewer than the bucket held before the call.
    pub fn available_tokens(&mut self) -> (tokens: u64)
        ensures
            exists|now: nat|
                {
                    &&& final(self)@ == old(self)@.refill(now)
                    &&& tokens == #[trigger] old(self)@.available(now)
                },
            final(self)@.wf(),
            old(self)@.tokens <= tokens <= old(self)@.capacity,
    {
        proof {
            use_type_invariant(&*self);
        }
        let now = now_millis();
        let tokens = self.available_tokens_at(now);
        assert(tokens == old(self)@.available(now as nat));
        tokens
    }
}

} // verus!
