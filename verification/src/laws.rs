//! What holds of the limiter whatever the requests and the clock: the rate
//! bound, the fate of requests of cost zero and of requests above the
//! capacity, the effect of a reset, and the two failure policies.

use vstd::prelude::*;
use crate::backend::StorageBackend;
use crate::bucket::{accrued, BucketModel};
use crate::error::RateLimitError;
use crate::limiter::{decision_for, LimitResult, RateLimiter};
use crate::memory::{MemoryBackend, TableModel};

verus! {

/// One request to a table: `cost` tokens for `key` at the instant `now`.
pub struct Request {
    pub key: Seq<char>,
    pub cost: nat,
    pub now: nat,
}

/// The table after `requests` were served in order.
pub open spec fn run(table: TableModel, requests: Seq<Request>) -> TableModel
    decreases requests.len(),
{
    if requests.len() == 0 {
        table
    } else {
        let last = requests.last();
        run(table, requests.drop_last()).take(last.key, last.cost, last.now)
    }
}

/// The tokens that the admitted requests for `key` among `requests` drew.
pub open spec fn admitted(table: TableModel, requests: Seq<Request>, key: Seq<char>) -> nat
    decreases requests.len(),
{
    if requests.len() == 0 {
        0
    } else {
        let last = requests.last();
        let before = run(table, requests.drop_last());
        let drawn: nat = if last.key == key && before.admits(last.key, last.cost, last.now) {
            last.cost
        } else {
            0
        };
        admitted(table, requests.drop_last(), key) + drawn
    }
}

/// The account of a bucket since the instant `base`: what was spent and what
/// is left do not exceed the capacity and what accrued since `base`, counted
/// in thousandths of a token.
pub open spec fn within_budget(bucket: BucketModel, spent: nat, base: nat) -> bool {
    &&& bucket.wf()
    &&& bucket.last_refill >= base
    &&& 1000 * (spent + bucket.tokens) <= 1000 * bucket.capacity + (bucket.last_refill - base)
        * bucket.refill_rate
}

/// What a request adds to the tokens spent.
pub open spec fn drawn_by(bucket: BucketModel, cost: nat, now: nat) -> nat {
    if bucket.admits(cost, now) {
        cost
    } else {
        0
    }
}

/// A request keeps a bucket within its budget.
pub proof fn lemma_take_within_budget(
    bucket: BucketModel,
    spent: nat,
    base: nat,
    cost: nat,
    now: nat,
)
    requires
        within_budget(bucket, spent, base),
    ensures
        within_budget(bucket.take(cost, now), spent + drawn_by(bucket, cost, now), base),
        bucket.take(cost, now).capacity == bucket.capacity,
        bucket.take(cost, now).refill_rate == bucket.refill_rate,
        bucket.take(cost, now).last_refill == if now < bucket.last_refill {
            bucket.last_refill
        } else {
            now
        },
{
    if now >= bucket.last_refill {
        let elapsed = (now - bucket.last_refill) as nat;
        let since = (bucket.last_refill - base) as nat;
        assert((since + elapsed) * bucket.refill_rate == since * bucket.refill_rate + elapsed
            * bucket.refill_rate) by (nonlinear_arith);
        assert(1000 * accrued(elapsed, bucket.refill_rate) <= elapsed * bucket.refill_rate);
    }
}

/// The first request at or after `base` brings a bucket that was last
/// refilled before `base` within its budget.
pub proof fn lemma_first_take_within_budget(bucket: BucketModel, base: nat, cost: nat, now: nat)
    requires
        bucket.wf(),
        bucket.last_refill <= base <= now,
    ensures
        within_budget(bucket.take(cost, now), drawn_by(bucket, cost, now), base),
        bucket.take(cost, now).capacity == bucket.capacity,
        bucket.take(cost, now).refill_rate == bucket.refill_rate,
        bucket.take(cost, now).last_refill == now,
{
    assert(0 <= (now - base) * bucket.refill_rate) by (nonlinear_arith)
        requires
            base <= now,
    ;
}

/// The instant from which the budget of `key` is counted: the later of
/// `start` and the last refill of the bucket that `table` holds.
pub open spec fn budget_base(table: TableModel, key: Seq<char>, start: nat) -> nat {
    if table.buckets.contains_key(key) && table.buckets[key].last_refill > start {
        table.buckets[key].last_refill
    } else {
        start
    }
}

/// What holds of the bucket of `key` after any number of requests that all
/// lie in the window from `start` to `start + window_ms`.
pub open spec fn on_budget(
    table: TableModel,
    key: Seq<char>,
    start: nat,
    window_ms: nat,
    state: TableModel,
    spent: nat,
) -> bool {
    let base = budget_base(table, key, start);
    &&& state.wf()
    &&& state.capacity == table.capacity
    &&& state.refill_rate == table.refill_rate
    &&& table.buckets.contains_key(key) ==> state.buckets.contains_key(key)
    &&& if state.buckets.contains_key(key) {
        let bucket = state.buckets[key];
        if bucket.last_refill < base {
            spent == 0
        } else {
            &&& within_budget(bucket, spent, base)
            &&& bucket.last_refill - base <= window_ms
        }
    } else {
        spent == 0
    }
}

/// The budget holds after every run of requests within the window.
pub proof fn lemma_run_on_budget(
    table: TableModel,
    requests: Seq<Request>,
    key: Seq<char>,
    start: nat,
    window_ms: nat,
)
    requires
        table.wf(),
        forall|i: int|
            0 <= i < requests.len() ==> start <= (#[trigger] requests[i]).now <= start
                + window_ms,
    ensures
        on_budget(
            table,
            key,
            start,
            window_ms,
            run(table, requests),
            admitted(table, requests, key),
        ),
    decreases requests.len(),
{
    let base = budget_base(table, key, start);
    if requests.len() == 0 {
        if table.buckets.contains_key(key) {
            let bucket = table.buckets[key];
            if bucket.last_refill >= base {
                assert(bucket.last_refill == base);
            }
        }
    } else {
        let last = requests.last();
        let earlier = requests.drop_last();
        assert forall|i: int| 0 <= i < earlier.len() implies start <= (#[trigger] earlier[i]).now
            <= start + window_ms by {
            assert(earlier[i] == requests[i]);
        }
        lemma_run_on_budget(table, earlier, key, start, window_ms);
        let state = run(table, earlier);
        let spent = admitted(table, earlier, key);
        let next = state.take(last.key, last.cost, last.now);
        let bucket = state.bucket_at(last.key, last.now);
        assert(start <= last.now <= start + window_ms);
        assert(bucket.wf());
        assert(bucket.take(last.cost, last.now).wf());
        assert(next.wf()) by {
            assert forall|k: Seq<char>| #[trigger] next.buckets.contains_key(k) implies {
                &&& next.buckets[k].wf()
                &&& next.buckets[k].capacity == next.capacity
                &&& next.buckets[k].refill_rate == next.refill_rate
            } by {
                if k != last.key {
                    assert(state.buckets.contains_key(k));
                }
            }
        }
        if last.key == key {
            if state.buckets.contains_key(key) {
                if bucket.last_refill < base {
                    assert(base == start) by {
                        if table.buckets.contains_key(key) && table.buckets[key].last_refill
                            > start {
                            lemma_last_refill_grows(table, earlier, key);
                        }
                    }
                    lemma_first_take_within_budget(bucket, base, last.cost, last.now);
                } else {
                    lemma_take_within_budget(bucket, spent, base, last.cost, last.now);
                    if last.now < bucket.last_refill {
                    } else {
                        assert(base >= start);
                    }
                }
            } else {
                assert(base == start);
                assert(0 <= (last.now - base) * bucket.refill_rate) by (nonlinear_arith)
                    requires
                        base <= last.now,
                ;
                lemma_take_within_budget(bucket, 0, base, last.cost, last.now);
            }
        } else {
            assert(next.buckets.contains_key(key) == state.buckets.contains_key(key));
        }
    }
}

/// The last refill of a bucket never moves back.
pub proof fn lemma_last_refill_grows(table: TableModel, requests: Seq<Request>, key: Seq<char>)
    requires
        table.buckets.contains_key(key),
    ensures
        run(table, requests).buckets.contains_key(key),
        run(table, requests).buckets[key].last_refill >= table.buckets[key].last_refill,
    decreases requests.len(),
{
    if requests.len() > 0 {
        lemma_last_refill_grows(table, requests.drop_last(), key);
    }
}

/// The rate bound. Of the requests that fall into a window of `window_ms`
/// milliseconds, those for one key draw no more than the capacity and what
/// accrues in the window, whatever the table held before, whatever the order
/// of the instants, and whatever the other keys do.
pub proof fn lemma_rate_bound(
    table: TableModel,
    requests: Seq<Request>,
    key: Seq<char>,
    start: nat,
    window_ms: nat,
)
    requires
        table.wf(),
        forall|i: int|
            0 <= i < requests.len() ==> start <= (#[trigger] requests[i]).now <= start
                + window_ms,
    ensures
        admitted(table, requests, key) <= table.capacity + accrued(window_ms, table.refill_rate),
{
    lemma_run_on_budget(table, requests, key, start, window_ms);
    let state = run(table, requests);
    let spent = admitted(table, requests, key);
    let base = budget_base(table, key, start);
    if state.buckets.contains_key(key) && state.buckets[key].last_refill >= base {
        let bucket = state.buckets[key];
        let since = (bucket.last_refill - base) as nat;
        assert(since * bucket.refill_rate <= window_ms * bucket.refill_rate) by (nonlinear_arith)
            requires
                since <= window_ms,
        ;
    }
}

/// The balance stays in range. After any requests every bucket holds no more
/// than the capacity, and what a key is offered at any instant lies between
/// nothing and the capacity.
pub proof fn lemma_balance_in_range(
    table: TableModel,
    requests: Seq<Request>,
    key: Seq<char>,
    now: nat,
)
    requires
        table.wf(),
    ensures
        run(table, requests).wf(),
        run(table, requests).capacity == table.capacity,
        run(table, requests).refill_rate == table.refill_rate,
        0 <= run(table, requests).bucket_at(key, now).available(now) <= table.capacity,
        run(table, requests).usage(key, now) <= table.capacity,
    decreases requests.len(),
{
    if requests.len() > 0 {
        let last = requests.last();
        lemma_balance_in_range(table, requests.drop_last(), last.key, last.now);
        let state = run(table, requests.drop_last());
        let next = state.take(last.key, last.cost, last.now);
        assert forall|k: Seq<char>| #[trigger] next.buckets.contains_key(k) implies {
            &&& next.buckets[k].wf()
            &&& next.buckets[k].capacity == next.capacity
            &&& next.buckets[k].refill_rate == next.refill_rate
        } by {
            if k != last.key {
                assert(state.buckets.contains_key(k));
            }
        }
    }
}

/// A request of cost zero is admitted and draws nothing: the table is left
/// as a reading of the usage leaves it, and the usage at the instant of the
/// request is what it was.
pub proof fn lemma_zero_cost(table: TableModel, key: Seq<char>, now: nat)
    requires
        table.wf(),
    ensures
        table.admits(key, 0, now),
        table.take(key, 0, now) == table.touch(key, now),
        table.take(key, 0, now).usage(key, now) == table.usage(key, now),
{
    let bucket = table.bucket_at(key, now);
    let refilled = bucket.refill(now);
    assert(bucket.take(0, now) == refilled);
    assert(refilled.refill(now).tokens == refilled.tokens) by {
        if now >= refilled.last_refill {
            assert(accrued(0, refilled.refill_rate) == 0) by (nonlinear_arith);
        }
    }
    assert(table.take(key, 0, now).buckets.contains_key(key));
}

/// A check of cost zero against the in-process backend is allowed, and the
/// usage at the instant of the check is what it was.
pub proof fn lemma_check_zero_cost(
    before: RateLimiter<MemoryBackend>,
    after: RateLimiter<MemoryBackend>,
    client_id: &str,
    decision: Result<LimitResult, RateLimitError>,
)
    requires
        before.backend()@.wf(),
        before.check_limit_spec(&after, client_id, 0, decision),
    ensures
        decision == Ok::<LimitResult, RateLimitError>(LimitResult::Allowed),
        exists|now: nat|
            {
                &&& after.backend()@ == #[trigger] before.backend()@.take(client_id@, 0, now)
                &&& after.backend()@.usage(client_id@, now) == before.backend()@.usage(
                    client_id@,
                    now,
                )
            },
{
    let reply = choose|reply: Result<bool, RateLimitError>|
        {
            &&& #[trigger] before.backend().take_token_spec(&after.backend(), client_id, 0, reply)
            &&& decision_for(before.fail_open(), reply, decision)
        };
    let now = choose|now: nat|
        {
            &&& after.backend()@ == #[trigger] before.backend()@.take(client_id@, 0, now)
            &&& reply == Ok::<bool, RateLimitError>(before.backend()@.admits(client_id@, 0, now))
        };
    lemma_zero_cost(before.backend()@, client_id@, now);
}

/// A request above the capacity is never admitted, whatever the table holds
/// and whatever the instant.
pub proof fn lemma_oversize_denied(table: TableModel, key: Seq<char>, cost: nat, now: nat)
    requires
        table.wf(),
        cost > table.capacity,
    ensures
        !table.admits(key, cost, now),
{
}

/// A check above the capacity against the in-process backend is denied.
pub proof fn lemma_check_oversize_denied(
    before: RateLimiter<MemoryBackend>,
    after: RateLimiter<MemoryBackend>,
    client_id: &str,
    cost: u64,
    decision: Result<LimitResult, RateLimitError>,
)
    requires
        before.backend()@.wf(),
        cost > before.backend()@.capacity,
        before.check_limit_spec(&after, client_id, cost, decision),
    ensures
        decision matches Ok(LimitResult::Denied { .. }),
{
    let reply = choose|reply: Result<bool, RateLimitError>|
        {
            &&& #[trigger] before.backend().take_token_spec(
                &after.backend(),
                client_id,
                cost,
                reply,
            )
            &&& decision_for(before.fail_open(), reply, decision)
        };
    let now = choose|now: nat|
        {
            &&& after.backend()@ == #[trigger] before.backend()@.take(client_id@, cost as nat, now)
            &&& reply == Ok::<bool, RateLimitError>(
                before.backend()@.admits(client_id@, cost as nat, now),
            )
        };
    lemma_oversize_denied(before.backend()@, client_id@, cost as nat, now);
}

/// After a reset the key has nothing in use and a request for the whole
/// capacity is admitted, at once or after the usage was read.
pub proof fn lemma_reset(table: TableModel, key: Seq<char>, now: nat, later: nat)
    requires
        table.wf(),
    ensures
        table.reset(key).wf(),
        table.reset(key).usage(key, now) == 0,
        table.reset(key).admits(key, table.capacity, now),
        table.reset(key).touch(key, now).usage(key, later) == 0,
        table.reset(key).touch(key, now).admits(key, table.capacity, later),
{
    let cleared = table.reset(key);
    assert forall|k: Seq<char>| #[trigger] cleared.buckets.contains_key(k) implies {
        &&& cleared.buckets[k].wf()
        &&& cleared.buckets[k].capacity == cleared.capacity
        &&& cleared.buckets[k].refill_rate == cleared.refill_rate
    } by {
        assert(table.buckets.contains_key(k));
    }
    let fresh = cleared.bucket_at(key, now);
    assert(fresh == BucketModel::full(table.capacity, table.refill_rate, now));
    assert(fresh.refill(now).tokens == table.capacity);
    let touched = cleared.touch(key, now);
    assert(touched.buckets.contains_key(key));
    assert(touched.bucket_at(key, later).refill(later).tokens == table.capacity);
}

/// On the in-process backend: a reset succeeds, a reading of the usage that
/// follows it finds nothing in use, and a request for the whole capacity
/// that follows the reading is admitted.
pub proof fn lemma_reset_then_check(
    start: MemoryBackend,
    cleared: MemoryBackend,
    read: MemoryBackend,
    end: MemoryBackend,
    key: &str,
    cost: u64,
    reset_outcome: Result<(), RateLimitError>,
    usage_outcome: Result<u64, RateLimitError>,
    take_outcome: Result<bool, RateLimitError>,
)
    requires
        start@.wf(),
        cost == start@.capacity,
        start.reset_spec(&cleared, key, reset_outcome),
        cleared.get_usage_spec(&read, key, usage_outcome),
        read.take_token_spec(&end, key, cost, take_outcome),
    ensures
        reset_outcome is Ok,
        usage_outcome == Ok::<u64, RateLimitError>(0),
        take_outcome == Ok::<bool, RateLimitError>(true),
{
    let now = choose|now: nat|
        {
            &&& read@ == #[trigger] cleared@.touch(key@, now)
            &&& usage_outcome == Ok::<u64, RateLimitError>(cleared@.usage(key@, now) as u64)
        };
    let later = choose|later: nat|
        {
            &&& end@ == #[trigger] read@.take(key@, cost as nat, later)
            &&& take_outcome == Ok::<bool, RateLimitError>(read@.admits(key@, cost as nat, later))
        };
    lemma_reset(start@, key@, now, later);
}

/// Over the in-process backend no check is an error, whatever the policy,
/// the history and the cost.
pub proof fn lemma_in_process_check_never_fails(
    before: RateLimiter<MemoryBackend>,
    after: RateLimiter<MemoryBackend>,
    client_id: &str,
    cost: u64,
    decision: Result<LimitResult, RateLimitError>,
)
    requires
        before.check_limit_spec(&after, client_id, cost, decision),
    ensures
        decision is Ok,
        after.warning() == before.warning(),
{
    let reply = choose|reply: Result<bool, RateLimitError>|
        {
            &&& #[trigger] before.backend().take_token_spec(
                &after.backend(),
                client_id,
                cost,
                reply,
            )
            &&& decision_for(before.fail_open(), reply, decision)
            &&& after.warning() == match crate::limiter::passed_over(before.fail_open(), reply) {
                Some(e) => Some(e),
                None => before.warning(),
            }
        };
    assert(reply is Ok);
}

/// A backend that answers every request for tokens with an error.
pub open spec fn always_fails<B: StorageBackend>() -> bool {
    forall|before: B, after: B, key: &str, cost: u64, reply: Result<bool, RateLimitError>| #[trigger]
        before.take_token_spec(&after, key, cost, reply) ==> reply is Err
}

/// Failing open: over a backend that always fails, every check is allowed.
pub proof fn lemma_fail_open<B: StorageBackend>(
    before: RateLimiter<B>,
    after: RateLimiter<B>,
    client_id: &str,
    cost: u64,
    decision: Result<LimitResult, RateLimitError>,
)
    requires
        always_fails::<B>(),
        before.fail_open(),
        before.check_limit_spec(&after, client_id, cost, decision),
    ensures
        decision == Ok::<LimitResult, RateLimitError>(LimitResult::Allowed),
{
}

/// Failing closed: over a backend that always fails, every check is an
/// error, and it is the backend's.
pub proof fn lemma_fail_closed<B: StorageBackend>(
    before: RateLimiter<B>,
    after: RateLimiter<B>,
    client_id: &str,
    cost: u64,
    decision: Result<LimitResult, RateLimitError>,
)
    requires
        always_fails::<B>(),
        !before.fail_open(),
        before.check_limit_spec(&after, client_id, cost, decision),
    ensures
        decision is Err,
        exists|reply: Result<bool, RateLimitError>|
            {
                &&& #[trigger] before.backend().take_token_spec(
                    &after.backend(),
                    client_id,
                    cost,
                    reply,
                )
                &&& reply matches Err(e) && decision == Err::<LimitResult, RateLimitError>(e)
            },
{
    let reply = choose|reply: Result<bool, RateLimitError>|
        {
            &&& #[trigger] before.backend().take_token_spec(
                &after.backend(),
                client_id,
                cost,
                reply,
            )
            &&& decision_for(before.fail_open(), reply, decision)
        };
    assert(reply is Err);
}

/// What the table offers `key` before any refill: the tokens of its bucket,
/// or the capacity where it has none.
pub open spec fn held(table: TableModel, key: Seq<char>) -> nat {
    if table.buckets.contains_key(key) {
        table.buckets[key].tokens
    } else {
        table.capacity
    }
}

/// Without refill, requests for one token each are admitted exactly as long
/// as tokens are left: of `n` such requests for one key, in any order of
/// instants, the first `held` are admitted and no other.
pub proof fn lemma_unit_requests_without_refill(
    table: TableModel,
    requests: Seq<Request>,
    key: Seq<char>,
)
    requires
        table.wf(),
        table.refill_rate == 0,
        forall|i: int|
            0 <= i < requests.len() ==> (#[trigger] requests[i]).key == key && requests[i].cost
                == 1,
    ensures
        admitted(table, requests, key) == if requests.len() <= held(table, key) {
            requests.len()
        } else {
            held(table, key)
        },
        held(run(table, requests), key) == held(table, key) - admitted(table, requests, key),
    decreases requests.len(),
{
    if requests.len() > 0 {
        let last = requests.last();
        let earlier = requests.drop_last();
        assert forall|i: int| 0 <= i < earlier.len() implies (#[trigger] earlier[i]).key == key
            && earlier[i].cost == 1 by {
            assert(earlier[i] == requests[i]);
        }
        lemma_unit_requests_without_refill(table, earlier, key);
        lemma_balance_in_range(table, earlier, key, last.now);
        let state = run(table, earlier);
        let bucket = state.bucket_at(key, last.now);
        assert(bucket.tokens == held(state, key));
        assert(bucket.refill(last.now).tokens == bucket.tokens) by {
            if last.now >= bucket.last_refill {
                let elapsed = (last.now - bucket.last_refill) as nat;
                assert(accrued(elapsed, 0) == 0) by (nonlinear_arith);
            }
        }
        assert(state.take(key, 1, last.now).buckets.contains_key(key));
    }
}

/// One request for one token without refill: it is admitted exactly when a
/// token is left, and then draws it.
pub proof fn lemma_unit_take_without_refill(table: TableModel, key: Seq<char>, now: nat)
    requires
        table.wf(),
        table.refill_rate == 0,
    ensures
        table.take(key, 1, now).wf(),
        table.take(key, 1, now).refill_rate == 0,
        table.take(key, 1, now).capacity == table.capacity,
        table.admits(key, 1, now) == (held(table, key) >= 1),
        held(table.take(key, 1, now), key) == held(table, key) - if table.admits(key, 1, now) {
            1nat
        } else {
            0nat
        },
{
    let bucket = table.bucket_at(key, now);
    let next = table.take(key, 1, now);
    assert(bucket.tokens == held(table, key));
    assert(bucket.refill(now).tokens == bucket.tokens) by {
        if now >= bucket.last_refill {
            let elapsed = (now - bucket.last_refill) as nat;
            assert(accrued(elapsed, 0) == 0) by (nonlinear_arith);
        }
    }
    assert(next.buckets.contains_key(key));
    assert forall|k: Seq<char>| #[trigger] next.buckets.contains_key(k) implies {
        &&& next.buckets[k].wf()
        &&& next.buckets[k].capacity == next.capacity
        &&& next.buckets[k].refill_rate == next.refill_rate
    } by {
        if k != key {
            assert(table.buckets.contains_key(k));
        }
    }
}

/// What a decision adds to the count of allowed checks.
pub open spec fn counted(decision: Result<LimitResult, RateLimitError>) -> nat {
    if decision == Ok::<LimitResult, RateLimitError>(LimitResult::Allowed) {
        1
    } else {
        0
    }
}

/// One check of one token for `client_id` over the in-process backend.
pub open spec fn unit_check(
    before: RateLimiter<MemoryBackend>,
    after: RateLimiter<MemoryBackend>,
    client_id: &str,
    decision: Result<LimitResult, RateLimitError>,
) -> bool {
    before.check_limit_spec(&after, client_id, 1, decision)
}

/// `after` is what `before` may become through `n` checks of one token for
/// `client_id`, one after the other, of which `allowed` were allowed.
pub open spec fn unit_checks(
    before: RateLimiter<MemoryBackend>,
    after: RateLimiter<MemoryBackend>,
    client_id: &str,
    n: nat,
    allowed: nat,
) -> bool
    decreases n,
{
    if n == 0 {
        after == before && allowed == 0
    } else {
        exists|mid: RateLimiter<MemoryBackend>, decision: Result<LimitResult, RateLimitError>|
            {
                &&& #[trigger] unit_check(mid, after, client_id, decision)
                &&& counted(decision) <= allowed
                &&& unit_checks(
                    before,
                    mid,
                    client_id,
                    (n - 1) as nat,
                    (allowed - counted(decision)) as nat,
                )
            }
    }
}

/// Without refill, of `n` checks of one token for one client, made one
/// after the other over the in-process backend, exactly as many are allowed
/// as tokens were left, or all of them where the tokens suffice. For a
/// client that the backend has not seen, that is the lesser of `n` and the
/// capacity.
pub proof fn lemma_unit_checks_without_refill(
    before: RateLimiter<MemoryBackend>,
    after: RateLimiter<MemoryBackend>,
    client_id: &str,
    n: nat,
    allowed: nat,
)
    requires
        before.backend()@.wf(),
        before.backend()@.refill_rate == 0,
        unit_checks(before, after, client_id, n, allowed),
    ensures
        allowed == if n <= held(before.backend()@, client_id@) {
            n
        } else {
            held(before.backend()@, client_id@)
        },
        held(after.backend()@, client_id@) == held(before.backend()@, client_id@) - allowed,
        after.backend()@.wf(),
        after.backend()@.refill_rate == 0,
        !before.backend()@.buckets.contains_key(client_id@) ==> held(
            before.backend()@,
            client_id@,
        ) == before.backend()@.capacity,
    decreases n,
{
    if n > 0 {
        let (mid, decision) = choose|
            mid: RateLimiter<MemoryBackend>,
            decision: Result<LimitResult, RateLimitError>,
        |
            {
                &&& #[trigger] unit_check(mid, after, client_id, decision)
                &&& counted(decision) <= allowed
                &&& unit_checks(
                    before,
                    mid,
                    client_id,
                    (n - 1) as nat,
                    (allowed - counted(decision)) as nat,
                )
            };
        lemma_unit_checks_without_refill(
            before,
            mid,
            client_id,
            (n - 1) as nat,
            (allowed - counted(decision)) as nat,
        );
        let reply = choose|reply: Result<bool, RateLimitError>|
            {
                &&& #[trigger] mid.backend().take_token_spec(&after.backend(), client_id, 1, reply)
                &&& decision_for(mid.fail_open(), reply, decision)
            };
        let now = choose|now: nat|
            {
                &&& after.backend()@ == #[trigger] mid.backend()@.take(client_id@, 1, now)
                &&& reply == Ok::<bool, RateLimitError>(mid.backend()@.admits(client_id@, 1, now))
            };
        lemma_unit_take_without_refill(mid.backend()@, client_id@, now);
    }
}

} // verus!
