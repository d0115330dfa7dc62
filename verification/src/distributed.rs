//! The bucket as a shared store keeps it: the record that is persisted per
//! key, the one step that the store runs atomically on it, and the names
//! and answers that pass between a backend and the store.
//!
//! The store's refill differs from that of the in-process bucket in one
//! respect. The bucket leaves a reading of the clock that lies before its
//! last refill out of account. The store takes every reading as it comes:
//! it adds what accrued since the last refill, which is less than nothing
//! where the reading lies before it, and makes the reading the last refill.
//! Nodes whose clocks differ therefore move one record back and forth.

use vstd::prelude::*;
use vstd::string::StringExecFns;
use crate::bucket::{accrued, BucketModel};
use crate::error::RateLimitError;

verus! {

/// The seconds for which the store keeps a record after it was last written.
pub const RECORD_TTL_SECS: u64 = 3600;

/// The persisted form of a bucket.
///
/// The count is signed: the store adds what accrued since the last refill
/// whatever the sign of the time between, so a clock that runs behind the
/// record takes tokens away, below zero if need be.
#[derive(Debug, Clone, Copy)]
pub struct BucketRecord {
    pub tokens: i128,
    /// The instant of the last refill, in milliseconds since the epoch.
    pub last_refill: u64,
}

/// The tokens that accrue between `last_refill` and `now` at `rate` tokens
/// per second: the product of the rate and the seconds between, rounded
/// down. It is negative where `now` lies before `last_refill`.
pub open spec fn accrued_between(last_refill: int, now: int, rate: int) -> int {
    (now - last_refill) * rate / 1000
}

/// The count of `record` after the refill at `now`: what accrued since the
/// last refill is added, and the sum is cut down to the capacity. A sum
/// below the least count that a record can hold stops there.
pub open spec fn refilled_count(record: BucketRecord, capacity: int, rate: int, now: int) -> int {
    let topped = record.tokens + accrued_between(record.last_refill as int, now, rate);
    if topped > capacity {
        capacity
    } else if topped < i128::MIN {
        i128::MIN as int
    } else {
        topped
    }
}

/// The count that a request at `now` finds under a key: that of the record
/// after the refill, or the capacity where the store holds no record (it
/// never did, or the record has lapsed).
pub open spec fn found_count(
    existing: Option<BucketRecord>,
    capacity: int,
    rate: int,
    now: int,
) -> int {
    match existing {
        Some(record) => refilled_count(record, capacity, rate, now),
        None => capacity,
    }
}

/// Where the clock has not run back and the record holds a count between
/// nothing and the capacity, the store's refill is that of the in-process
/// bucket.
pub proof fn lemma_record_refill_is_bucket_refill(
    record: BucketRecord,
    capacity: nat,
    rate: nat,
    now: nat,
)
    requires
        record.last_refill <= now,
        0 <= record.tokens <= capacity,
    ensures
        refilled_count(record, capacity as int, rate as int, now as int) == (BucketModel {
            tokens: record.tokens as nat,
            capacity,
            refill_rate: rate,
            last_refill: record.last_refill as nat,
        }).available(now),
{
    let elapsed = (now - record.last_refill) as nat;
    assert(accrued_between(record.last_refill as int, now as int, rate as int) == accrued(
        elapsed,
        rate,
    ));
    assert(0 <= elapsed * rate) by (nonlinear_arith);
}

/// What one request does to the record of its key.
#[derive(Debug, Clone, Copy)]
pub struct TakeEffect {
    /// The record to write back, admitted or not.
    pub record: BucketRecord,
    pub admitted: bool,
    /// The lifetime to set on the record, in seconds.
    pub ttl_secs: u64,
}

/// `accrued_between`, computed without overflow.
fn accrual(last_refill: u64, now: u64, rate: u64) -> (added: i128)
    ensures
        added == accrued_between(last_refill as int, now as int, rate as int),
        -340282366920938463463374607431768213 < added < 340282366920938463463374607431768213,
{
    if now >= last_refill {
        let elapsed = now - last_refill;
        assert(elapsed as int * rate as int <= u128::MAX) by (nonlinear_arith)
            requires
                elapsed <= u64::MAX,
                rate <= u64::MAX,
        ;
        assert(0 <= elapsed as int * rate as int) by (nonlinear_arith);
        let product: u128 = (elapsed as u128) * (rate as u128);
        (product / 1000) as i128
    } else {
        let behind = last_refill - now;
        assert(behind as int * rate as int <= u128::MAX) by (nonlinear_arith)
            requires
                behind <= u64::MAX,
                rate <= u64::MAX,
        ;
        assert((now as int - last_refill as int) * rate as int == -(behind as int * rate as int))
            by (nonlinear_arith)
            requires
                behind as int == last_refill as int - now as int,
        ;
        let product: u128 = (behind as u128) * (rate as u128);
        let whole: i128 = (product / 1000) as i128;
        if product % 1000 == 0 {
            -whole
        } else {
            -whole - 1
        }
    }
}

/// `refilled_count`, computed without overflow.
fn refilled(record: BucketRecord, capacity: u64, rate: u64, now: u64) -> (count: i128)
    ensures
        count == refilled_count(record, capacity as int, rate as int, now as int),
        count <= capacity,
{
    let added = accrual(record.last_refill, now, rate);
    let full = capacity as i128;
    if added >= 0 {
        if record.tokens >= full - added {
            full
        } else {
            record.tokens + added
        }
    } else if record.tokens < i128::MIN - added {
        i128::MIN
    } else {
        let topped = record.tokens + added;
        if topped > full {
            full
        } else {
            topped
        }
    }
}

/// The step that the store runs atomically for a request of `cost` at `now`:
/// load the record or start from a full bucket, refill, draw the cost if the
/// count covers it, and write the record back with `now` as its last refill
/// and a fresh lifetime, admitted or not.
pub fn take_from_record(
    existing: Option<BucketRecord>,
    capacity: u64,
    refill_rate: u64,
    cost: u64,
    now: u64,
) -> (effect: TakeEffect)
    ensures
        effect.admitted == (found_count(
            existing,
            capacity as int,
            refill_rate as int,
            now as int,
        ) >= cost),
        effect.record.tokens == found_count(
            existing,
            capacity as int,
            refill_rate as int,
            now as int,
        ) - if effect.admitted {
            cost as int
        } else {
            0
        },
        effect.record.last_refill == now,
        effect.ttl_secs == RECORD_TTL_SECS,
{
    let found = match existing {
        Some(record) => refilled(record, capacity, refill_rate, now),
        None => capacity as i128,
    };
    let admitted = found >= cost as i128;
    let tokens = if admitted {
        found - cost as i128
    } else {
        found
    };
    TakeEffect {
        record: BucketRecord { tokens, last_refill: now },
        admitted,
        ttl_secs: RECORD_TTL_SECS,
    }
}

/// The tokens in use at `now` under a key: none where the store holds no
/// record, else the capacity less the count after the refill. Nothing is
/// written back.
pub fn usage_of_record(existing: Option<BucketRecord>, capacity: u64, refill_rate: u64, now: u64) -> (used:
    u128)
    ensures
        used == match existing {
            Some(record) => capacity - refilled_count(
                record,
                capacity as int,
                refill_rate as int,
                now as int,
            ),
            None => 0,
        },
{
    match existing {
        Some(record) => {
            let count = refilled(record, capacity, refill_rate, now);
            if count >= 0 {
                (capacity as i128 - count) as u128
            } else if count == i128::MIN {
                capacity as u128 + 170141183460469231731687303715884105728
            } else {
                capacity as u128 + (-count) as u128
            }
        },
        None => 0,
    }
}

/// What a backend reports of a usage that it computed from a record: the
/// count, or a failure of storage where the count is more than a backend
/// can report.
pub fn usage_outcome(context: &str, used: u128) -> (outcome: Result<u64, RateLimitError>)
    ensures
        used <= u64::MAX ==> outcome == Ok::<u64, RateLimitError>(used as u64),
        used > u64::MAX ==> (outcome matches Err(RateLimitError::StorageError(text)) && text@
            == context@ + ": "@ + "usage out of range"@),
{
    if used <= u64::MAX as u128 {
        Ok(used as u64)
    } else {
        Err(
            RateLimitError::StorageError(
                String::from_str(context).concat(": ").concat("usage out of range"),
            ),
        )
    }
}

/// The name under which a sharded store keeps the record of `key`: the key
/// in braces, so that the store shards by it, and a suffix.
pub open spec fn cluster_key_spec(key: Seq<char>) -> Seq<char> {
    "{"@ + key + "}:ratelimit"@
}

/// The name under which a sharded store keeps the record of `key`.
pub fn cluster_key(key: &str) -> (name: String)
    ensures
        name@ == cluster_key_spec(key@),
{
    String::from_str("{").concat(key).concat("}:ratelimit")
}

/// Whether the store's answer to a request says that it was admitted: 1 is
/// an admission, every other number a denial.
pub fn reply_admits(reply: i64) -> (admitted: bool)
    ensures
        admitted == (reply == 1),
{
    reply == 1
}

/// The ways in which a call to the store fails.
#[derive(Debug, Clone, Copy)]
pub enum StoreFailure {
    /// The store could not be reached, or the connection broke.
    Unavailable,
    /// The store refused what it was sent: a bad endpoint, a script that
    /// does not compile.
    Misconfigured,
    /// The store did not answer in time, or asked to be tried again.
    Transient,
}

/// A failed call to the store: the way it failed and what the store or the
/// transport said.
#[derive(Debug)]
pub struct StoreFault {
    pub failure: StoreFailure,
    pub detail: String,
}

/// The text of the error for a failed call: what was being done, a colon
/// and a space, and what the store said.
pub open spec fn fault_text(context: Seq<char>, detail: Seq<char>) -> Seq<char> {
    context + ": "@ + detail
}

/// The error for a failure of the store, whatever its kind.
pub fn storage_error(context: &str, detail: &str) -> (error: RateLimitError)
    ensures
        error matches RateLimitError::StorageError(text) && text@ == fault_text(
            context@,
            detail@,
        ),
{
    RateLimitError::StorageError(String::from_str(context).concat(": ").concat(detail))
}

/// Whether `error` is the error owed for `fault` met while doing `context`:
/// a store that refused what it was sent is a matter of configuration, every
/// other failure one of storage.
pub open spec fn is_fault_error(context: Seq<char>, fault: StoreFault, error: RateLimitError) -> bool {
    match fault.failure {
        StoreFailure::Misconfigured => error matches RateLimitError::ConfigError(text) && text@
            == fault_text(context, fault.detail@),
        _ => error matches RateLimitError::StorageError(text) && text@ == fault_text(
            context,
            fault.detail@,
        ),
    }
}

/// The error owed for `fault` met while doing `context`.
pub fn fault_error(context: &str, fault: StoreFault) -> (error: RateLimitError)
    ensures
        is_fault_error(context@, fault, error),
{
    match fault.failure {
        StoreFailure::Misconfigured => RateLimitError::ConfigError(
            String::from_str(context).concat(": ").concat(fault.detail.as_str()),
        ),
        _ => storage_error(context, fault.detail.as_str()),
    }
}

/// What a backend makes of the store's answer to a request for tokens: the
/// admission that the number says, or the error owed for the fault.
pub fn take_outcome(context: &str, reply: Result<i64, StoreFault>) -> (outcome: Result<
    bool,
    RateLimitError,
>)
    ensures
        match reply {
            Ok(number) => outcome == Ok::<bool, RateLimitError>(number == 1),
            Err(fault) => outcome matches Err(error) && is_fault_error(context@, fault, error),
        },
{
    match reply {
        Ok(number) => Ok(reply_admits(number)),
        Err(fault) => Err(fault_error(context, fault)),
    }
}

/// What a backend makes of the store's answer to any other call: the answer
/// itself, or the error owed for the fault.
pub fn store_outcome<T>(context: &str, reply: Result<T, StoreFault>) -> (outcome: Result<
    T,
    RateLimitError,
>)
    ensures
        match reply {
            Ok(answer) => outcome == Ok::<T, RateLimitError>(answer),
            Err(fault) => outcome matches Err(error) && is_fault_error(context@, fault, error),
        },
{
    match reply {
        Ok(answer) => Ok(answer),
        Err(fault) => Err(fault_error(context, fault)),
    }
}

} // verus!
