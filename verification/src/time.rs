//! Durations and the wall clock.
//!
//! The library computes with instants given as milliseconds since the Unix
//! epoch. This file holds what is taken on trust about `std::time`: how long
//! a `Duration` is, and where the current instant comes from.

use vstd::prelude::*;
use std::time::{Duration, SystemTime, UNIX_EPOCH};

verus! {

/// The length of a `Duration` in nanoseconds.
pub uninterp spec fn duration_nanos(d: Duration) -> nat;

/// The length of a `Duration` in whole seconds.
pub open spec fn duration_secs(d: Duration) -> nat {
    duration_nanos(d) / 1_000_000_000
}

/// The length of a `Duration` in whole milliseconds.
pub open spec fn duration_millis(d: Duration) -> nat {
    duration_nanos(d) / 1_000_000
}

/// `Duration::from_secs`: a duration of exactly `secs` seconds.
pub assume_specification[ Duration::from_secs ](secs: u64) -> (d: Duration)
    ensures
        duration_nanos(d) == secs as nat * 1_000_000_000,
;

/// `Duration::as_secs`: the whole seconds that the duration holds.
pub assume_specification[ Duration::as_secs ](d: &Duration) -> (secs: u64)
    ensures
        secs as nat == duration_secs(*d),
;

/// `Duration::as_millis`: the whole milliseconds that the duration holds.
pub assume_specification[ Duration::as_millis ](d: &Duration) -> (millis: u128)
    ensures
        millis as nat == duration_millis(*d),
;

#[verifier::external_type_specification]
#[verifier::external_body]
pub struct ExSystemTime(SystemTime);

/// `SystemTime::now`: the wall clock's current reading. Nothing is promised
/// of it; two readings may even go backwards.
#[verifier::external_body]
fn system_now() -> (t: SystemTime) {
    SystemTime::now()
}

/// `SystemTime::duration_since` against `UNIX_EPOCH`: how far `t` lies after
/// the epoch, or `None` where it lies before.
#[verifier::external_body]
fn since_epoch(t: &SystemTime) -> (d: Option<Duration>) {
    t.duration_since(UNIX_EPOCH).ok()
}

/// Brings a millisecond count into `u64`, stopping at the largest value.
pub fn clamp_millis(millis: u128) -> (m: u64)
    ensures
        m as nat == if millis <= u64::MAX { millis as nat } else { u64::MAX as nat },
{
    if millis > u64::MAX as u128 {
        u64::MAX
    } else {
        millis as u64
    }
}

/// The instant that a reading of the clock stands for: its distance from the
/// epoch in milliseconds, 0 for a reading before the epoch.
pub fn millis_of(reading: Option<Duration>) -> (m: u64)
    ensures
        m as nat == match reading {
            Some(d) => if duration_millis(d) <= u64::MAX {
                duration_millis(d)
            } else {
                u64::MAX as nat
            },
            None => 0nat,
        },
{
    match reading {
        Some(d) => clamp_millis(d.as_millis()),
        None => 0,
    }
}

/// The current instant in milliseconds since the Unix epoch: the wall clock
/// is read once and the reading is counted as `millis_of` says.
///
/// Nothing holds of the wall clock at every instant, so nothing is promised
/// of the count. Who calls this is proved for every `u64`.
pub fn now_millis() -> u64 {
    let t = system_now();
    millis_of(since_epoch(&t))
}

} // verus!
