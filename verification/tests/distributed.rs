use guardian::distributed::{
    cluster_key, fault_error, reply_admits, storage_error, store_outcome, take_from_record,
    take_outcome, usage_of_record, usage_outcome, BucketRecord, StoreFailure, StoreFault,
    RECORD_TTL_SECS,
};
use guardian::error::RateLimitError;

#[test]
fn a_missing_record_starts_from_a_full_bucket() {
    let effect = take_from_record(None, 100, 10, 30, 5_000);
    assert!(effect.admitted);
    assert_eq!(effect.record.tokens, 70);
    assert_eq!(effect.record.last_refill, 5_000);
    assert_eq!(effect.ttl_secs, 3600);
    assert_eq!(RECORD_TTL_SECS, 3600);
}

#[test]
fn a_record_is_refilled_before_the_cost_is_drawn() {
    let record = BucketRecord { tokens: 0, last_refill: 1_000 };
    let effect = take_from_record(Some(record), 100, 10, 5, 1_499);
    assert!(!effect.admitted);
    assert_eq!(effect.record.tokens, 4);
    assert_eq!(effect.record.last_refill, 1_499);
    assert_eq!(effect.ttl_secs, 3600);

    let effect = take_from_record(Some(record), 100, 10, 5, 1_500);
    assert!(effect.admitted);
    assert_eq!(effect.record.tokens, 0);
    assert_eq!(effect.record.last_refill, 1_500);
}

#[test]
fn a_clock_behind_the_record_takes_tokens_away() {
    let record = BucketRecord { tokens: 10, last_refill: 2_000 };
    let effect = take_from_record(Some(record), 10, 1, 10, 1_000);
    assert!(!effect.admitted);
    assert_eq!(effect.record.tokens, 9);
    assert_eq!(effect.record.last_refill, 1_000);
    assert_eq!(effect.ttl_secs, 3600);

    let effect = take_from_record(Some(record), 10, 1, 9, 1_000);
    assert!(effect.admitted);
    assert_eq!(effect.record.tokens, 0);
    assert_eq!(effect.record.last_refill, 1_000);

    let effect = take_from_record(Some(record), 10, 1, 10, 1_999);
    assert!(!effect.admitted);
    assert_eq!(effect.record.tokens, 9);

    let effect = take_from_record(Some(record), 10, 1_000, 10, 1_999);
    assert!(!effect.admitted);
    assert_eq!(effect.record.tokens, 9);
    assert_eq!(effect.record.last_refill, 1_999);
}

#[test]
fn a_count_may_fall_below_zero() {
    let record = BucketRecord { tokens: 0, last_refill: 2_000 };
    let effect = take_from_record(Some(record), 10, 1, 0, 1_000);
    assert!(!effect.admitted);
    assert_eq!(effect.record.tokens, -1);
    assert_eq!(effect.record.last_refill, 1_000);

    let effect = take_from_record(Some(effect.record), 10, 1, 0, 2_000);
    assert!(effect.admitted);
    assert_eq!(effect.record.tokens, 0);

    let record = BucketRecord { tokens: 3, last_refill: 10_000 };
    let effect = take_from_record(Some(record), 10, 7, 1, 9_000);
    assert!(!effect.admitted);
    assert_eq!(effect.record.tokens, -4);
    assert_eq!(usage_of_record(Some(record), 10, 7, 9_000), 14);
}

#[test]
fn the_step_does_not_overflow() {
    let record = BucketRecord { tokens: 0, last_refill: u64::MAX };
    let effect = take_from_record(Some(record), u64::MAX, u64::MAX, 1, 0);
    assert!(!effect.admitted);
    assert_eq!(effect.record.tokens, -340282366920938463426481119284349109);
    assert_eq!(effect.record.last_refill, 0);
    assert_eq!(
        usage_of_record(Some(record), u64::MAX, u64::MAX, 0),
        340282366920938481873225192993900724
    );

    let record = BucketRecord { tokens: i128::MIN, last_refill: 1 };
    let effect = take_from_record(Some(record), 10, 1_000, 0, 0);
    assert!(!effect.admitted);
    assert_eq!(effect.record.tokens, i128::MIN);
    assert_eq!(
        usage_of_record(Some(record), 10, 1_000, 0),
        170141183460469231731687303715884105738
    );

    let record = BucketRecord { tokens: i128::MAX, last_refill: 0 };
    let effect = take_from_record(Some(record), 10, u64::MAX, 3, u64::MAX);
    assert!(effect.admitted);
    assert_eq!(effect.record.tokens, 7);
    assert_eq!(usage_of_record(Some(record), 10, u64::MAX, u64::MAX), 0);
}

#[test]
fn a_record_above_the_capacity_is_cut_down_to_it() {
    let record = BucketRecord { tokens: 500, last_refill: 1_000 };
    let effect = take_from_record(Some(record), 100, 10, 1, 1_000);
    assert!(effect.admitted);
    assert_eq!(effect.record.tokens, 99);
    assert_eq!(usage_of_record(Some(record), 100, 10, 1_000), 0);
    assert_eq!(usage_of_record(Some(record), 100, 10, 0), 0);
    assert_eq!(usage_of_record(Some(record), 100, 1_000, 0), 100 + 500);
}

#[test]
fn a_cost_above_the_capacity_is_denied_by_the_store() {
    let effect = take_from_record(None, 100, 10, 101, 0);
    assert!(!effect.admitted);
    assert_eq!(effect.record.tokens, 100);
    let effect = take_from_record(None, 100, 10, 0, 0);
    assert!(effect.admitted);
    assert_eq!(effect.record.tokens, 100);
}

#[test]
fn two_callers_of_one_store_share_the_capacity() {
    let mut stored: Option<BucketRecord> = None;
    let mut first = 0u64;
    let mut second = 0u64;
    for round in 0..1_000u64 {
        let effect = take_from_record(stored, 500, 0, 1, round);
        stored = Some(effect.record);
        if effect.admitted {
            first += 1;
        }
        let effect = take_from_record(stored, 500, 0, 1, round);
        stored = Some(effect.record);
        if effect.admitted {
            second += 1;
        }
    }
    assert_eq!(first + second, 500);
    assert_eq!(first, 250);
}

#[test]
fn usage_is_read_after_the_refill_and_without_a_record_is_zero() {
    assert_eq!(usage_of_record(None, 100, 10, 123), 0);
    let record = BucketRecord { tokens: 40, last_refill: 1_000 };
    assert_eq!(usage_of_record(Some(record), 100, 10, 1_000), 60);
    assert_eq!(usage_of_record(Some(record), 100, 10, 2_500), 45);
    assert_eq!(usage_of_record(Some(record), 100, 10, 999), 61);
    assert_eq!(usage_of_record(Some(record), 100, 10, 900), 61);
    assert_eq!(usage_of_record(Some(record), 100, 10, 899), 62);
    assert_eq!(usage_of_record(Some(record), 100, 10, 0), 70);
    assert_eq!(usage_of_record(Some(record), 100, 10, 60_000), 0);
}

#[test]
fn cluster_key_wraps_the_key_in_braces() {
    assert_eq!(cluster_key("user123"), "{user123}:ratelimit");
    assert_eq!(cluster_key(""), "{}:ratelimit");
    assert_eq!(cluster_key("a{b}"), "{a{b}}:ratelimit");
}

#[test]
fn only_one_is_an_admission() {
    assert!(reply_admits(1));
    assert!(!reply_admits(0));
    assert!(!reply_admits(2));
    assert!(!reply_admits(-1));
}

#[test]
fn storage_error_joins_context_and_detail() {
    match storage_error("Redis delete error", "connection refused") {
        RateLimitError::StorageError(text) => {
            assert_eq!(text, "Redis delete error: connection refused")
        }
        _ => panic!("a failure of the store is a StorageError"),
    }
}

fn fault(failure: StoreFailure, detail: &str) -> StoreFault {
    StoreFault { failure, detail: detail.to_string() }
}

#[test]
fn a_refusal_by_the_store_is_a_matter_of_configuration() {
    match fault_error("Redis script execution error", fault(StoreFailure::Misconfigured, "ERR")) {
        RateLimitError::ConfigError(text) => assert_eq!(text, "Redis script execution error: ERR"),
        _ => panic!("a refusal by the store is a ConfigError"),
    }
}

#[test]
fn every_other_fault_is_one_of_storage() {
    match fault_error("Redis delete error", fault(StoreFailure::Unavailable, "refused")) {
        RateLimitError::StorageError(text) => assert_eq!(text, "Redis delete error: refused"),
        _ => panic!("an unreachable store is a StorageError"),
    }
    match fault_error("Redis delete error", fault(StoreFailure::Transient, "timed out")) {
        RateLimitError::StorageError(text) => assert_eq!(text, "Redis delete error: timed out"),
        _ => panic!("a timeout is a StorageError"),
    }
}

#[test]
fn take_outcome_reads_the_reply() {
    assert!(take_outcome("Redis script execution error", Ok(1)).unwrap());
    assert!(!take_outcome("Redis script execution error", Ok(0)).unwrap());
    assert!(!take_outcome("Redis script execution error", Ok(7)).unwrap());
    match take_outcome(
        "Redis script execution error",
        Err(fault(StoreFailure::Transient, "timed out")),
    ) {
        Err(RateLimitError::StorageError(text)) => {
            assert_eq!(text, "Redis script execution error: timed out")
        }
        _ => panic!("a failure of the store is a StorageError"),
    }
    match take_outcome("Cluster script execution error", Err(fault(StoreFailure::Misconfigured, "x"))) {
        Err(RateLimitError::ConfigError(text)) => {
            assert_eq!(text, "Cluster script execution error: x")
        }
        _ => panic!("a refusal by the store is a ConfigError"),
    }
}

#[test]
fn store_outcome_hands_the_answer_on() {
    assert_eq!(store_outcome("Redis get error", Ok(66u64)).unwrap(), 66);
    assert!(store_outcome("Redis delete error", Ok(())).is_ok());
    match store_outcome::<u64>("Redis get error", Err(fault(StoreFailure::Unavailable, "gone"))) {
        Err(RateLimitError::StorageError(text)) => assert_eq!(text, "Redis get error: gone"),
        _ => panic!("an unreachable store is a StorageError"),
    }
}

#[test]
fn a_usage_that_a_backend_cannot_report_is_a_failure_of_storage() {
    assert_eq!(usage_outcome("Redis get error", 0).unwrap(), 0);
    assert_eq!(usage_outcome("Redis get error", 61).unwrap(), 61);
    assert_eq!(usage_outcome("Redis get error", u64::MAX as u128).unwrap(), u64::MAX);
    match usage_outcome("Redis get error", u64::MAX as u128 + 1) {
        Err(RateLimitError::StorageError(text)) => {
            assert_eq!(text, "Redis get error: usage out of range")
        }
        _ => panic!("a usage above the largest count is a StorageError"),
    }
}
