use guardian::backend::StorageBackend;
use guardian::bucket::TokenBucketConfig;
use guardian::caching::{CachedRedisBackend, MAX_CACHE_TTL_MS};
use guardian::error::RateLimitError;
use guardian::memory::MemoryBackend;
use std::time::Duration;

/// Admits what its script says, call by call, and counts the calls.
struct Scripted {
    replies: Vec<Result<bool, RateLimitError>>,
    calls: u64,
    resets: u64,
}

impl Scripted {
    fn new(mut replies: Vec<Result<bool, RateLimitError>>) -> Scripted {
        replies.reverse();
        Scripted { replies, calls: 0, resets: 0 }
    }
}

impl StorageBackend for Scripted {
    fn take_token(&mut self, _key: &str, _cost: u64) -> Result<bool, RateLimitError> {
        self.calls += 1;
        match self.replies.pop() {
            Some(reply) => reply,
            None => Ok(false),
        }
    }

    fn get_usage(&mut self, _key: &str) -> Result<u64, RateLimitError> {
        Ok(self.calls)
    }

    fn reset(&mut self, _key: &str) -> Result<(), RateLimitError> {
        self.resets += 1;
        Ok(())
    }
}

#[test]
fn a_new_cache_offers_nothing() {
    let wrapper = CachedRedisBackend::new(Scripted::new(vec![]), 100, Duration::from_millis(50));
    assert_eq!(wrapper.get_cached("k", 0), None);
}

#[test]
fn set_cache_is_read_back_until_it_expires() {
    let mut wrapper =
        CachedRedisBackend::new(Scripted::new(vec![]), 100, Duration::from_millis(50));
    wrapper.set_cache("k", 42, 1_000);
    assert_eq!(wrapper.get_cached("k", 1_000), Some(42));
    assert_eq!(wrapper.get_cached("k", 1_049), Some(42));
    assert_eq!(wrapper.get_cached("k", 1_050), None);
    assert_eq!(wrapper.get_cached("k", 9_000), None);
    assert_eq!(wrapper.get_cached("other", 1_000), None);
}

#[test]
fn the_lifetime_counts_whole_milliseconds() {
    let mut wrapper =
        CachedRedisBackend::new(Scripted::new(vec![]), 100, Duration::from_micros(2_999));
    wrapper.set_cache("k", 1, 10);
    assert_eq!(wrapper.get_cached("k", 11), Some(1));
    assert_eq!(wrapper.get_cached("k", 12), None);
}

#[test]
fn a_lifetime_above_the_bound_is_cut_down_to_it() {
    assert_eq!(MAX_CACHE_TTL_MS, 60_000);
    let mut wrapper =
        CachedRedisBackend::new(Scripted::new(vec![]), 100, Duration::from_secs(u64::MAX));
    wrapper.set_cache("k", 1, 5);
    assert_eq!(wrapper.get_cached("k", 60_004), Some(1));
    assert_eq!(wrapper.get_cached("k", 60_005), None);

    let mut wrapper =
        CachedRedisBackend::new(Scripted::new(vec![]), 100, Duration::from_millis(60_001));
    wrapper.set_cache("k", 1, 0);
    assert_eq!(wrapper.get_cached("k", 59_999), Some(1));
    assert_eq!(wrapper.get_cached("k", 60_000), None);

    let mut wrapper =
        CachedRedisBackend::new(Scripted::new(vec![]), 100, Duration::from_millis(59_999));
    wrapper.set_cache("k", 1, 0);
    assert_eq!(wrapper.get_cached("k", 59_998), Some(1));
    assert_eq!(wrapper.get_cached("k", 59_999), None);
}

#[test]
fn an_expiry_beyond_the_last_instant_stops_there() {
    let mut wrapper =
        CachedRedisBackend::new(Scripted::new(vec![]), 100, Duration::from_millis(50));
    wrapper.set_cache("k", 1, u64::MAX - 10);
    assert_eq!(wrapper.get_cached("k", u64::MAX - 1), Some(1));
    assert_eq!(wrapper.get_cached("k", u64::MAX), None);
}

#[test]
fn a_lifetime_of_nothing_keeps_nothing() {
    let mut wrapper = CachedRedisBackend::new(Scripted::new(vec![]), 100, Duration::ZERO);
    wrapper.set_cache("k", 1, 7);
    assert_eq!(wrapper.get_cached("k", 7), None);
}

#[test]
fn an_admission_fills_the_cache_with_the_estimate() {
    let mut wrapper =
        CachedRedisBackend::new(Scripted::new(vec![Ok(true)]), 100, Duration::from_millis(50));
    assert!(wrapper.take_token_at("k", 30, 1_000).unwrap());
    assert_eq!(wrapper.get_cached("k", 1_000), Some(70));
    assert_eq!(wrapper.get_usage("k").unwrap(), 1);
}

#[test]
fn a_covered_request_does_not_reach_the_backend() {
    let mut wrapper =
        CachedRedisBackend::new(Scripted::new(vec![Ok(true)]), 100, Duration::from_millis(50));
    assert!(wrapper.take_token_at("k", 30, 1_000).unwrap());
    assert!(wrapper.take_token_at("k", 50, 1_010).unwrap());
    assert_eq!(wrapper.get_cached("k", 1_010), Some(20));
    assert_eq!(wrapper.get_cached("k", 1_059), Some(20));
    assert_eq!(wrapper.get_cached("k", 1_060), None);
    assert_eq!(wrapper.get_usage("k").unwrap(), 1);
}

#[test]
fn a_request_above_the_cached_count_goes_to_the_backend() {
    let mut wrapper = CachedRedisBackend::new(
        Scripted::new(vec![Ok(true), Ok(false)]),
        100,
        Duration::from_millis(50),
    );
    assert!(wrapper.take_token_at("k", 30, 1_000).unwrap());
    assert!(!wrapper.take_token_at("k", 71, 1_001).unwrap());
    assert_eq!(wrapper.get_cached("k", 1_001), Some(70));
    assert_eq!(wrapper.get_usage("k").unwrap(), 2);
}

#[test]
fn an_expired_entry_goes_to_the_backend() {
    let mut wrapper = CachedRedisBackend::new(
        Scripted::new(vec![Ok(true), Ok(true)]),
        100,
        Duration::from_millis(50),
    );
    assert!(wrapper.take_token_at("k", 30, 1_000).unwrap());
    assert!(wrapper.take_token_at("k", 1, 1_050).unwrap());
    assert_eq!(wrapper.get_cached("k", 1_050), Some(99));
    assert_eq!(wrapper.get_usage("k").unwrap(), 2);
}

#[test]
fn an_admission_above_the_capacity_leaves_an_estimate_of_zero() {
    let mut wrapper =
        CachedRedisBackend::new(Scripted::new(vec![Ok(true)]), 10, Duration::from_millis(50));
    assert!(wrapper.take_token_at("k", 11, 0).unwrap());
    assert_eq!(wrapper.get_cached("k", 0), Some(0));
}

#[test]
fn a_denial_and_an_error_leave_the_cache() {
    let mut wrapper = CachedRedisBackend::new(
        Scripted::new(vec![Ok(false), Err(RateLimitError::StorageError("down".to_string()))]),
        100,
        Duration::from_millis(50),
    );
    assert!(!wrapper.take_token_at("k", 1, 0).unwrap());
    assert_eq!(wrapper.get_cached("k", 0), None);
    match wrapper.take_token_at("k", 1, 0) {
        Err(RateLimitError::StorageError(text)) => assert_eq!(text, "down"),
        _ => panic!("the error of the backend must be handed on"),
    }
    assert_eq!(wrapper.get_cached("k", 0), None);
}

#[test]
fn cost_zero_is_served_from_a_fresh_entry() {
    let mut wrapper =
        CachedRedisBackend::new(Scripted::new(vec![]), 100, Duration::from_millis(50));
    wrapper.set_cache("k", 0, 0);
    assert!(wrapper.take_token_at("k", 0, 10).unwrap());
    assert_eq!(wrapper.get_cached("k", 59), Some(0));
    assert_eq!(wrapper.get_usage("k").unwrap(), 0);
}

#[test]
fn reset_evicts_the_entry_and_resets_the_backend() {
    let config = TokenBucketConfig {
        capacity: 10,
        refill_rate: 0,
        refill_interval: Duration::from_secs(1),
    };
    let mut wrapper =
        CachedRedisBackend::new(MemoryBackend::new(config), 10, Duration::from_secs(60));
    assert!(wrapper.take_token("k", 4).unwrap());
    assert_eq!(wrapper.get_usage("k").unwrap(), 4);
    assert!(wrapper.take_token("k", 6).unwrap());
    assert_eq!(wrapper.get_usage("k").unwrap(), 4);
    wrapper.reset("k").unwrap();
    assert_eq!(wrapper.get_usage("k").unwrap(), 0);
    assert!(wrapper.take_token("k", 10).unwrap());
    assert_eq!(wrapper.get_usage("k").unwrap(), 10);
}
