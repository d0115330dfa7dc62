use guardian::backend::StorageBackend;
use guardian::batching::BatchingBackend;
use guardian::bucket::TokenBucketConfig;
use guardian::error::RateLimitError;
use guardian::memory::MemoryBackend;
use std::time::Duration;

/// Counts the calls it gets, admits the first `budget` single tokens, and
/// fails from the call numbered `fail_at` on.
struct Counting {
    calls: u64,
    resets: u64,
    budget: u64,
    fail_at: u64,
}

impl Counting {
    fn with_budget(budget: u64) -> Counting {
        Counting { calls: 0, resets: 0, budget, fail_at: u64::MAX }
    }
}

impl StorageBackend for Counting {
    fn take_token(&mut self, _key: &str, cost: u64) -> Result<bool, RateLimitError> {
        self.calls += 1;
        if self.calls >= self.fail_at {
            return Err(RateLimitError::StorageError("store is down".to_string()));
        }
        if cost <= self.budget {
            self.budget -= cost;
            Ok(true)
        } else {
            Ok(false)
        }
    }

    fn get_usage(&mut self, _key: &str) -> Result<u64, RateLimitError> {
        Ok(self.calls)
    }

    fn reset(&mut self, _key: &str) -> Result<(), RateLimitError> {
        self.resets += 1;
        Ok(())
    }
}

fn memory(capacity: u64, refill_rate: u64) -> MemoryBackend {
    MemoryBackend::new(TokenBucketConfig {
        capacity,
        refill_rate,
        refill_interval: Duration::from_secs(1),
    })
}

#[test]
fn five_hundred_checks_cost_five_hundred_single_draws() {
    let mut wrapper = BatchingBackend::new(Counting::with_budget(1000), 100);
    for round in 0..500u64 {
        assert!(wrapper.take_token_at("k", 1, round).unwrap());
        assert_eq!(wrapper.get_usage("k").unwrap(), (round / 100 + 1) * 100);
    }
    assert_eq!(wrapper.get_usage("k").unwrap(), 500);
}

#[test]
fn five_hundred_checks_draw_five_batches() {
    let mut wrapper = BatchingBackend::new(memory(1000, 100), 100);
    for _ in 0..500 {
        assert!(wrapper.take_token("k", 1).unwrap());
    }
    assert!(wrapper.get_usage("k").unwrap() <= 500);
}

#[test]
fn one_batch_serves_as_many_requests_as_it_holds() {
    let mut wrapper = BatchingBackend::new(memory(1000, 0), 100);
    assert!(wrapper.take_token_at("k", 1, 0).unwrap());
    assert_eq!(wrapper.get_usage("k").unwrap(), 100);
    for _ in 0..99 {
        assert!(wrapper.take_token_at("k", 1, 0).unwrap());
    }
    assert_eq!(wrapper.get_usage("k").unwrap(), 100);
    assert!(wrapper.take_token_at("k", 1, 0).unwrap());
    assert_eq!(wrapper.get_usage("k").unwrap(), 200);
}

#[test]
fn a_request_that_the_batch_cannot_cover_draws_a_new_batch() {
    let mut wrapper = BatchingBackend::new(memory(1000, 0), 10);
    assert!(wrapper.take_token_at("k", 7, 0).unwrap());
    assert_eq!(wrapper.get_usage("k").unwrap(), 10);
    assert!(wrapper.take_token_at("k", 7, 0).unwrap());
    assert_eq!(wrapper.get_usage("k").unwrap(), 20);
    assert!(wrapper.take_token_at("k", 3, 0).unwrap());
    assert_eq!(wrapper.get_usage("k").unwrap(), 20);
    assert!(wrapper.take_token_at("k", 1, 0).unwrap());
    assert_eq!(wrapper.get_usage("k").unwrap(), 30);
}

#[test]
fn a_cost_above_the_batch_size_is_denied() {
    let mut wrapper = BatchingBackend::new(memory(1000, 0), 10);
    assert!(!wrapper.take_token_at("k", 11, 0).unwrap());
    assert!(!wrapper.take_token("k", 11).unwrap());
    assert!(wrapper.take_token_at("k", 10, 0).unwrap());
    assert_eq!(wrapper.get_usage("k").unwrap(), 20);
}

#[test]
fn a_batch_of_size_zero_admits_only_cost_zero() {
    let mut wrapper = BatchingBackend::new(Counting::with_budget(100), 0);
    assert!(!wrapper.take_token_at("k", 1, 0).unwrap());
    assert!(wrapper.take_token_at("k", 0, 0).unwrap());
    assert_eq!(wrapper.get_usage("k").unwrap(), 0);
}

#[test]
fn a_refused_batch_is_a_denial_and_keeps_the_batches() {
    let mut wrapper = BatchingBackend::new(Counting::with_budget(15), 10);
    assert!(wrapper.take_token_at("k", 4, 0).unwrap());
    assert_eq!(wrapper.get_usage("k").unwrap(), 10);
    assert!(!wrapper.take_token_at("k", 7, 0).unwrap());
    assert_eq!(wrapper.get_usage("k").unwrap(), 16);
    assert!(wrapper.take_token_at("k", 6, 0).unwrap());
    assert_eq!(wrapper.get_usage("k").unwrap(), 16);
}

#[test]
fn an_error_of_the_backend_is_handed_on() {
    let mut backend = Counting::with_budget(100);
    backend.fail_at = 4;
    let mut wrapper = BatchingBackend::new(backend, 10);
    match wrapper.take_token_at("k", 1, 0) {
        Err(RateLimitError::StorageError(text)) => assert_eq!(text, "store is down"),
        _ => panic!("the error of the backend must be handed on"),
    }
    assert_eq!(wrapper.get_usage("k").unwrap(), 4);
    match wrapper.reserve_batch("k") {
        Err(RateLimitError::StorageError(text)) => assert_eq!(text, "store is down"),
        _ => panic!("the error of the backend must be handed on"),
    }
}

#[test]
fn reserve_batch_draws_token_by_token() {
    let mut wrapper = BatchingBackend::new(Counting::with_budget(25), 10);
    assert!(wrapper.reserve_batch("k").unwrap());
    assert_eq!(wrapper.get_usage("k").unwrap(), 10);
    assert!(wrapper.reserve_batch("k").unwrap());
    assert_eq!(wrapper.get_usage("k").unwrap(), 20);
    assert!(!wrapper.reserve_batch("k").unwrap());
    assert_eq!(wrapper.get_usage("k").unwrap(), 26);
}

#[test]
fn batches_are_kept_by_key() {
    let mut wrapper = BatchingBackend::new(memory(100, 0), 10);
    assert!(wrapper.take_token_at("a", 1, 0).unwrap());
    assert!(wrapper.take_token_at("b", 1, 0).unwrap());
    assert_eq!(wrapper.get_usage("a").unwrap(), 10);
    assert_eq!(wrapper.get_usage("b").unwrap(), 10);
}

#[test]
fn reset_drops_the_batch_and_resets_the_backend() {
    let mut wrapper = BatchingBackend::new(memory(20, 0), 10);
    assert!(wrapper.take_token_at("k", 1, 0).unwrap());
    assert_eq!(wrapper.get_usage("k").unwrap(), 10);
    wrapper.reset("k").unwrap();
    assert_eq!(wrapper.get_usage("k").unwrap(), 0);
    assert!(wrapper.take_token_at("k", 1, 0).unwrap());
    assert_eq!(wrapper.get_usage("k").unwrap(), 10);
}

#[test]
fn usage_is_that_of_the_backend() {
    let mut wrapper = BatchingBackend::new(memory(100, 0), 10);
    assert!(wrapper.take_token_at("k", 1, 0).unwrap());
    assert_eq!(wrapper.get_usage("k").unwrap(), 10);
}
