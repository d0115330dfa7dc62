//! The caching wrapper: a short-lived local shadow of token counts in front
//! of a backend that is costly to ask.
//!
//! The shadow is an estimate. After an admission by the backend it assumes a
//! bucket that was full before the request, and it serves later requests
//! from that estimate until the entry expires. Within one lifetime of an
//! entry the wrapper may therefore admit more than the backend would have:
//! up to the capacity per key and lifetime. The lifetime is bounded by
//! `MAX_CACHE_TTL_MS`; a longer one is cut down to the bound.

use vstd::prelude::*;
use vstd::hash_map::StringHashMap;
use vstd::string::StringExecFns;
use std::time::Duration;
use crate::backend::StorageBackend;
use crate::error::RateLimitError;
use crate::time::{clamp_millis, duration_millis, now_millis};

verus! {

/// The longest lifetime of an entry, in milliseconds.
pub const MAX_CACHE_TTL_MS: u64 = 60_000;

/// The lifetime that a wrapper made with `millis` milliseconds gives its
/// entries: `millis`, but no more than `MAX_CACHE_TTL_MS`.
pub open spec fn bounded_ttl(millis: nat) -> nat {
    if millis <= MAX_CACHE_TTL_MS {
        millis
    } else {
        MAX_CACHE_TTL_MS as nat
    }
}

/// What the wrapper remembers of one key.
pub struct CacheEntryModel {
    /// The tokens that the wrapper believes the bucket to hold.
    pub tokens: nat,
    /// The instant from which the entry no longer counts.
    pub expires_at: nat,
}

/// The instant at which an entry written at `now` expires: `ttl`
/// milliseconds later, or the last instant that can be written down.
pub open spec fn expiry(now: nat, ttl: nat) -> nat {
    if now + ttl <= u64::MAX {
        now + ttl
    } else {
        u64::MAX as nat
    }
}

/// The token count that `cache` offers for `key` at `now`: that of the
/// entry, unless there is none or it has expired.
pub open spec fn cached_tokens(cache: Map<Seq<char>, CacheEntryModel>, key: Seq<char>, now: nat) -> Option<
    nat,
> {
    if cache.contains_key(key) && cache[key].expires_at > now {
        Some(cache[key].tokens)
    } else {
        None
    }
}

/// Whether `cache` covers a request of `cost` for `key` at `now`.
pub open spec fn cache_covers(cache: Map<Seq<char>, CacheEntryModel>, key: Seq<char>, cost: nat, now: nat) -> bool {
    cached_tokens(cache, key, now) matches Some(tokens) && cost <= tokens
}

/// What a bucket of `capacity` holds after a request of `cost`, had it been
/// full before.
pub open spec fn estimate_after(capacity: nat, cost: nat) -> nat {
    if cost <= capacity {
        (capacity - cost) as nat
    } else {
        0
    }
}

#[derive(Debug, Clone, Copy)]
struct CacheEntry {
    tokens: u64,
    expires_at: u64,
}

impl View for CacheEntry {
    type V = CacheEntryModel;

    closed spec fn view(&self) -> CacheEntryModel {
        CacheEntryModel { tokens: self.tokens as nat, expires_at: self.expires_at as nat }
    }
}

/// A backend together with the local shadow of its token counts.
pub struct CachedRedisBackend<B: StorageBackend> {
    redis: B,
    cache: StringHashMap<CacheEntry>,
    cache_ttl: u64,
    capacity: u64,
}

impl<B: StorageBackend> CachedRedisBackend<B> {
    /// The backend behind the cache.
    pub closed spec fn inner(&self) -> B {
        self.redis
    }

    /// The entries of the cache, by key.
    pub closed spec fn cache(&self) -> Map<Seq<char>, CacheEntryModel> {
        Map::new(
            |key: Seq<char>| self.cache@.contains_key(key),
            |key: Seq<char>| self.cache@[key]@,
        )
    }

    /// The lifetime of an entry in milliseconds.
    pub closed spec fn ttl(&self) -> nat {
        self.cache_ttl as nat
    }

    /// The capacity that the wrapper assumes of every bucket.
    pub closed spec fn capacity(&self) -> nat {
        self.capacity as nat
    }

    /// A wrapper over `redis` with an empty cache. `capacity` is the
    /// capacity of the buckets that `redis` keeps; `cache_ttl` is the
    /// lifetime of an entry, counted in whole milliseconds and cut down to
    /// `MAX_CACHE_TTL_MS` where it is longer.
    pub fn new(redis: B, capacity: u64, cache_ttl: Duration) -> (wrapper: Self)
        ensures
            wrapper.inner() == redis,
            wrapper.capacity() == capacity,
            wrapper.ttl() == bounded_ttl(duration_millis(cache_ttl)),
            wrapper.ttl() <= MAX_CACHE_TTL_MS,
            wrapper.cache() == Map::<Seq<char>, CacheEntryModel>::empty(),
    {
        let millis = clamp_millis(cache_ttl.as_millis());
        let wrapper = CachedRedisBackend {
            redis,
            cache: StringHashMap::new(),
            cache_ttl: if millis <= MAX_CACHE_TTL_MS {
                millis
            } else {
                MAX_CACHE_TTL_MS
            },
            capacity,
        };
        assert(wrapper.cache() =~= Map::empty());
        wrapper
    }

    /// The token count that the cache offers for `key` at `now`.
    pub fn get_cached(&self, key: &str, now: u64) -> (tokens: Option<u64>)
        ensures
            match tokens {
                Some(t) => cached_tokens(self.cache(), key@, now as nat) == Some(t as nat),
                None => cached_tokens(self.cache(), key@, now as nat) is None,
            },
    {
        match self.cache.get(key) {
            Some(entry) => {
                if entry.expires_at > now {
                    Some(entry.tokens)
                } else {
                    None
                }
            },
            None => None,
        }
    }

    /// Writes at `now` that the bucket of `key` holds `tokens`.
    pub fn set_cache(&mut self, key: &str, tokens: u64, now: u64)
        ensures
            final(self).cache() == old(self).cache().insert(
                key@,
                CacheEntryModel {
                    tokens: tokens as nat,
                    expires_at: expiry(now as nat, old(self).ttl()),
                },
            ),
            final(self).inner() == old(self).inner(),
            final(self).ttl() == old(self).ttl(),
            final(self).capacity() == old(self).capacity(),
    {
        let expires_at = if now <= u64::MAX - self.cache_ttl {
            now + self.cache_ttl
        } else {
            u64::MAX
        };
        self.cache.insert(String::from_str(key), CacheEntry { tokens, expires_at });
        assert(self.cache() =~= old(self).cache().insert(
            key@,
            CacheEntryModel {
                tokens: tokens as nat,
                expires_at: expiry(now as nat, old(self).ttl()),
            },
        ));
    }

    /// What `take_token_at` does.
    ///
    /// A request that the cache covers is admitted without a word to the
    /// backend, and the entry is lowered by the cost and written anew.
    /// Otherwise the backend is asked; its answer is handed on, and after an
    /// admission the entry is set to the estimate for a bucket that was full.
    pub open spec fn take_token_at_spec(
        &self,
        after: &Self,
        key: &str,
        cost: u64,
        now: nat,
        outcome: Result<bool, RateLimitError>,
    ) -> bool {
        &&& after.ttl() == self.ttl()
        &&& after.capacity() == self.capacity()
        &&& if cache_covers(self.cache(), key@, cost as nat, now) {
            &&& after.inner() == self.inner()
            &&& after.cache() == self.cache().insert(
                key@,
                CacheEntryModel {
                    tokens: (self.cache()[key@].tokens - cost) as nat,
                    expires_at: expiry(now, self.ttl()),
                },
            )
            &&& outcome == Ok::<bool, RateLimitError>(true)
        } else {
            &&& self.inner().take_token_spec(&after.inner(), key, cost, outcome)
            &&& after.cache() == if outcome == Ok::<bool, RateLimitError>(true) {
                self.cache().insert(
                    key@,
                    CacheEntryModel {
                        tokens: estimate_after(self.capacity(), cost as nat),
                        expires_at: expiry(now, self.ttl()),
                    },
                )
            } else {
                self.cache()
            }
        }
    }

    /// Serves a request of `cost` for `key` at `now`.
    pub fn take_token_at(&mut self, key: &str, cost: u64, now: u64) -> (outcome: Result<
        bool,
        RateLimitError,
    >)
        ensures
            old(self).take_token_at_spec(final(self), key, cost, now as nat, outcome),
    {
        match self.get_cached(key, now) {
            Some(tokens) => {
                if tokens >= cost {
                    self.set_cache(key, tokens - cost, now);
                    return Ok(true);
                }
            },
            None => {},
        }
        let outcome = self.redis.take_token(key, cost);
        match outcome {
            Ok(true) => {
                let estimate = if cost <= self.capacity {
                    self.capacity - cost
                } else {
                    0
                };
                self.set_cache(key, estimate, now);
            },
            _ => {},
        }
        outcome
    }
}

impl<B: StorageBackend> StorageBackend for CachedRedisBackend<B> {
    /// Some instant `now` exists at which the call was `take_token_at`.
    open spec fn take_token_spec(
        &self,
        after: &Self,
        key: &str,
        cost: u64,
        outcome: Result<bool, RateLimitError>,
    ) -> bool {
        exists|now: nat| #[trigger] self.take_token_at_spec(after, key, cost, now, outcome)
    }

    /// The backend was asked and the cache was left alone.
    open spec fn get_usage_spec(
        &self,
        after: &Self,
        key: &str,
        outcome: Result<u64, RateLimitError>,
    ) -> bool {
        &&& after.ttl() == self.ttl()
        &&& after.capacity() == self.capacity()
        &&& after.cache() == self.cache()
        &&& self.inner().get_usage_spec(&after.inner(), key, outcome)
    }

    /// The entry of `key` is dropped, then the backend resets the key.
    open spec fn reset_spec(
        &self,
        after: &Self,
        key: &str,
        outcome: Result<(), RateLimitError>,
    ) -> bool {
        &&& after.ttl() == self.ttl()
        &&& after.capacity() == self.capacity()
        &&& after.cache() == self.cache().remove(key@)
        &&& self.inner().reset_spec(&after.inner(), key, outcome)
    }

    fn take_token(&mut self, key: &str, cost: u64) -> (outcome: Result<bool, RateLimitError>) {
        let now = now_millis();
        let outcome = self.take_token_at(key, cost, now);
        assert(old(self).take_token_at_spec(self, key, cost, now as nat, outcome));
        outcome
    }

    fn get_usage(&mut self, key: &str) -> (outcome: Result<u64, RateLimitError>) {
        self.redis.get_usage(key)
    }

    fn reset(&mut self, key: &str) -> (outcome: Result<(), RateLimitError>) {
        self.cache.remove(key);
        assert(self.cache() =~= old(self).cache().remove(key@));
        self.redis.reset(key)
    }
}

} // verus!
