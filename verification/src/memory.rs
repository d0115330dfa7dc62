//! The in-process backend: a table from client key to bucket, filled lazily.

use vstd::prelude::*;
use vstd::hash_map::StringHashMap;
use vstd::string::StringExecFns;
use crate::backend::StorageBackend;
use crate::bucket::{BucketModel, TokenBucket, TokenBucketConfig};
use crate::error::RateLimitError;
use crate::time::now_millis;

verus! {

/// The mathematical table that a `MemoryBackend` stands for.
pub struct TableModel {
    pub capacity: nat,
    pub refill_rate: nat,
    /// The buckets that exist; a key without one has not been seen since it
    /// was last reset.
    pub buckets: Map<Seq<char>, BucketModel>,
}

impl TableModel {
    /// Every bucket has the table's limits and holds no more than its
    /// capacity.
    pub open spec fn wf(self) -> bool {
        forall|key: Seq<char>| #[trigger]
            self.buckets.contains_key(key) ==> {
                &&& self.buckets[key].wf()
                &&& self.buckets[key].capacity == self.capacity
                &&& self.buckets[key].refill_rate == self.refill_rate
            }
    }

    /// The table without any bucket.
    pub open spec fn empty(capacity: nat, refill_rate: nat) -> TableModel {
        TableModel { capacity, refill_rate, buckets: Map::empty() }
    }

    /// The bucket that a request for `key` at `now` works on: the one in the
    /// table, or a full one created at `now`.
    pub open spec fn bucket_at(self, key: Seq<char>, now: nat) -> BucketModel {
        if self.buckets.contains_key(key) {
            self.buckets[key]
        } else {
            BucketModel::full(self.capacity, self.refill_rate, now)
        }
    }

    /// Whether a request of `cost` for `key` at `now` is admitted.
    pub open spec fn admits(self, key: Seq<char>, cost: nat, now: nat) -> bool {
        self.bucket_at(key, now).admits(cost, now)
    }

    /// The table after a request of `cost` for `key` at `now`.
    pub open spec fn take(self, key: Seq<char>, cost: nat, now: nat) -> TableModel {
        TableModel {
            buckets: self.buckets.insert(key, self.bucket_at(key, now).take(cost, now)),
            ..self
        }
    }

    /// The tokens of `key` in use at `now`.
    pub open spec fn usage(self, key: Seq<char>, now: nat) -> nat {
        (self.capacity - self.bucket_at(key, now).available(now)) as nat
    }

    /// The table after the usage of `key` was read at `now`: the bucket
    /// exists and is refilled.
    pub open spec fn touch(self, key: Seq<char>, now: nat) -> TableModel {
        TableModel {
            buckets: self.buckets.insert(key, self.bucket_at(key, now).refill(now)),
            ..self
        }
    }

    /// The table without the bucket of `key`.
    pub open spec fn reset(self, key: Seq<char>) -> TableModel {
        TableModel { buckets: self.buckets.remove(key), ..self }
    }
}

/// Buckets kept in this process, one per key, all with the same limits.
pub struct MemoryBackend {
    buckets: StringHashMap<TokenBucket>,
    config: TokenBucketConfig,
}

impl View for MemoryBackend {
    type V = TableModel;

    closed spec fn view(&self) -> TableModel {
        TableModel {
            capacity: self.config.capacity as nat,
            refill_rate: self.config.refill_rate as nat,
            buckets: Map::new(
                |key: Seq<char>| self.buckets@.contains_key(key),
                |key: Seq<char>| self.buckets@[key]@,
            ),
        }
    }
}

impl MemoryBackend {
    #[verifier::type_invariant]
    spec fn inv(self) -> bool {
        self@.wf()
    }

    /// A backend without buckets; each key starts with a full bucket of the
    /// limits in `config`.
    pub fn new(config: TokenBucketConfig) -> (backend: Self)
        ensures
            backend@ == TableModel::empty(config.capacity as nat, config.refill_rate as nat),
            backend@.wf(),
    {
        let backend = MemoryBackend { buckets: StringHashMap::new(), config };
        assert(backend@.buckets =~= Map::empty());
        backend
    }

    /// The capacity that every bucket of this backend has.
    pub fn capacity(&self) -> (c: u64)
        ensures
            c == self@.capacity,
            self@.wf(),
    {
        proof {
            use_type_invariant(self);
        }
        self.config.capacity
    }

    /// The bucket that a request for `key` at `now` works on.
    fn bucket_for(&self, key: &str, now: u64) -> (bucket: TokenBucket)
        ensures
            bucket@ == self@.bucket_at(key@, now as nat),
            bucket@.wf(),
            bucket@.capacity == self@.capacity,
            bucket@.refill_rate == self@.refill_rate,
    {
        proof {
            use_type_invariant(self);
        }
        match self.buckets.get(key) {
            Some(found) => {
                assert(self@.buckets.contains_key(key@));
                *found
            },
            None => TokenBucket::new_at(self.config.clone(), now),
        }
    }

    /// Puts `bucket` under `key`, in place of what was there.
    fn store(&mut self, key: &str, bucket: TokenBucket)
        requires
            bucket@.wf(),
            bucket@.capacity == old(self)@.capacity,
            bucket@.refill_rate == old(self)@.refill_rate,
        ensures
            final(self)@ == (TableModel {
                buckets: old(self)@.buckets.insert(key@, bucket@),
                ..old(self)@
            }),
            final(self)@.wf(),
    {
        proof {
            use_type_invariant(&*self);
        }
        // The table is taken out, changed and put back whole: the invariant
        // is then owed once, on the assignment.
        let mut buckets = StringHashMap::new();
        std::mem::swap(&mut self.buckets, &mut buckets);
        buckets.insert(String::from_str(key), bucket);
        proof {
            assert forall|k: Seq<char>| #[trigger] buckets@.contains_key(k) implies {
                &&& buckets@[k]@.wf()
                &&& buckets@[k]@.capacity == self.config.capacity
                &&& buckets@[k]@.refill_rate == self.config.refill_rate
            } by {
                if k != key@ {
                    assert(old(self)@.buckets.contains_key(k));
                }
            }
        }
        self.buckets = buckets;
        assert(self@.buckets =~= old(self)@.buckets.insert(key@, bucket@));
    }

    /// Asks at `now` for `cost` tokens of the bucket of `key`, creating the
    /// bucket where the key is new. Never fails.
    pub fn take_token_at(&mut self, key: &str, cost: u64, now: u64) -> (outcome: Result<
        bool,
        RateLimitError,
    >)
        ensures
            final(self)@ == old(self)@.take(key@, cost as nat, now as nat),
            final(self)@.wf(),
            outcome == Ok::<bool, RateLimitError>(old(self)@.admits(key@, cost as nat, now as nat)),
    {
        let mut bucket = self.bucket_for(key, now);
        let consumed = bucket.try_consume_at(cost, now);
        self.store(key, bucket);
        match consumed {
            Ok(()) => Ok(true),
            Err(_) => Ok(false),
        }
    }

    /// The tokens of `key` in use at `now`. Reading creates the bucket where
    /// the key is new, and refills it.
    pub fn get_usage_at(&mut self, key: &str, now: u64) -> (outcome: Result<u64, RateLimitError>)
        ensures
            final(self)@ == old(self)@.touch(key@, now as nat),
            final(self)@.wf(),
            outcome == Ok::<u64, RateLimitError>(old(self)@.usage(key@, now as nat) as u64),
            old(self)@.usage(key@, now as nat) <= old(self)@.capacity,
    {
        let mut bucket = self.bucket_for(key, now);
        let available = bucket.available_tokens_at(now);
        self.store(key, bucket);
        Ok(self.config.capacity - available)
    }
}

impl StorageBackend for MemoryBackend {
    /// Some instant `now` exists at which the call was `take_token_at`.
    open spec fn take_token_spec(
        &self,
        after: &Self,
        key: &str,
        cost: u64,
        outcome: Result<bool, RateLimitError>,
    ) -> bool {
        exists|now: nat|
            {
                &&& after@ == #[trigger] self@.take(key@, cost as nat, now)
                &&& outcome == Ok::<bool, RateLimitError>(self@.admits(key@, cost as nat, now))
            }
    }

    /// Some instant `now` exists at which the call was `get_usage_at`.
    open spec fn get_usage_spec(
        &self,
        after: &Self,
        key: &str,
        outcome: Result<u64, RateLimitError>,
    ) -> bool {
        exists|now: nat|
            {
                &&& after@ == #[trigger] self@.touch(key@, now)
                &&& outcome == Ok::<u64, RateLimitError>(self@.usage(key@, now) as u64)
            }
    }

    /// The bucket of `key` is gone and the call succeeds.
    open spec fn reset_spec(
        &self,
        after: &Self,
        key: &str,
        outcome: Result<(), RateLimitError>,
    ) -> bool {
        &&& after@ == self@.reset(key@)
        &&& outcome is Ok
    }

    fn take_token(&mut self, key: &str, cost: u64) -> (outcome: Result<bool, RateLimitError>)
        ensures
            final(self)@.wf(),
            cost == 0 ==> outcome == Ok::<bool, RateLimitError>(true),
            cost > old(self)@.capacity ==> outcome == Ok::<bool, RateLimitError>(false),
    {
        proof {
            use_type_invariant(&*self);
        }
        let now = now_millis();
        let outcome = self.take_token_at(key, cost, now);
        assert(self@ == old(self)@.take(key@, cost as nat, now as nat));
        outcome
    }

    fn get_usage(&mut self, key: &str) -> (outcome: Result<u64, RateLimitError>)
        ensures
            final(self)@.wf(),
            outcome matches Ok(used) && used <= old(self)@.capacity,
    {
        let now = now_millis();
        let outcome = self.get_usage_at(key, now);
        assert(self@ == old(self)@.touch(key@, now as nat));
        outcome
    }

    fn reset(&mut self, key: &str) -> (outcome: Result<(), RateLimitError>)
        ensures
            final(self)@.wf(),
    {
        proof {
            use_type_invariant(&*self);
        }
        // The table is taken out, changed and put back whole: the invariant
        // is then owed once, on the assignment.
        let mut buckets = StringHashMap::new();
        std::mem::swap(&mut self.buckets, &mut buckets);
        buckets.remove(key);
        proof {
            assert forall|k: Seq<char>| #[trigger] buckets@.contains_key(k) implies {
                &&& buckets@[k]@.wf()
                &&& buckets@[k]@.capacity == self.config.capacity
                &&& buckets@[k]@.refill_rate == self.config.refill_rate
            } by {
                assert(old(self)@.buckets.contains_key(k));
            }
        }
        self.buckets = buckets;
        assert(self@.buckets =~= old(self)@.reset(key@).buckets);
        Ok(())
    }
}

} // verus!
