//! The batching wrapper: it draws tokens from its backend a batch at a time
//! and serves requests from the batch it holds, so that most requests cost
//! no call to the backend.
//!
//! Tokens are drawn one by one. A batch that cannot be drawn in full is not
//! handed back: the tokens drawn before the refusal are lost to the caller
//! and return through the refill of the backend. A request above the batch
//! size is never admitted here, though it still costs a batch.

use vstd::prelude::*;
use vstd::hash_map::StringHashMap;
use vstd::string::StringExecFns;
use crate::backend::StorageBackend;
use crate::error::RateLimitError;
use crate::time::now_millis;

verus! {

/// How long a batch is meant to last, in milliseconds.
pub const BATCH_LIFETIME_MS: u64 = 60_000;

/// The tokens that a wrapper holds for one key.
pub struct BatchModel {
    /// What is left of the batch.
    pub available: nat,
    /// The instant at which the batch is due for renewal; a note for
    /// operators, no request is refused on its account.
    pub reserved_until: nat,
}

/// The instant that lies `BATCH_LIFETIME_MS` after `now`, or the last
/// instant that can be written down.
pub open spec fn renewal_due(now: nat) -> nat {
    if now + BATCH_LIFETIME_MS <= u64::MAX {
        now + BATCH_LIFETIME_MS as nat
    } else {
        u64::MAX as nat
    }
}

/// The batch of `batch_size` tokens drawn at `now`, after a request of
/// `cost` was served from it if it covers the request.
pub open spec fn fresh_batch(batch_size: nat, cost: nat, now: nat) -> BatchModel {
    BatchModel {
        available: if cost <= batch_size {
            (batch_size - cost) as nat
        } else {
            batch_size
        },
        reserved_until: renewal_due(now),
    }
}

/// Whether the batches in `local` cover a request of `cost` for `key`.
pub open spec fn serves_locally(local: Map<Seq<char>, BatchModel>, key: Seq<char>, cost: nat) -> bool {
    local.contains_key(key) && cost <= local[key].available
}

/// The batches after a request of `cost` for `key` was served from them.
pub open spec fn served(local: Map<Seq<char>, BatchModel>, key: Seq<char>, cost: nat) -> Map<
    Seq<char>,
    BatchModel,
> {
    local.insert(key, BatchModel { available: (local[key].available - cost) as nat, ..local[key] })
}

/// `after` is what `before` may become through one admitted call of
/// `take_token` for one token of `key`.
pub open spec fn drawn_once<B: StorageBackend>(before: B, after: B, key: &str) -> bool {
    before.take_token_spec(&after, key, 1, Ok(true))
}

/// `after` is what `before` may become through `n` calls of `take_token`
/// for one token of `key`, each of them admitted.
pub open spec fn drawn<B: StorageBackend>(before: B, after: B, key: &str, n: nat) -> bool
    decreases n,
{
    if n == 0 {
        after == before
    } else {
        exists|mid: B| drawn(before, mid, key, (n - 1) as nat) && #[trigger] drawn_once(mid, after, key)
    }
}

/// One more admitted call extends a run of them.
pub proof fn lemma_drawn_one_more<B: StorageBackend>(before: B, mid: B, after: B, key: &str, n: nat)
    requires
        drawn(before, mid, key, n),
        drawn_once(mid, after, key),
    ensures
        drawn(before, after, key, n + 1),
{
    assert(drawn(before, mid, key, ((n + 1) - 1) as nat) && drawn_once(mid, after, key));
}

/// What drawing a batch of `n` tokens for `key` may do to the backend.
///
/// `Ok(true)`: all `n` single tokens were admitted. Anything else is the
/// answer of the first call that was not admitted, after fewer than `n`
/// admitted ones.
pub open spec fn reserve_spec<B: StorageBackend>(
    before: B,
    after: B,
    key: &str,
    n: nat,
    outcome: Result<bool, RateLimitError>,
) -> bool {
    if outcome == Ok::<bool, RateLimitError>(true) {
        drawn(before, after, key, n)
    } else {
        exists|i: nat, mid: B| #[trigger]
            drawn(before, mid, key, i) && i < n && mid.take_token_spec(&after, key, 1, outcome)
    }
}

#[derive(Debug, Clone, Copy)]
struct LocalBatch {
    available: u64,
    reserved_until: u64,
}

impl View for LocalBatch {
    type V = BatchModel;

    closed spec fn view(&self) -> BatchModel {
        BatchModel {
            available: self.available as nat,
            reserved_until: self.reserved_until as nat,
        }
    }
}

/// The batches of one wrapper, none larger than the batch size.
struct BatchTable {
    entries: StringHashMap<LocalBatch>,
    batch_size: u64,
}

impl View for BatchTable {
    type V = Map<Seq<char>, BatchModel>;

    closed spec fn view(&self) -> Map<Seq<char>, BatchModel> {
        Map::new(
            |key: Seq<char>| self.entries@.contains_key(key),
            |key: Seq<char>| self.entries@[key]@,
        )
    }
}

impl BatchTable {
    #[verifier::type_invariant]
    spec fn inv(self) -> bool {
        forall|key: Seq<char>| #[trigger]
            self.entries@.contains_key(key) ==> self.entries@[key].available <= self.batch_size
    }

    closed spec fn limit(&self) -> nat {
        self.batch_size as nat
    }

    fn new(batch_size: u64) -> (table: Self)
        ensures
            table@ == Map::<Seq<char>, BatchModel>::empty(),
            table.limit() == batch_size,
    {
        let table = BatchTable { entries: StringHashMap::new(), batch_size };
        assert(table@ =~= Map::empty());
        table
    }

    fn batch_size(&self) -> (n: u64)
        ensures
            n == self.limit(),
    {
        self.batch_size
    }

    /// Puts `batch` under `key`, in place of what was there.
    fn put(&mut self, key: &str, batch: LocalBatch)
        requires
            batch@.available <= old(self).limit(),
        ensures
            final(self)@ == old(self)@.insert(key@, batch@),
            final(self).limit() == old(self).limit(),
    {
        proof {
            use_type_invariant(&*self);
        }
        // The table is taken out, changed and put back whole: the invariant
        // is then owed once, on the assignment.
        let mut entries = StringHashMap::new();
        std::mem::swap(&mut self.entries, &mut entries);
        entries.insert(String::from_str(key), batch);
        self.entries = entries;
        assert(self@ =~= old(self)@.insert(key@, batch@));
    }

    /// Serves a request of `cost` for `key` from the batch held for it, if
    /// that batch covers the request.
    fn try_draw(&mut self, key: &str, cost: u64) -> (hit: bool)
        ensures
            hit == serves_locally(old(self)@, key@, cost as nat),
            final(self)@ == if hit {
                served(old(self)@, key@, cost as nat)
            } else {
                old(self)@
            },
            final(self).limit() == old(self).limit(),
    {
        proof {
            use_type_invariant(&*self);
        }
        let found = match self.entries.get(key) {
            Some(batch) => Some(*batch),
            None => None,
        };
        match found {
            Some(batch) => {
                if batch.available >= cost {
                    self.put(
                        key,
                        LocalBatch {
                            available: batch.available - cost,
                            reserved_until: batch.reserved_until,
                        },
                    );
                    true
                } else {
                    false
                }
            },
            None => false,
        }
    }

    /// Replaces the batch of `key` by one drawn at `now`, and serves a
    /// request of `cost` from it if the batch size covers the request.
    fn renew(&mut self, key: &str, cost: u64, now: u64) -> (hit: bool)
        ensures
            hit == (cost <= old(self).limit()),
            final(self)@ == old(self)@.insert(
                key@,
                fresh_batch(old(self).limit(), cost as nat, now as nat),
            ),
            final(self).limit() == old(self).limit(),
    {
        let hit = cost <= self.batch_size;
        let available = if hit {
            self.batch_size - cost
        } else {
            self.batch_size
        };
        let reserved_until = if now <= u64::MAX - BATCH_LIFETIME_MS {
            now + BATCH_LIFETIME_MS
        } else {
            u64::MAX
        };
        self.put(key, LocalBatch { available, reserved_until });
        hit
    }

    /// Drops the batch of `key`.
    fn forget(&mut self, key: &str)
        ensures
            final(self)@ == old(self)@.remove(key@),
            final(self).limit() == old(self).limit(),
    {
        proof {
            use_type_invariant(&*self);
        }
        // The table is taken out, changed and put back whole: the invariant
        // is then owed once, on the assignment.
        let mut entries = StringHashMap::new();
        std::mem::swap(&mut self.entries, &mut entries);
        entries.remove(key);
        self.entries = entries;
        assert(self@ =~= old(self)@.remove(key@));
    }
}

/// A backend together with the batches drawn from it.
pub struct BatchingBackend<B: StorageBackend> {
    backend: B,
    local_cache: BatchTable,
}

impl<B: StorageBackend> BatchingBackend<B> {
    /// The backend that the batches are drawn from.
    pub closed spec fn backend(&self) -> B {
        self.backend
    }

    /// The tokens drawn per batch.
    pub closed spec fn batch_size(&self) -> nat {
        self.local_cache.limit()
    }

    /// The batches held, by key.
    pub closed spec fn local(&self) -> Map<Seq<char>, BatchModel> {
        self.local_cache@
    }

    /// No batch holds more than the batch size.
    pub open spec fn within_batch_size(&self) -> bool {
        forall|key: Seq<char>| #[trigger]
            self.local().contains_key(key) ==> self.local()[key].available <= self.batch_size()
    }

    /// A wrapper over `backend` that holds no batch yet.
    pub fn new(backend: B, batch_size: u64) -> (wrapper: Self)
        ensures
            wrapper.backend() == backend,
            wrapper.batch_size() == batch_size,
            wrapper.local() == Map::<Seq<char>, BatchModel>::empty(),
    {
        BatchingBackend { backend, local_cache: BatchTable::new(batch_size) }
    }

    /// Draws one batch for `key` from the backend, token by token, and stops
    /// at the first call that is not admitted.
    pub fn reserve_batch(&mut self, key: &str) -> (outcome: Result<bool, RateLimitError>)
        ensures
            reserve_spec(
                old(self).backend(),
                final(self).backend(),
                key,
                old(self).batch_size(),
                outcome,
            ),
            final(self).local() == old(self).local(),
            final(self).batch_size() == old(self).batch_size(),
    {
        let batch_size = self.local_cache.batch_size();
        let mut taken: u64 = 0;
        while taken < batch_size
            invariant
                taken <= batch_size,
                batch_size == old(self).batch_size(),
                drawn(old(self).backend(), self.backend(), key, taken as nat),
                self.local_cache == old(self).local_cache,
            decreases batch_size - taken,
        {
            let ghost mid = self.backend;
            let reply = self.backend.take_token(key, 1);
            match reply {
                Ok(true) => {
                    taken = taken + 1;
                    proof {
                        lemma_drawn_one_more(
                            old(self).backend(),
                            mid,
                            self.backend(),
                            key,
                            (taken - 1) as nat,
                        );
                    }
                },
                _ => {
                    assert(drawn(old(self).backend(), mid, key, taken as nat));
                    return reply;
                },
            }
        }
        Ok(true)
    }

    /// What `take_token_at` does.
    ///
    /// A request that the batch of its key covers is served from it and the
    /// backend is left alone. Otherwise a batch is drawn: if the backend
    /// gives it in full, it replaces the batch held for the key, and the
    /// request is admitted if and only if the batch size covers it; if not,
    /// the batches stay as they were and the answer that stopped the
    /// drawing is handed on.
    pub open spec fn take_token_at_spec(
        &self,
        after: &Self,
        key: &str,
        cost: u64,
        now: nat,
        outcome: Result<bool, RateLimitError>,
    ) -> bool {
        &&& after.batch_size() == self.batch_size()
        &&& if serves_locally(self.local(), key@, cost as nat) {
            &&& after.backend() == self.backend()
            &&& after.local() == served(self.local(), key@, cost as nat)
            &&& outcome == Ok::<bool, RateLimitError>(true)
        } else {
            exists|reserved: Result<bool, RateLimitError>|
                {
                    &&& #[trigger] reserve_spec(
                        self.backend(),
                        after.backend(),
                        key,
                        self.batch_size(),
                        reserved,
                    )
                    &&& if reserved == Ok::<bool, RateLimitError>(true) {
                        &&& after.local() == self.local().insert(
                            key@,
                            fresh_batch(self.batch_size(), cost as nat, now),
                        )
                        &&& outcome == Ok::<bool, RateLimitError>(cost <= self.batch_size())
                    } else {
                        &&& after.local() == self.local()
                        &&& outcome == reserved
                    }
                }
        }
    }

    /// Serves a request of `cost` for `key` at `now`.
    pub fn take_token_at(&mut self, key: &str, cost: u64, now: u64) -> (outcome: Result<
        bool,
        RateLimitError,
    >)
        ensures
            old(self).take_token_at_spec(final(self), key, cost, now as nat, outcome),
            final(self).within_batch_size(),
            cost > old(self).batch_size() ==> outcome != Ok::<bool, RateLimitError>(true),
    {
        let ghost before = *self;
        proof {
            use_type_invariant(&self.local_cache);
        }
        if self.local_cache.try_draw(key, cost) {
            proof {
                use_type_invariant(&self.local_cache);
            }
            return Ok(true);
        }
        let reserved = self.reserve_batch(key);
        let ghost seen = reserved;
        let outcome = match reserved {
            Ok(true) => Ok(self.local_cache.renew(key, cost, now)),
            _ => reserved,
        };
        proof {
            use_type_invariant(&self.local_cache);
            assert(reserve_spec(
                before.backend(),
                self.backend(),
                key,
                before.batch_size(),
                seen,
            ));
        }
        outcome
    }
}

impl<B: StorageBackend> StorageBackend for BatchingBackend<B> {
    /// Some instant `now` exists at which the call was `take_token_at`.
    open spec fn take_token_spec(
        &self,
        after: &Self,
        key: &str,
        cost: u64,
        outcome: Result<bool, RateLimitError>,
    ) -> bool {
        exists|now: nat| #[trigger] self.take_token_at_spec(after, key, cost, now, outcome)
    }

    /// The backend was asked and the batches were left alone; what the
    /// batches hold is not counted as used.
    open spec fn get_usage_spec(
        &self,
        after: &Self,
        key: &str,
        outcome: Result<u64, RateLimitError>,
    ) -> bool {
        &&& after.batch_size() == self.batch_size()
        &&& after.local() == self.local()
        &&& self.backend().get_usage_spec(&after.backend(), key, outcome)
    }

    /// The batch of `key` is dropped, then the backend resets the key.
    open spec fn reset_spec(
        &self,
        after: &Self,
        key: &str,
        outcome: Result<(), RateLimitError>,
    ) -> bool {
        &&& after.batch_size() == self.batch_size()
        &&& after.local() == self.local().remove(key@)
        &&& self.backend().reset_spec(&after.backend(), key, outcome)
    }

    fn take_token(&mut self, key: &str, cost: u64) -> (outcome: Result<bool, RateLimitError>)
        ensures
            final(self).within_batch_size(),
            cost > old(self).batch_size() ==> outcome != Ok::<bool, RateLimitError>(true),
    {
        let now = now_millis();
        let outcome = self.take_token_at(key, cost, now);
        assert(old(self).take_token_at_spec(self, key, cost, now as nat, outcome));
        outcome
    }

    fn get_usage(&mut self, key: &str) -> (outcome: Result<u64, RateLimitError>) {
        self.backend.get_usage(key)
    }

    fn reset(&mut self, key: &str) -> (outcome: Result<(), RateLimitError>) {
        self.local_cache.forget(key);
        self.backend.reset(key)
    }
}

} // verus!
