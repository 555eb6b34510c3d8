//! A cache of expensive lookups: each entry lives for a time of its own, and
//! the number of entries is bounded.
//!
//! A cache counts time in milliseconds on a clock of its own, which starts
//! when the cache is made and never runs backwards.

use crate::clock::{instant_now, millis_since};
use std::time::Instant;
use crate::json::copy_value;
use crate::table::Table;
use serde_json::Value;
use vstd::prelude::*;

verus! {

/// The capacity of a new cache.
pub const DEFAULT_CACHE_SIZE: usize = 1000;

/// The number of connections that a new cache is sized for.
pub const DEFAULT_MAX_CONNECTIONS: usize = 50;

/// A cached value and the time, in milliseconds, from which it is stale.
pub struct CacheEntry {
    pub value: Value,
    pub expires_at: i64,
}

/// The time from which an entry made at `now` with `ttl_ms` to live is stale:
/// their sum, or the latest time there is if the sum lies beyond it.
pub open spec fn expiry(now: i64, ttl_ms: u64) -> i64 {
    if now + ttl_ms > i64::MAX {
        i64::MAX
    } else {
        (now + ttl_ms) as i64
    }
}

/// The entry is not stale at `now`.
pub open spec fn is_live(e: CacheEntry, now: i64) -> bool {
    now < e.expires_at
}

/// The entries of `m` that are not stale at `now`.
pub open spec fn live_part(m: Map<Seq<char>, CacheEntry>, now: i64) -> Map<Seq<char>, CacheEntry> {
    Map::new(|k: Seq<char>| m.contains_key(k) && is_live(m[k], now), |k: Seq<char>| m[k])
}

/// What a cache holding `m` serves for `key` at `now`: the value of a live
/// entry, nothing for a stale or missing one.
pub open spec fn lookup(m: Map<Seq<char>, CacheEntry>, key: Seq<char>, now: i64) -> Option<Value> {
    if m.contains_key(key) && is_live(m[key], now) {
        Some(m[key].value)
    } else {
        None
    }
}

/// `post` and `r` are what a cache holding `pre` comes to and serves when it is
/// asked for `key` at `now`: a live entry is served and stays, a stale one is
/// dropped, and nothing else changes.
pub open spec fn served(
    pre: Map<Seq<char>, CacheEntry>,
    post: Map<Seq<char>, CacheEntry>,
    key: Seq<char>,
    now: i64,
    r: Option<Value>,
) -> bool {
    &&& r == lookup(pre, key, now)
    &&& post == if r.is_some() {
        pre
    } else {
        pre.remove(key)
    }
}

/// `post` is what a cache of capacity `capacity` holding `pre` comes to when
/// `value` is put under `key` at `now` to live for `ttl_ms`, and `evicted` is
/// the key that had to leave: the stale entries are dropped; if the live ones
/// still fill the cache, one of them leaves; then the new entry is in.
pub open spec fn stored(
    pre: Map<Seq<char>, CacheEntry>,
    post: Map<Seq<char>, CacheEntry>,
    capacity: nat,
    key: Seq<char>,
    value: Value,
    ttl_ms: u64,
    now: i64,
    evicted: Option<Seq<char>>,
) -> bool {
    let live = live_part(pre, now);
    let entry = CacheEntry { value, expires_at: expiry(now, ttl_ms) };
    match evicted {
        Some(k) => {
            &&& live.dom().len() >= capacity
            &&& live.contains_key(k)
            &&& post == live.remove(k).insert(key, entry)
        },
        None => {
            &&& live.dom().len() < capacity || live.dom().len() == 0
            &&& post == live.insert(key, entry)
        },
    }
}

/// The text of `t`, if any, as a sequence of characters.
pub open spec fn key_of(t: Option<String>) -> Option<Seq<char>> {
    match t {
        Some(s) => Some(s@),
        None => None,
    }
}

/// A put followed by a get of the same key: the get serves the value that was
/// put, unchanged, at every time before the time to live has passed, and
/// nothing from then on. The latest time there is counts as after every time
/// to live.
pub proof fn lemma_put_then_get(
    pre: Map<Seq<char>, CacheEntry>,
    mid: Map<Seq<char>, CacheEntry>,
    post: Map<Seq<char>, CacheEntry>,
    capacity: nat,
    key: Seq<char>,
    value: Value,
    ttl_ms: u64,
    put_time: i64,
    evicted: Option<Seq<char>>,
    get_time: i64,
    r: Option<Value>,
)
    requires
        stored(pre, mid, capacity, key, value, ttl_ms, put_time, evicted),
        served(mid, post, key, get_time, r),
    ensures
        get_time < put_time + ttl_ms && get_time < i64::MAX ==> r == Some(value),
        get_time >= put_time + ttl_ms ==> r == None::<Value>,
{
}

/// One call on a cache: a get with what it served, or a put with the key that
/// it evicted.
pub ghost enum CacheStep {
    Get { key: Seq<char>, now: i64, result: Option<Value> },
    Put { key: Seq<char>, value: Value, ttl_ms: u64, now: i64, evicted: Option<Seq<char>> },
}

/// `post` is what a cache of capacity `capacity` holding `pre` comes to by the
/// call `step`.
pub open spec fn stepped(
    pre: Map<Seq<char>, CacheEntry>,
    post: Map<Seq<char>, CacheEntry>,
    capacity: nat,
    step: CacheStep,
) -> bool {
    match step {
        CacheStep::Get { key, now, result } => served(pre, post, key, now, result),
        CacheStep::Put { key, value, ttl_ms, now, evicted } => stored(
            pre,
            post,
            capacity,
            key,
            value,
            ttl_ms,
            now,
            evicted,
        ),
    }
}

/// The call is made before `deadline`, and is neither a put under `k` nor a
/// put that evicts `k`.
pub open spec fn spares(step: CacheStep, k: Seq<char>, deadline: i64) -> bool {
    match step {
        CacheStep::Get { now, .. } => now < deadline,
        CacheStep::Put { key, now, evicted, .. } => now < deadline && key != k && evicted
            != Some(k),
    }
}

/// `states` are the contents of a cache of capacity `capacity` before, between
/// and after the calls `steps`.
pub open spec fn run(
    states: Seq<Map<Seq<char>, CacheEntry>>,
    steps: Seq<CacheStep>,
    capacity: nat,
) -> bool {
    &&& states.len() == steps.len() + 1
    &&& forall|i: int|
        0 <= i < steps.len() ==> stepped(states[i], states[i + 1], capacity, #[trigger] steps[i])
}

/// An entry outlives every sequence of gets and puts that are made before it
/// is stale and that neither put under its key nor evict it: it is there
/// afterwards, unchanged.
pub proof fn lemma_entry_outlives_calls(
    states: Seq<Map<Seq<char>, CacheEntry>>,
    steps: Seq<CacheStep>,
    capacity: nat,
    k: Seq<char>,
)
    requires
        run(states, steps, capacity),
        states[0].contains_key(k),
        forall|i: int|
            0 <= i < steps.len() ==> spares(#[trigger] steps[i], k, states[0][k].expires_at),
    ensures
        states.last().contains_key(k),
        states.last()[k] == states[0][k],
    decreases steps.len(),
{
    if steps.len() > 0 {
        let n = steps.len() as int;
        let before = states.drop_last();
        let earlier = steps.drop_last();
        assert forall|i: int| 0 <= i < earlier.len() implies stepped(
            before[i],
            before[i + 1],
            capacity,
            #[trigger] earlier[i],
        ) by {
            assert(stepped(states[i], states[i + 1], capacity, steps[i]));
        }
        assert forall|i: int| 0 <= i < earlier.len() implies spares(
            #[trigger] earlier[i],
            k,
            before[0][k].expires_at,
        ) by {
            assert(spares(steps[i], k, states[0][k].expires_at));
        }
        lemma_entry_outlives_calls(before, earlier, capacity, k);
        assert(before.last() == states[n - 1]);
        assert(stepped(states[n - 1], states[n], capacity, steps[n - 1]));
        assert(spares(steps[n - 1], k, states[0][k].expires_at));
    }
}

/// After a put, and after any sequence of gets and puts that are made before
/// the entry is stale and that neither put under its key nor evict it, a get
/// of the key before the entry is stale serves the value that was put,
/// unchanged, and the entry stays as it was put.
pub proof fn lemma_get_after_calls(
    pre: Map<Seq<char>, CacheEntry>,
    states: Seq<Map<Seq<char>, CacheEntry>>,
    steps: Seq<CacheStep>,
    post: Map<Seq<char>, CacheEntry>,
    capacity: nat,
    key: Seq<char>,
    value: Value,
    ttl_ms: u64,
    put_time: i64,
    evicted: Option<Seq<char>>,
    get_time: i64,
    r: Option<Value>,
)
    requires
        states.len() > 0,
        stored(pre, states[0], capacity, key, value, ttl_ms, put_time, evicted),
        run(states, steps, capacity),
        forall|i: int|
            0 <= i < steps.len() ==> spares(#[trigger] steps[i], key, expiry(put_time, ttl_ms)),
        served(states.last(), post, key, get_time, r),
        get_time < expiry(put_time, ttl_ms),
    ensures
        r == Some(value),
        post.contains_key(key),
        post[key] == (CacheEntry { value, expires_at: expiry(put_time, ttl_ms) }),
{
    lemma_entry_outlives_calls(states, steps, capacity, key);
}

/// What is served for a key does not depend on the entries of other keys:
/// neither a put nor a removal under `other` changes it.
pub proof fn lemma_lookup_ignores_other_keys(
    m: Map<Seq<char>, CacheEntry>,
    key: Seq<char>,
    other: Seq<char>,
    e: CacheEntry,
    now: i64,
)
    requires
        other != key,
    ensures
        lookup(m.insert(other, e), key, now) == lookup(m, key, now),
        lookup(m.remove(other), key, now) == lookup(m, key, now),
{
}

/// Dropping the entries that were stale at an earlier time changes nothing
/// that is served later.
pub proof fn lemma_lookup_after_purge(
    m: Map<Seq<char>, CacheEntry>,
    key: Seq<char>,
    purge_time: i64,
    now: i64,
)
    requires
        purge_time <= now,
    ensures
        lookup(live_part(m, purge_time), key, now) == lookup(m, key, now),
{
}

/// The time from which an entry made at `now` with `ttl_ms` to live is stale.
pub fn expiry_of(now: i64, ttl_ms: u64) -> (t: i64)
    ensures
        t == expiry(now, ttl_ms),
{
    let sum: i128 = now as i128 + ttl_ms as i128;
    if sum > i64::MAX as i128 {
        i64::MAX
    } else {
        sum as i64
    }
}

/// Remembers the results of expensive lookups for a while.
pub struct PerformanceOptimizer {
    query_cache: Table<CacheEntry>,
    max_connections: usize,
    cache_size: usize,
    started: Instant,
}

impl PerformanceOptimizer {
    /// The cache's table is in order, and holds no more entries than the
    /// capacity, or one where the capacity is none.
    pub closed spec fn wf(&self) -> bool {
        &&& self.query_cache.wf()
        &&& self.query_cache.keys().len() <= self.cache_size || self.query_cache.keys().len() <= 1
    }

    /// A well-formed cache holds finitely many entries: no more than its
    /// capacity, or one where the capacity is none.
    pub proof fn lemma_bounded(&self)
        requires
            self.wf(),
        ensures
            self.entries().dom().finite(),
            self.entries().dom().len() <= self.capacity() || self.entries().dom().len() <= 1,
    {
        self.query_cache.lemma_slots();
    }

    /// The entries, each under its key.
    pub closed spec fn entries(&self) -> Map<Seq<char>, CacheEntry> {
        self.query_cache@
    }

    /// The number of entries from which a put makes room first.
    pub closed spec fn capacity(&self) -> nat {
        self.cache_size as nat
    }

    /// The number of connections that the cache is sized for.
    pub closed spec fn connection_limit(&self) -> nat {
        self.max_connections as nat
    }

    /// A cache without entries, of the default capacity.
    pub fn new() -> (c: Self)
        ensures
            c.wf(),
            c.entries() == Map::<Seq<char>, CacheEntry>::empty(),
            c.capacity() == DEFAULT_CACHE_SIZE,
            c.connection_limit() == DEFAULT_MAX_CONNECTIONS,
    {
        Self::with_capacity(DEFAULT_CACHE_SIZE)
    }

    /// A cache without entries, of capacity `cache_size`.
    pub fn with_capacity(cache_size: usize) -> (c: Self)
        ensures
            c.wf(),
            c.entries() == Map::<Seq<char>, CacheEntry>::empty(),
            c.capacity() == cache_size,
            c.connection_limit() == DEFAULT_MAX_CONNECTIONS,
    {
        PerformanceOptimizer {
            query_cache: Table::new(),
            max_connections: DEFAULT_MAX_CONNECTIONS,
            cache_size,
            started: instant_now(),
        }
    }

    /// The number of entries from which a put makes room first.
    pub fn cache_size(&self) -> (n: usize)
        ensures
            n == self.capacity(),
    {
        self.cache_size
    }

    /// The number of connections that the cache is sized for.
    pub fn max_connections(&self) -> (n: usize)
        ensures
            n == self.connection_limit(),
    {
        self.max_connections
    }

    /// The number of entries, stale ones included.
    pub fn len(&self) -> (n: usize)
        requires
            self.wf(),
        ensures
            n == self.entries().dom().len(),
    {
        self.query_cache.len()
    }

    /// Drops every entry that is stale at `now`.
    pub fn cleanup_expired_cache_at(&mut self, now: i64)
        requires
            old(self).wf(),
        ensures
            final(self).wf(),
            final(self).capacity() == old(self).capacity(),
            final(self).connection_limit() == old(self).connection_limit(),
            final(self).entries() == live_part(old(self).entries(), now),
    {
        let mut i: usize = 0;
        while i < self.query_cache.len()
            invariant
                self.wf(),
                self.cache_size == old(self).cache_size,
                self.max_connections == old(self).max_connections,
                i <= self.query_cache.keys().len(),
                forall|k: Seq<char>| #[trigger]
                    self.query_cache@.contains_key(k) ==> old(self).query_cache@.contains_key(k)
                        && self.query_cache@[k] == old(self).query_cache@[k],
                forall|k: Seq<char>|
                    old(self).query_cache@.contains_key(k) && is_live(
                        old(self).query_cache@[k],
                        now,
                    ) ==> #[trigger] self.query_cache@.contains_key(k),
                forall|j: int| 0 <= j < i ==> is_live(#[trigger] self.query_cache.values()[j], now),
            decreases self.query_cache.keys().len() - i,
        {
            proof {
                self.query_cache.lemma_slots();
            }
            if self.query_cache.value_at(i).expires_at <= now {
                let _ = self.query_cache.remove_at(i);
            } else {
                i = i + 1;
            }
        }
        proof {
            self.query_cache.lemma_slots();
            assert forall|k: Seq<char>| self.query_cache@.contains_key(k) implies is_live(
                self.query_cache@[k],
                now,
            ) by {
                let j = self.query_cache.keys().index_of(k);
                assert(self.query_cache.keys()[j] == k);
            }
            assert(self.query_cache@ =~= live_part(old(self).query_cache@, now));
        }
    }

    /// Serves `key` at `now`: a copy of the value of a live entry. A stale
    /// entry under `key` is dropped; nothing else changes.
    pub fn get_cached_result_at(&mut self, key: &str, now: i64) -> (r: Option<Value>)
        requires
            old(self).wf(),
        ensures
            final(self).wf(),
            final(self).capacity() == old(self).capacity(),
            final(self).connection_limit() == old(self).connection_limit(),
            served(old(self).entries(), final(self).entries(), key@, now, r),
    {
        match self.query_cache.position(key) {
            Some(i) => {
                proof {
                    self.query_cache.lemma_slots();
                }
                let entry = self.query_cache.value_at(i);
                if now < entry.expires_at {
                    Some(copy_value(&entry.value))
                } else {
                    let _ = self.query_cache.remove_at(i);
                    None
                }
            },
            None => {
                assert(self.query_cache@ =~= old(self).query_cache@.remove(key@));
                None
            },
        }
    }

    /// Puts `result` under `key` at `now`, to live for `ttl_ms` milliseconds.
    /// First the entries that are stale at `now` are dropped. If the cache is
    /// then still at its capacity, the entry in the first slot leaves, and the
    /// call gives back its key.
    pub fn cache_query_result_at(&mut self, key: String, result: Value, ttl_ms: u64, now: i64) -> (evicted:
        Option<String>)
        requires
            old(self).wf(),
        ensures
            final(self).wf(),
            final(self).capacity() == old(self).capacity(),
            final(self).connection_limit() == old(self).connection_limit(),
            stored(
                old(self).entries(),
                final(self).entries(),
                old(self).capacity(),
                key@,
                result,
                ttl_ms,
                now,
                key_of(evicted),
            ),
    {
        self.cleanup_expired_cache_at(now);
        let n = self.query_cache.len();
        let mut evicted: Option<String> = None;
        if n >= self.cache_size && n > 0 {
            proof {
                self.query_cache.lemma_slots();
            }
            let entry = self.query_cache.remove_at(0);
            evicted = Some(entry.0);
        }
        let expires_at = expiry_of(now, ttl_ms);
        let _ = self.query_cache.insert(key, CacheEntry { value: result, expires_at });
        evicted
    }

    /// Serves `key` as `get_cached_result_at` does, at the time that the
    /// cache's clock shows, which is not below zero.
    pub fn get_cached_result(&mut self, key: &str) -> (r: Option<Value>)
        requires
            old(self).wf(),
        ensures
            final(self).wf(),
            final(self).capacity() == old(self).capacity(),
            final(self).connection_limit() == old(self).connection_limit(),
            exists|now: i64|
                now >= 0 && served(old(self).entries(), final(self).entries(), key@, now, r),
    {
        let now = millis_since(&self.started);
        self.get_cached_result_at(key, now)
    }

    /// Puts `result` under `key` as `cache_query_result_at` does, at the time
    /// that the cache's clock shows, which is not below zero.
    pub fn cache_query_result(&mut self, key: String, result: Value, ttl_ms: u64) -> (evicted:
        Option<String>)
        requires
            old(self).wf(),
        ensures
            final(self).wf(),
            final(self).capacity() == old(self).capacity(),
            final(self).connection_limit() == old(self).connection_limit(),
            exists|now: i64|
                now >= 0 && stored(
                    old(self).entries(),
                    final(self).entries(),
                    old(self).capacity(),
                    key@,
                    result,
                    ttl_ms,
                    now,
                    key_of(evicted),
                ),
    {
        let now = millis_since(&self.started);
        self.cache_query_result_at(key, result, ttl_ms, now)
    }
}

} // verus!
