//! The bounded two-namespace cache: profiles keyed by identifier and records
//! keyed by canonical URI, each an LRU cache of the `lru` crate with its own
//! capacity, with hit, miss and eviction counters.

use vstd::prelude::*;
use std::collections::hash_map::RandomState;
use std::num::NonZeroUsize;
use std::sync::Arc;
use lru::LruCache;
use crate::models::{BlueskyPost, BlueskyProfile};

verus! {

/// The `lru` crate's cache, opaque to proofs; its contents are named by
/// `lru_entries` and `lru_capacity`.
#[verifier::external_type_specification]
#[verifier::external_body]
#[verifier::reject_recursive_types(K)]
#[verifier::reject_recursive_types(V)]
#[verifier::reject_recursive_types(S)]
pub struct ExLruCache<K, V, S>(LruCache<K, V, S>);

/// A value held by either namespace; shared, so that reads do not copy it.
#[derive(Clone)]
pub enum CachedValue {
    Profile(Arc<BlueskyProfile>),
    Post(Arc<BlueskyPost>),
}

/// One cache entry: the key's text and the value.
pub type Entry = (Seq<char>, CachedValue);

/// The entries of an LRU cache, least recently used first.
pub uninterp spec fn lru_entries(c: LruCache<String, CachedValue, RandomState>) -> Seq<Entry>;

/// The capacity an LRU cache was made with.
pub uninterp spec fn lru_capacity(c: LruCache<String, CachedValue, RandomState>) -> nat;

/// Position of the entry with key `k`, or -1.
pub open spec fn key_index(e: Seq<Entry>, k: Seq<char>) -> int {
    if exists|i: int| 0 <= i < e.len() && (#[trigger] e[i]).0 == k {
        choose|i: int| 0 <= i < e.len() && (#[trigger] e[i]).0 == k
    } else {
        -1
    }
}

/// Entries after a hit on position `i`: it becomes the most recently used.
pub open spec fn after_touch(e: Seq<Entry>, i: int) -> Seq<Entry> {
    e.remove(i).push(e[i])
}

/// Entries after putting `k` with `v`: an existing entry is replaced and
/// becomes the most recent; else, at capacity, the least recently used entry
/// is evicted before the new one is added as the most recent.
pub open spec fn after_put(e: Seq<Entry>, cap: nat, k: Seq<char>, v: CachedValue) -> Seq<Entry> {
    let i = key_index(e, k);
    if i >= 0 {
        e.remove(i).push((k, v))
    } else if e.len() >= cap {
        e.drop_first().push((k, v))
    } else {
        e.push((k, v))
    }
}

/// Whether a put of `k` evicts another entry.
pub open spec fn put_evicts(e: Seq<Entry>, cap: nat, k: Seq<char>) -> bool {
    key_index(e, k) < 0 && e.len() >= cap
}

/// Keys are distinct and the entries fit the capacity.
pub open spec fn lru_model_wf(e: Seq<Entry>, cap: nat) -> bool {
    &&& cap > 0
    &&& e.len() <= cap
    &&& forall|i: int, j: int| 0 <= i < j < e.len() ==> (#[trigger] e[i]).0 != (#[trigger] e[j]).0
}

/// Relies on `LruCache::with_hasher`: an empty cache of capacity `cap`.
#[verifier::external_body]
fn lru_new(cap: usize) -> (r: LruCache<String, CachedValue, RandomState>)
    requires
        cap > 0,
    ensures
        lru_entries(r) == Seq::<Entry>::empty(),
        lru_capacity(r) == cap,
{
    LruCache::with_hasher(NonZeroUsize::new(cap).unwrap(), RandomState::new())
}

/// Relies on `LruCache::get`: the value of `k` if present, which becomes the
/// most recently used entry.
#[verifier::external_body]
fn lru_get(c: &mut LruCache<String, CachedValue, RandomState>, k: &str) -> (r: Option<CachedValue>)
    ensures
        lru_capacity(*final(c)) == lru_capacity(*old(c)),
        key_index(lru_entries(*old(c)), k@) >= 0 ==> {
            let i = key_index(lru_entries(*old(c)), k@);
            &&& r == Some(lru_entries(*old(c))[i].1)
            &&& lru_entries(*final(c)) == after_touch(lru_entries(*old(c)), i)
        },
        key_index(lru_entries(*old(c)), k@) < 0 ==> r is None && lru_entries(*final(c)) == lru_entries(*old(c)),
{
    c.get(k).cloned()
}

/// Relies on `LruCache::contains`: whether `k` is present; recency is untouched.
#[verifier::external_body]
fn lru_contains(c: &LruCache<String, CachedValue, RandomState>, k: &str) -> (r: bool)
    ensures
        r == (key_index(lru_entries(*c), k@) >= 0),
{
    c.contains(k)
}

/// Relies on `LruCache::put`: inserts or replaces, evicting the least
/// recently used entry when a new key arrives at capacity.
#[verifier::external_body]
fn lru_put(c: &mut LruCache<String, CachedValue, RandomState>, k: String, v: CachedValue)
    ensures
        lru_capacity(*final(c)) == lru_capacity(*old(c)),
        lru_entries(*final(c)) == after_put(lru_entries(*old(c)), lru_capacity(*old(c)), k@, v),
{
    c.put(k, v);
}

/// Relies on `LruCache::len`: the number of entries.
#[verifier::external_body]
fn lru_len(c: &LruCache<String, CachedValue, RandomState>) -> (r: usize)
    ensures
        r == lru_entries(*c).len(),
{
    c.len()
}

/// Relies on `LruCache::cap`: the capacity the cache was made with.
#[verifier::external_body]
fn lru_cap(c: &LruCache<String, CachedValue, RandomState>) -> (r: usize)
    ensures
        r == lru_capacity(*c),
{
    c.cap().get()
}

/// Relies on `LruCache::clear`: removes every entry.
#[verifier::external_body]
fn lru_clear(c: &mut LruCache<String, CachedValue, RandomState>)
    ensures
        lru_capacity(*final(c)) == lru_capacity(*old(c)),
        lru_entries(*final(c)) == Seq::<Entry>::empty(),
{
    c.clear();
}

pub proof fn lemma_key_index(e: Seq<Entry>, k: Seq<char>)
    ensures
        key_index(e, k) >= 0 ==> key_index(e, k) < e.len() && e[key_index(e, k)].0 == k,
        key_index(e, k) < 0 ==> key_index(e, k) == -1 && forall|i: int| 0 <= i < e.len() ==> (#[trigger] e[i]).0 != k,
{
}

/// A put keeps the keys distinct and the size within the capacity; an
/// eviction removes the least recently used entry and nothing else.
pub proof fn lemma_put_preserves(e: Seq<Entry>, cap: nat, k: Seq<char>, v: CachedValue)
    requires
        lru_model_wf(e, cap),
    ensures
        lru_model_wf(after_put(e, cap, k, v), cap),
        after_put(e, cap, k, v).last() == (k, v),
        put_evicts(e, cap, k) ==> after_put(e, cap, k, v) == e.subrange(1, e.len() as int).push((k, v)),
        !put_evicts(e, cap, k) ==> after_put(e, cap, k, v).len() == if key_index(e, k) >= 0 { e.len() } else { e.len() + 1 },
{
    lemma_key_index(e, k);
    let r = after_put(e, cap, k, v);
    let i = key_index(e, k);
    if i >= 0 {
        let m = e.remove(i);
        assert forall|a: int, b: int| 0 <= a < b < r.len() implies (#[trigger] r[a]).0 != (#[trigger] r[b]).0 by {
            if b == r.len() - 1 {
                let a2 = if a < i { a } else { a + 1 };
                assert(r[a] == e[a2]);
            } else {
                let a2 = if a < i { a } else { a + 1 };
                let b2 = if b < i { b } else { b + 1 };
                assert(r[a] == e[a2] && r[b] == e[b2]);
            }
        }
    } else if e.len() >= cap {
        assert forall|a: int, b: int| 0 <= a < b < r.len() implies (#[trigger] r[a]).0 != (#[trigger] r[b]).0 by {
            if b < r.len() - 1 {
                assert(r[a] == e[a + 1] && r[b] == e[b + 1]);
            } else {
                assert(r[a] == e[a + 1]);
            }
        }
    } else {
        assert forall|a: int, b: int| 0 <= a < b < r.len() implies (#[trigger] r[a]).0 != (#[trigger] r[b]).0 by {
            if b < r.len() - 1 {
                assert(r[a] == e[a] && r[b] == e[b]);
            } else {
                assert(r[a] == e[a]);
            }
        }
    }
}

/// A hit keeps the keys distinct and the size unchanged.
pub proof fn lemma_touch_preserves(e: Seq<Entry>, cap: nat, i: int)
    requires
        lru_model_wf(e, cap),
        0 <= i < e.len(),
    ensures
        lru_model_wf(after_touch(e, i), cap),
        after_touch(e, i).len() == e.len(),
{
    let r = after_touch(e, i);
    assert forall|a: int, b: int| 0 <= a < b < r.len() implies (#[trigger] r[a]).0 != (#[trigger] r[b]).0 by {
        let a2 = if a < i { a } else { a + 1 };
        if b == r.len() - 1 {
            assert(r[a] == e[a2] && r[b] == e[i]);
        } else {
            let b2 = if b < i { b } else { b + 1 };
            assert(r[a] == e[a2] && r[b] == e[b2]);
        }
    }
}


/// The value stored under `k`, if any.
pub open spec fn lookup(e: Seq<Entry>, k: Seq<char>) -> Option<CachedValue> {
    if key_index(e, k) >= 0 { Some(e[key_index(e, k)].1) } else { None }
}

/// A hit only reorders: every key keeps its value, and no key comes or goes.
pub proof fn lemma_touch_same_lookup(e: Seq<Entry>, cap: nat, i: int)
    requires
        lru_model_wf(e, cap),
        0 <= i < e.len(),
    ensures
        forall|k: Seq<char>| #[trigger] lookup(after_touch(e, i), k) == lookup(e, k),
{
    let r = after_touch(e, i);
    lemma_touch_preserves(e, cap, i);
    assert forall|k: Seq<char>| #[trigger] lookup(r, k) == lookup(e, k) by {
        lemma_key_index(e, k);
        lemma_key_index(r, k);
        if key_index(e, k) >= 0 {
            let j = key_index(e, k);
            let j2 = if j == i { r.len() - 1 } else if j < i { j } else { j - 1 };
            assert(r[j2] == e[j]);
            let jr = key_index(r, k);
            assert(jr >= 0);
            if jr != j2 {
                if jr < j2 {
                    assert((r[jr]).0 != (r[j2]).0);
                } else {
                    assert((r[j2]).0 != (r[jr]).0);
                }
            }
        } else {
            if key_index(r, k) >= 0 {
                let jr = key_index(r, k);
                if jr == r.len() - 1 {
                    assert(r[jr] == e[i]);
                } else {
                    let a2 = if jr < i { jr } else { jr + 1 };
                    assert(r[jr] == e[a2]);
                }
            }
        }
    }
}

/// Cache operations, for stating what holds over any sequence of them.
pub enum CacheOp {
    Get { key: Seq<char> },
    Put { key: Seq<char>, value: CachedValue },
}

/// Entries after one operation.
pub open spec fn apply_op(e: Seq<Entry>, cap: nat, op: CacheOp) -> Seq<Entry> {
    match op {
        CacheOp::Get { key } => if key_index(e, key) >= 0 { after_touch(e, key_index(e, key)) } else { e },
        CacheOp::Put { key, value } => after_put(e, cap, key, value),
    }
}

/// Entries after a sequence of operations, first to last.
pub open spec fn apply_ops(e: Seq<Entry>, cap: nat, ops: Seq<CacheOp>) -> Seq<Entry>
    decreases ops.len(),
{
    if ops.len() == 0 {
        e
    } else {
        apply_op(apply_ops(e, cap, ops.drop_last()), cap, ops.last())
    }
}

/// Over any sequence of gets and puts from an empty cache of capacity
/// `cap`, the cache never holds more than `cap` entries, and every put that
/// evicts removes the least recently used entry.
pub proof fn lemma_lru_bounded(cap: nat, ops: Seq<CacheOp>)
    requires
        cap > 0,
    ensures
        lru_model_wf(apply_ops(Seq::<Entry>::empty(), cap, ops), cap),
        apply_ops(Seq::<Entry>::empty(), cap, ops).len() <= cap,
        ops.len() > 0 ==> match ops.last() {
            CacheOp::Put { key, value } => put_evicts(apply_ops(Seq::<Entry>::empty(), cap, ops.drop_last()), cap, key)
                ==> apply_ops(Seq::<Entry>::empty(), cap, ops) == apply_ops(Seq::<Entry>::empty(), cap, ops.drop_last()).drop_first().push((key, value)),
            CacheOp::Get { .. } => true,
        },
    decreases ops.len(),
{
    if ops.len() > 0 {
        lemma_lru_bounded(cap, ops.drop_last());
        let e = apply_ops(Seq::<Entry>::empty(), cap, ops.drop_last());
        match ops.last() {
            CacheOp::Get { key } => {
                lemma_key_index(e, key);
                if key_index(e, key) >= 0 {
                    lemma_touch_preserves(e, cap, key_index(e, key));
                }
            },
            CacheOp::Put { key, value } => {
                lemma_put_preserves(e, cap, key, value);
                assert(e.subrange(1, e.len() as int) == e.drop_first());
            },
        }
    }
}


/// `n + 1`, saturating at `u64::MAX`.
pub open spec fn bump(n: u64) -> u64 {
    if n < u64::MAX { (n + 1) as u64 } else { n }
}

pub fn incr(n: u64) -> (r: u64)
    ensures
        r == bump(n),
{
    if n < u64::MAX { n + 1 } else { n }
}

/// `hits / (hits + misses)` in basis points, zero without traffic.
pub open spec fn hit_rate_bp(hits: u64, misses: u64) -> nat {
    if hits as nat + misses as nat == 0 {
        0
    } else {
        (hits as nat * 10000 / (hits as nat + misses as nat)) as nat
    }
}

pub fn hit_rate(hits: u64, misses: u64) -> (r: u64)
    ensures
        r as nat == hit_rate_bp(hits, misses),
        r <= 10000,
{
    let total: u128 = hits as u128 + misses as u128;
    if total == 0 {
        return 0;
    }
    let scaled: u128 = hits as u128 * 10000;
    proof {
        assert(hits as nat * 10000 <= total * 10000) by (nonlinear_arith)
            requires total == hits as nat + misses as nat;
        vstd::arithmetic::div_mod::lemma_div_is_ordered(hits as int * 10000, total as int * 10000, total as int);
        vstd::arithmetic::div_mod::lemma_div_multiples_vanish(10000, total as int);
    }
    (scaled / total) as u64
}

#[derive(Clone, Copy)]
pub struct CacheMetrics {
    pub user_hits: u64,
    pub user_misses: u64,
    pub post_hits: u64,
    pub post_misses: u64,
    pub total_requests: u64,
    pub cache_evictions: u64,
}

impl CacheMetrics {
    pub fn new() -> (r: CacheMetrics)
        ensures
            r == (CacheMetrics { user_hits: 0, user_misses: 0, post_hits: 0, post_misses: 0, total_requests: 0, cache_evictions: 0 }),
    {
        CacheMetrics { user_hits: 0, user_misses: 0, post_hits: 0, post_misses: 0, total_requests: 0, cache_evictions: 0 }
    }
}

/// Every entry of the profile namespace holds a profile.
pub open spec fn all_profiles(e: Seq<Entry>) -> bool {
    forall|i: int| 0 <= i < e.len() ==> (#[trigger] e[i]).1 is Profile
}

/// Every entry of the record namespace holds a record.
pub open spec fn all_posts(e: Seq<Entry>) -> bool {
    forall|i: int| 0 <= i < e.len() ==> (#[trigger] e[i]).1 is Post
}

pub struct TurboCache {
    pub users: LruCache<String, CachedValue, RandomState>,
    pub posts: LruCache<String, CachedValue, RandomState>,
    pub metrics: CacheMetrics,
}

impl TurboCache {
    /// Profile entries, least recently used first.
    pub open spec fn user_entries(&self) -> Seq<Entry> {
        lru_entries(self.users)
    }

    /// Record entries, least recently used first.
    pub open spec fn post_entries(&self) -> Seq<Entry> {
        lru_entries(self.posts)
    }

    pub open spec fn user_capacity(&self) -> nat {
        lru_capacity(self.users)
    }

    pub open spec fn post_capacity(&self) -> nat {
        lru_capacity(self.posts)
    }

    pub open spec fn wf(&self) -> bool {
        &&& lru_model_wf(self.user_entries(), self.user_capacity())
        &&& lru_model_wf(self.post_entries(), self.post_capacity())
        &&& all_profiles(self.user_entries())
        &&& all_posts(self.post_entries())
    }

    /// Whether a profile for `did` is cached.
    pub open spec fn has_user(&self, did: Seq<char>) -> bool {
        key_index(self.user_entries(), did) >= 0
    }

    /// Whether a record for `uri` is cached.
    pub open spec fn has_post(&self, uri: Seq<char>) -> bool {
        key_index(self.post_entries(), uri) >= 0
    }

    pub fn new(user_cache_size: usize, post_cache_size: usize) -> (r: TurboCache)
        requires
            user_cache_size > 0,
            post_cache_size > 0,
        ensures
            r.wf(),
            r.user_entries().len() == 0,
            r.post_entries().len() == 0,
            r.user_capacity() == user_cache_size,
            r.post_capacity() == post_cache_size,
            r.metrics == (CacheMetrics { user_hits: 0, user_misses: 0, post_hits: 0, post_misses: 0, total_requests: 0, cache_evictions: 0 }),
    {
        TurboCache {
            users: lru_new(user_cache_size),
            posts: lru_new(post_cache_size),
            metrics: CacheMetrics::new(),
        }
    }

    /// The cached profile of `did`, which becomes the most recently used;
    /// counts a hit or a miss.
    pub fn get_user_profile(&mut self, did: &str) -> (r: Option<Arc<BlueskyProfile>>)
        requires
            old(self).wf(),
        ensures
            final(self).wf(),
            final(self).post_entries() == old(self).post_entries(),
            final(self).user_capacity() == old(self).user_capacity(),
            final(self).post_capacity() == old(self).post_capacity(),
            final(self).metrics.total_requests == bump(old(self).metrics.total_requests),
            final(self).metrics.cache_evictions == old(self).metrics.cache_evictions,
            final(self).metrics.post_hits == old(self).metrics.post_hits,
            final(self).metrics.post_misses == old(self).metrics.post_misses,
            old(self).has_user(did@) ==> {
                let i = key_index(old(self).user_entries(), did@);
                &&& r == Some(old(self).user_entries()[i].1->Profile_0)
                &&& final(self).user_entries() == after_touch(old(self).user_entries(), i)
                &&& final(self).metrics.user_hits == bump(old(self).metrics.user_hits)
                &&& final(self).metrics.user_misses == old(self).metrics.user_misses
            },
            !old(self).has_user(did@) ==> {
                &&& r is None
                &&& final(self).user_entries() == old(self).user_entries()
                &&& final(self).metrics.user_hits == old(self).metrics.user_hits
                &&& final(self).metrics.user_misses == bump(old(self).metrics.user_misses)
            },
    {
        let ghost e = lru_entries(self.users);
        proof {
            lemma_key_index(e, did@);
            if key_index(e, did@) >= 0 {
                lemma_touch_preserves(e, lru_capacity(self.users), key_index(e, did@));
            }
        }
        let got = lru_get(&mut self.users, did);
        self.metrics.total_requests = incr(self.metrics.total_requests);
        proof {
            if key_index(e, did@) >= 0 {
                let i = key_index(e, did@);
                assert forall|a: int| 0 <= a < lru_entries(self.users).len() implies (#[trigger] lru_entries(self.users)[a]).1 is Profile by {
                    let r = after_touch(e, i);
                    if a < r.len() - 1 {
                        let a2 = if a < i { a } else { a + 1 };
                        assert(r[a] == e[a2]);
                    }
                }
            }
        }
        match got {
            Some(CachedValue::Profile(p)) => {
                self.metrics.user_hits = incr(self.metrics.user_hits);
                Some(p)
            },
            Some(CachedValue::Post(_)) => {
                proof {
                    assert(e[key_index(e, did@)].1 is Profile);
                }
                None
            },
            None => {
                self.metrics.user_misses = incr(self.metrics.user_misses);
                None
            },
        }
    }

    /// The cached record of `uri`, which becomes the most recently used;
    /// counts a hit or a miss.
    pub fn get_post(&mut self, uri: &str) -> (r: Option<Arc<BlueskyPost>>)
        requires
            old(self).wf(),
        ensures
            final(self).wf(),
            final(self).user_entries() == old(self).user_entries(),
            final(self).user_capacity() == old(self).user_capacity(),
            final(self).post_capacity() == old(self).post_capacity(),
            final(self).metrics.total_requests == bump(old(self).metrics.total_requests),
            final(self).metrics.cache_evictions == old(self).metrics.cache_evictions,
            final(self).metrics.user_hits == old(self).metrics.user_hits,
            final(self).metrics.user_misses == old(self).metrics.user_misses,
            old(self).has_post(uri@) ==> {
                let i = key_index(old(self).post_entries(), uri@);
                &&& r == Some(old(self).post_entries()[i].1->Post_0)
                &&& final(self).post_entries() == after_touch(old(self).post_entries(), i)
                &&& final(self).metrics.post_hits == bump(old(self).metrics.post_hits)
                &&& final(self).metrics.post_misses == old(self).metrics.post_misses
            },
            !old(self).has_post(uri@) ==> {
                &&& r is None
                &&& final(self).post_entries() == old(self).post_entries()
                &&& final(self).metrics.post_hits == old(self).metrics.post_hits
                &&& final(self).metrics.post_misses == bump(old(self).metrics.post_misses)
            },
    {
        let ghost e = lru_entries(self.posts);
        proof {
            lemma_key_index(e, uri@);
            if key_index(e, uri@) >= 0 {
                lemma_touch_preserves(e, lru_capacity(self.posts), key_index(e, uri@));
            }
        }
        let got = lru_get(&mut self.posts, uri);
        self.metrics.total_requests = incr(self.metrics.total_requests);
        proof {
            if key_index(e, uri@) >= 0 {
                let i = key_index(e, uri@);
                assert forall|a: int| 0 <= a < lru_entries(self.posts).len() implies (#[trigger] lru_entries(self.posts)[a]).1 is Post by {
                    let r = after_touch(e, i);
                    if a < r.len() - 1 {
                        let a2 = if a < i { a } else { a + 1 };
                        assert(r[a] == e[a2]);
                    }
                }
            }
        }
        match got {
            Some(CachedValue::Post(p)) => {
                self.metrics.post_hits = incr(self.metrics.post_hits);
                Some(p)
            },
            Some(CachedValue::Profile(_)) => {
                proof {
                    assert(e[key_index(e, uri@)].1 is Post);
                }
                None
            },
            None => {
                self.metrics.post_misses = incr(self.metrics.post_misses);
                None
            },
        }
    }

    /// Looks up each identifier in turn, as `get_user_profile` does.
    pub fn get_user_profiles(&mut self, dids: &Vec<String>) -> (r: Vec<Option<Arc<BlueskyProfile>>>)
        requires
            old(self).wf(),
        ensures
            final(self).wf(),
            r@.len() == dids@.len(),
            forall|i: int| 0 <= i < dids@.len() ==> (#[trigger] r@[i] is Some <==> old(self).has_user(dids@[i]@)),
            forall|i: int| 0 <= i < dids@.len() && r@[i] is Some
                ==> lookup(old(self).user_entries(), dids@[i]@) == Some(CachedValue::Profile(#[trigger] r@[i]->0)),
            final(self).post_entries() == old(self).post_entries(),
    {
        let mut out: Vec<Option<Arc<BlueskyProfile>>> = Vec::new();
        let mut i: usize = 0;
        while i < dids.len()
            invariant
                self.wf(),
                i <= dids@.len(),
                out@.len() == i,
                self.user_capacity() == old(self).user_capacity(),
                forall|k: Seq<char>| #[trigger] lookup(self.user_entries(), k) == lookup(old(self).user_entries(), k),
                forall|a: int| 0 <= a < i ==> (#[trigger] out@[a] is Some <==> old(self).has_user(dids@[a]@)),
                forall|a: int| 0 <= a < i && out@[a] is Some
                    ==> lookup(old(self).user_entries(), dids@[a]@) == Some(CachedValue::Profile(#[trigger] out@[a]->0)),
                self.post_entries() == old(self).post_entries(),
            decreases dids@.len() - i,
        {
            let ghost e = self.user_entries();
            let ghost d = dids@[i as int]@;
            proof {
                lemma_key_index(e, d);
                lemma_key_index(old(self).user_entries(), d);
                if key_index(e, d) >= 0 {
                    lemma_touch_same_lookup(e, self.user_capacity(), key_index(e, d));
                }
                assert(lookup(e, d) == lookup(old(self).user_entries(), d));
            }
            let got = self.get_user_profile(dids[i].as_str());
            let ghost prev = out@;
            out.push(got);
            proof {
                assert forall|a: int| 0 <= a < i + 1 implies (#[trigger] out@[a] is Some <==> old(self).has_user(dids@[a]@)) by {
                    if a < i {
                        assert(out@[a] == prev[a]);
                    }
                }
                assert forall|a: int| 0 <= a < i + 1 && out@[a] is Some
                    implies lookup(old(self).user_entries(), dids@[a]@) == Some(CachedValue::Profile(#[trigger] out@[a]->0)) by {
                    if a < i {
                        assert(out@[a] == prev[a]);
                    }
                }
            }
            i = i + 1;
        }
        out
    }

    /// Looks up each URI in turn, as `get_post` does.
    pub fn get_posts(&mut self, uris: &Vec<String>) -> (r: Vec<Option<Arc<BlueskyPost>>>)
        requires
            old(self).wf(),
        ensures
            final(self).wf(),
            r@.len() == uris@.len(),
            forall|i: int| 0 <= i < uris@.len() ==> (#[trigger] r@[i] is Some <==> old(self).has_post(uris@[i]@)),
            forall|i: int| 0 <= i < uris@.len() && r@[i] is Some
                ==> lookup(old(self).post_entries(), uris@[i]@) == Some(CachedValue::Post(#[trigger] r@[i]->0)),
            final(self).user_entries() == old(self).user_entries(),
    {
        let mut out: Vec<Option<Arc<BlueskyPost>>> = Vec::new();
        let mut i: usize = 0;
        while i < uris.len()
            invariant
                self.wf(),
                i <= uris@.len(),
                out@.len() == i,
                self.post_capacity() == old(self).post_capacity(),
                forall|k: Seq<char>| #[trigger] lookup(self.post_entries(), k) == lookup(old(self).post_entries(), k),
                forall|a: int| 0 <= a < i ==> (#[trigger] out@[a] is Some <==> old(self).has_post(uris@[a]@)),
                forall|a: int| 0 <= a < i && out@[a] is Some
                    ==> lookup(old(self).post_entries(), uris@[a]@) == Some(CachedValue::Post(#[trigger] out@[a]->0)),
                self.user_entries() == old(self).user_entries(),
            decreases uris@.len() - i,
        {
            let ghost e = self.post_entries();
            let ghost d = uris@[i as int]@;
            proof {
                lemma_key_index(e, d);
                lemma_key_index(old(self).post_entries(), d);
                if key_index(e, d) >= 0 {
                    lemma_touch_same_lookup(e, self.post_capacity(), key_index(e, d));
                }
                assert(lookup(e, d) == lookup(old(self).post_entries(), d));
            }
            let got = self.get_post(uris[i].as_str());
            let ghost prev = out@;
            out.push(got);
            proof {
                assert forall|a: int| 0 <= a < i + 1 implies (#[trigger] out@[a] is Some <==> old(self).has_post(uris@[a]@)) by {
                    if a < i {
                        assert(out@[a] == prev[a]);
                    }
                }
                assert forall|a: int| 0 <= a < i + 1 && out@[a] is Some
                    implies lookup(old(self).post_entries(), uris@[a]@) == Some(CachedValue::Post(#[trigger] out@[a]->0)) by {
                    if a < i {
                        assert(out@[a] == prev[a]);
                    }
                }
            }
            i = i + 1;
        }
        out
    }

    /// Stores the profile of `did` as the most recently used entry, evicting
    /// the least recently used one when a new key arrives at capacity.
    pub fn set_user_profile(&mut self, did: String, profile: Arc<BlueskyProfile>)
        requires
            old(self).wf(),
        ensures
            final(self).wf(),
            final(self).user_entries() == after_put(old(self).user_entries(), old(self).user_capacity(), did@, CachedValue::Profile(profile)),
            final(self).user_entries().len() <= final(self).user_capacity(),
            final(self).post_entries() == old(self).post_entries(),
            final(self).user_capacity() == old(self).user_capacity(),
            final(self).post_capacity() == old(self).post_capacity(),
            final(self).metrics.cache_evictions == if put_evicts(old(self).user_entries(), old(self).user_capacity(), did@) {
                bump(old(self).metrics.cache_evictions)
            } else {
                old(self).metrics.cache_evictions
            },
            final(self).metrics.user_hits == old(self).metrics.user_hits,
            final(self).metrics.user_misses == old(self).metrics.user_misses,
            final(self).metrics.post_hits == old(self).metrics.post_hits,
            final(self).metrics.post_misses == old(self).metrics.post_misses,
            final(self).metrics.total_requests == old(self).metrics.total_requests,
    {
        let ghost e = lru_entries(self.users);
        let ghost v = CachedValue::Profile(profile);
        let present = lru_contains(&self.users, did.as_str());
        let full = lru_len(&self.users) >= self.user_cap();
        proof {
            lemma_key_index(e, did@);
            lemma_put_preserves(e, lru_capacity(self.users), did@, v);
        }
        lru_put(&mut self.users, did, CachedValue::Profile(profile));
        if !present && full {
            self.metrics.cache_evictions = incr(self.metrics.cache_evictions);
        }
        proof {
            let r = lru_entries(self.users);
            let i = key_index(e, did@);
            assert forall|a: int| 0 <= a < r.len() implies (#[trigger] r[a]).1 is Profile by {
                if a < r.len() - 1 {
                    if i >= 0 {
                        let a2 = if a < i { a } else { a + 1 };
                        assert(r[a] == e[a2]);
                    } else if e.len() >= lru_capacity(old(self).users) {
                        assert(r[a] == e[a + 1]);
                    } else {
                        assert(r[a] == e[a]);
                    }
                }
            }
        }
    }

    /// Stores the record of `uri` as the most recently used entry, evicting
    /// the least recently used one when a new key arrives at capacity.
    pub fn set_post(&mut self, uri: String, post: Arc<BlueskyPost>)
        requires
            old(self).wf(),
        ensures
            final(self).wf(),
            final(self).post_entries() == after_put(old(self).post_entries(), old(self).post_capacity(), uri@, CachedValue::Post(post)),
            final(self).post_entries().len() <= final(self).post_capacity(),
            final(self).user_entries() == old(self).user_entries(),
            final(self).user_capacity() == old(self).user_capacity(),
            final(self).post_capacity() == old(self).post_capacity(),
            final(self).metrics.cache_evictions == if put_evicts(old(self).post_entries(), old(self).post_capacity(), uri@) {
                bump(old(self).metrics.cache_evictions)
            } else {
                old(self).metrics.cache_evictions
            },
            final(self).metrics.user_hits == old(self).metrics.user_hits,
            final(self).metrics.user_misses == old(self).metrics.user_misses,
            final(self).metrics.post_hits == old(self).metrics.post_hits,
            final(self).metrics.post_misses == old(self).metrics.post_misses,
            final(self).metrics.total_requests == old(self).metrics.total_requests,
    {
        let ghost e = lru_entries(self.posts);
        let ghost v = CachedValue::Post(post);
        let present = lru_contains(&self.posts, uri.as_str());
        let full = lru_len(&self.posts) >= self.post_cap();
        proof {
            lemma_key_index(e, uri@);
            lemma_put_preserves(e, lru_capacity(self.posts), uri@, v);
        }
        lru_put(&mut self.posts, uri, CachedValue::Post(post));
        if !present && full {
            self.metrics.cache_evictions = incr(self.metrics.cache_evictions);
        }
        proof {
            let r = lru_entries(self.posts);
            let i = key_index(e, uri@);
            assert forall|a: int| 0 <= a < r.len() implies (#[trigger] r[a]).1 is Post by {
                if a < r.len() - 1 {
                    if i >= 0 {
                        let a2 = if a < i { a } else { a + 1 };
                        assert(r[a] == e[a2]);
                    } else if e.len() >= lru_capacity(old(self).posts) {
                        assert(r[a] == e[a + 1]);
                    } else {
                        assert(r[a] == e[a]);
                    }
                }
            }
        }
    }

    fn user_cap(&self) -> (r: usize)
        ensures
            r == self.user_capacity(),
    {
        lru_cap(&self.users)
    }

    fn post_cap(&self) -> (r: usize)
        ensures
            r == self.post_capacity(),
    {
        lru_cap(&self.posts)
    }

    /// Whether a profile is cached for each identifier; recency is untouched.
    pub fn check_user_profiles_cached(&self, dids: &Vec<String>) -> (r: Vec<bool>)
        ensures
            r@.len() == dids@.len(),
            forall|i: int| 0 <= i < dids@.len() ==> r@[i] == self.has_user(#[trigger] dids@[i]@),
    {
        let mut out: Vec<bool> = Vec::new();
        let mut i: usize = 0;
        while i < dids.len()
            invariant
                i <= dids@.len(),
                out@.len() == i,
                forall|k: int| 0 <= k < i ==> out@[k] == self.has_user(#[trigger] dids@[k]@),
            decreases dids@.len() - i,
        {
            out.push(lru_contains(&self.users, dids[i].as_str()));
            i = i + 1;
        }
        out
    }

    /// Whether a record is cached for each URI; recency is untouched.
    pub fn check_posts_cached(&self, uris: &Vec<String>) -> (r: Vec<bool>)
        ensures
            r@.len() == uris@.len(),
            forall|i: int| 0 <= i < uris@.len() ==> r@[i] == self.has_post(#[trigger] uris@[i]@),
    {
        let mut out: Vec<bool> = Vec::new();
        let mut i: usize = 0;
        while i < uris.len()
            invariant
                i <= uris@.len(),
                out@.len() == i,
                forall|k: int| 0 <= k < i ==> out@[k] == self.has_post(#[trigger] uris@[k]@),
            decreases uris@.len() - i,
        {
            out.push(lru_contains(&self.posts, uris[i].as_str()));
            i = i + 1;
        }
        out
    }

    pub fn get_metrics(&self) -> (r: CacheMetrics)
        ensures
            r == self.metrics,
    {
        self.metrics
    }

    /// Empties both namespaces; counters and capacities stay.
    pub fn clear(&mut self)
        requires
            old(self).wf(),
        ensures
            final(self).wf(),
            final(self).user_entries().len() == 0,
            final(self).post_entries().len() == 0,
            final(self).user_capacity() == old(self).user_capacity(),
            final(self).post_capacity() == old(self).post_capacity(),
            final(self).metrics == old(self).metrics,
    {
        lru_clear(&mut self.users);
        lru_clear(&mut self.posts);
    }

    /// Profile and record hit rates, in basis points.
    pub fn get_hit_rates(&self) -> (r: (u64, u64))
        ensures
            r.0 as nat == hit_rate_bp(self.metrics.user_hits, self.metrics.user_misses),
            r.1 as nat == hit_rate_bp(self.metrics.post_hits, self.metrics.post_misses),
    {
        (hit_rate(self.metrics.user_hits, self.metrics.user_misses),
         hit_rate(self.metrics.post_hits, self.metrics.post_misses))
    }
}

} // verus!
