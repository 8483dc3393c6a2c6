//! The enricher's steps around its two parallel lookups: gather the batch's
//! distinct keys, keep those the cache lacks, store what came back, and
//! build one enriched record per event from the warm cache.

use vstd::prelude::*;
use std::sync::Arc;
use crate::cache::{after_put, hit_rate, hit_rate_bp, lemma_key_index, lemma_touch_same_lookup, lookup, CachedValue, Entry, TurboCache};
use crate::coalescer::{batches_needed, concat_batches, BatchCoalescer};
use crate::ids::{is_valid_at_uri, valid_at_uri};
use crate::models::{
    at_uri_of, distinct, facet_mentions, facet_tags, facet_urls, mention_dids, mentioned_seq,
    post_uris_seq, push_unique, record_of, references_did, references_uri, views, BlueskyPost,
    BlueskyProfile, EnrichedRecord, Facet, HydratedMetadata, JetstreamMessage, Operation,
    ProcessingMetrics, ReferencedPost,
};

verus! {

/// Whether some event of the batch contributes the identifier `d`: as its
/// actor or as an identifier its record references.
pub open spec fn batch_has_did(ms: Seq<JetstreamMessage>, d: Seq<char>) -> bool {
    exists|i: int| 0 <= i < ms.len() && (ms[i].did@ == d || references_did(&ms[i], d))
}

/// Whether some event of the batch references the canonical URI `u`.
pub open spec fn batch_has_uri(ms: Seq<JetstreamMessage>, u: Seq<char>) -> bool {
    exists|i: int| 0 <= i < ms.len() && references_uri(&ms[i], u)
}

/// The keys one batch needs from upstream.
pub struct BatchPlan {
    /// Distinct identifiers of the batch that the cache lacks.
    pub uncached_dids: Vec<String>,
    /// Distinct valid canonical URIs of the batch that the cache lacks.
    pub uncached_uris: Vec<String>,
}

/// Appends each text of `xs` that `out` lacks.
fn extend_unique(out: &mut Vec<String>, xs: Vec<String>)
    requires
        distinct(views(old(out)@)),
    ensures
        distinct(views(final(out)@)),
        forall|d: Seq<char>| #[trigger] views(final(out)@).contains(d) <==> (views(old(out)@).contains(d) || views(xs@).contains(d)),
{
    let mut i: usize = 0;
    while i < xs.len()
        invariant
            i <= xs@.len(),
            distinct(views(out@)),
            forall|d: Seq<char>| #[trigger] views(out@).contains(d) <==> (views(old(out)@).contains(d)
                || views(xs@.subrange(0, i as int)).contains(d)),
        decreases xs@.len() - i,
    {
        proof {
            assert(views(xs@.subrange(0, i + 1)) =~= views(xs@.subrange(0, i as int)).push(xs@[i as int]@));
            crate::models::lemma_push_contains(views(xs@.subrange(0, i as int)), xs@[i as int]@);
        }
        push_unique(out, xs[i].clone());
        i = i + 1;
    }
    proof {
        assert(xs@.subrange(0, xs@.len() as int) =~= xs@);
    }
}

/// The distinct identifiers and referenced canonical URIs of a batch.
pub fn collect_keys(messages: &Vec<JetstreamMessage>) -> (r: (Vec<String>, Vec<String>))
    ensures
        distinct(views(r.0@)),
        distinct(views(r.1@)),
        forall|d: Seq<char>| #[trigger] views(r.0@).contains(d) <==> batch_has_did(messages@, d),
        forall|u: Seq<char>| #[trigger] views(r.1@).contains(u) <==> batch_has_uri(messages@, u),
{
    let mut dids: Vec<String> = Vec::new();
    let mut uris: Vec<String> = Vec::new();
    let mut i: usize = 0;
    while i < messages.len()
        invariant
            i <= messages@.len(),
            distinct(views(dids@)),
            distinct(views(uris@)),
            forall|d: Seq<char>| #[trigger] views(dids@).contains(d) <==> batch_has_did(messages@.subrange(0, i as int), d),
            forall|u: Seq<char>| #[trigger] views(uris@).contains(u) <==> batch_has_uri(messages@.subrange(0, i as int), u),
        decreases messages@.len() - i,
    {
        let m = &messages[i];
        push_unique(&mut dids, m.did.clone());
        extend_unique(&mut dids, m.extract_mentioned_dids());
        extend_unique(&mut uris, m.extract_post_uris());
        proof {
            let pre = messages@.subrange(0, i as int);
            let post = messages@.subrange(0, i + 1);
            assert forall|d: Seq<char>| batch_has_did(post, d) <==> (batch_has_did(pre, d) || m.did@ == d || references_did(m, d)) by {
                if batch_has_did(post, d) {
                    let k = choose|k: int| 0 <= k < post.len() && (post[k].did@ == d || references_did(&post[k], d));
                    if k < i {
                        assert(pre[k] == post[k]);
                    }
                }
                if batch_has_did(pre, d) {
                    let k = choose|k: int| 0 <= k < pre.len() && (pre[k].did@ == d || references_did(&pre[k], d));
                    assert(pre[k] == post[k]);
                }
                assert(post[i as int] == *m);
            }
            assert forall|u: Seq<char>| batch_has_uri(post, u) <==> (batch_has_uri(pre, u) || references_uri(m, u)) by {
                if batch_has_uri(post, u) {
                    let k = choose|k: int| 0 <= k < post.len() && references_uri(&post[k], u);
                    if k < i {
                        assert(pre[k] == post[k]);
                    }
                }
                if batch_has_uri(pre, u) {
                    let k = choose|k: int| 0 <= k < pre.len() && references_uri(&pre[k], u);
                    assert(pre[k] == post[k]);
                }
                assert(post[i as int] == *m);
            }
        }
        i = i + 1;
    }
    proof {
        assert(messages@.subrange(0, messages@.len() as int) =~= messages@);
    }
    (dids, uris)
}

/// Which keys of a batch must be fetched: the identifiers without a cached
/// profile, and the valid URIs without a cached record. Recency is untouched.
pub fn plan_batch(cache: &TurboCache, messages: &Vec<JetstreamMessage>) -> (r: BatchPlan)
    ensures
        distinct(views(r.uncached_dids@)),
        distinct(views(r.uncached_uris@)),
        forall|d: Seq<char>| #[trigger] views(r.uncached_dids@).contains(d) <==> (batch_has_did(messages@, d) && !cache.has_user(d)),
        forall|u: Seq<char>| #[trigger] views(r.uncached_uris@).contains(u) <==> (batch_has_uri(messages@, u) && valid_at_uri(u) && !cache.has_post(u)),
        // an empty batch, or one whose every key is cached, needs nothing
        messages@.len() == 0 || (
            (forall|d: Seq<char>| #[trigger] batch_has_did(messages@, d) ==> cache.has_user(d))
            && (forall|u: Seq<char>| #[trigger] batch_has_uri(messages@, u) ==> cache.has_post(u)))
            ==> r.uncached_dids@.len() == 0 && r.uncached_uris@.len() == 0,
{
    let (dids, uris) = collect_keys(messages);
    let did_flags = cache.check_user_profiles_cached(&dids);
    let uri_flags = cache.check_posts_cached(&uris);
    let mut uncached_dids: Vec<String> = Vec::new();
    let mut i: usize = 0;
    while i < dids.len()
        invariant
            i <= dids@.len(),
            did_flags@.len() == dids@.len(),
            distinct(views(dids@)),
            forall|k: int| 0 <= k < dids@.len() ==> did_flags@[k] == cache.has_user(#[trigger] dids@[k]@),
            distinct(views(uncached_dids@)),
            forall|d: Seq<char>| #[trigger] views(uncached_dids@).contains(d) <==> (views(dids@.subrange(0, i as int)).contains(d) && !cache.has_user(d)),
        decreases dids@.len() - i,
    {
        proof {
            assert(views(dids@.subrange(0, i + 1)) =~= views(dids@.subrange(0, i as int)).push(dids@[i as int]@));
            crate::models::lemma_push_contains(views(dids@.subrange(0, i as int)), dids@[i as int]@);
        }
        let ghost prev = views(uncached_dids@);
        if !did_flags[i] {
            push_unique(&mut uncached_dids, dids[i].clone());
        }
        proof {
            assert forall|d: Seq<char>| #[trigger] views(uncached_dids@).contains(d) <==> (views(dids@.subrange(0, i + 1)).contains(d) && !cache.has_user(d)) by {
                if did_flags@[i as int] {
                    assert(views(uncached_dids@) == prev);
                }
            }
        }
        i = i + 1;
    }
    let mut uncached_uris: Vec<String> = Vec::new();
    let mut j: usize = 0;
    while j < uris.len()
        invariant
            j <= uris@.len(),
            uri_flags@.len() == uris@.len(),
            forall|k: int| 0 <= k < uris@.len() ==> uri_flags@[k] == cache.has_post(#[trigger] uris@[k]@),
            distinct(views(uncached_uris@)),
            forall|u: Seq<char>| #[trigger] views(uncached_uris@).contains(u) <==> (views(uris@.subrange(0, j as int)).contains(u) && valid_at_uri(u) && !cache.has_post(u)),
        decreases uris@.len() - j,
    {
        proof {
            assert(views(uris@.subrange(0, j + 1)) =~= views(uris@.subrange(0, j as int)).push(uris@[j as int]@));
            crate::models::lemma_push_contains(views(uris@.subrange(0, j as int)), uris@[j as int]@);
        }
        let ghost prev = views(uncached_uris@);
        let keep = !uri_flags[j] && is_valid_at_uri(uris[j].as_str());
        if keep {
            push_unique(&mut uncached_uris, uris[j].clone());
        }
        proof {
            assert forall|u: Seq<char>| #[trigger] views(uncached_uris@).contains(u) <==> (views(uris@.subrange(0, j + 1)).contains(u) && valid_at_uri(u) && !cache.has_post(u)) by {
                if !keep {
                    assert(views(uncached_uris@) == prev);
                }
            }
        }
        j = j + 1;
    }
    proof {
        assert(dids@.subrange(0, dids@.len() as int) =~= dids@);
        assert(uris@.subrange(0, uris@.len() as int) =~= uris@);
        if uncached_dids@.len() > 0 {
            assert(views(uncached_dids@)[0] == uncached_dids@[0]@);
            assert(views(uncached_dids@).contains(uncached_dids@[0]@));
        }
        if uncached_uris@.len() > 0 {
            assert(views(uncached_uris@)[0] == uncached_uris@[0]@);
            assert(views(uncached_uris@).contains(uncached_uris@[0]@));
        }
    }
    BatchPlan { uncached_dids, uncached_uris }
}

/// Profile entries after storing each fetched profile under its key, in order.
pub open spec fn profile_puts(e: Seq<Entry>, cap: nat, keys: Seq<String>, got: Seq<Option<Arc<BlueskyProfile>>>) -> Seq<Entry>
    decreases got.len(),
{
    if got.len() == 0 || keys.len() < got.len() {
        e
    } else {
        let prev = profile_puts(e, cap, keys, got.drop_last());
        match got.last() {
            Some(p) => after_put(prev, cap, keys[got.len() - 1]@, CachedValue::Profile(p)),
            None => prev,
        }
    }
}

/// Record entries after storing each fetched record under its key, in order.
pub open spec fn post_puts(e: Seq<Entry>, cap: nat, keys: Seq<String>, got: Seq<Option<Arc<BlueskyPost>>>) -> Seq<Entry>
    decreases got.len(),
{
    if got.len() == 0 || keys.len() < got.len() {
        e
    } else {
        let prev = post_puts(e, cap, keys, got.drop_last());
        match got.last() {
            Some(p) => after_put(prev, cap, keys[got.len() - 1]@, CachedValue::Post(p)),
            None => prev,
        }
    }
}

/// Stores the profiles that came back for `keys`, element `i` under key `i`.
pub fn absorb_profiles(cache: &mut TurboCache, keys: &Vec<String>, fetched: Vec<Option<Arc<BlueskyProfile>>>)
    requires
        old(cache).wf(),
        fetched@.len() <= keys@.len(),
    ensures
        final(cache).wf(),
        final(cache).user_entries() == profile_puts(old(cache).user_entries(), old(cache).user_capacity(), keys@, fetched@),
        final(cache).post_entries() == old(cache).post_entries(),
        final(cache).user_capacity() == old(cache).user_capacity(),
        final(cache).post_capacity() == old(cache).post_capacity(),
{
    let ghost all = fetched@;
    let mut fetched = fetched;
    let mut rest: Vec<Option<Arc<BlueskyProfile>>> = Vec::new();
    // walk the results front to back by taking them from a reversed copy
    while fetched.len() > 0
        invariant
            fetched@.len() + rest@.len() == all.len(),
            forall|k: int| 0 <= k < fetched@.len() ==> fetched@[k] == all[k],
            forall|k: int| 0 <= k < rest@.len() ==> rest@[k] == all[all.len() - 1 - k],
        decreases fetched@.len(),
    {
        let x = fetched.pop().unwrap();
        rest.push(x);
    }
    let nkeys = keys.len();
    let mut i: usize = 0;
    while rest.len() > 0
        invariant
            cache.wf(),
            nkeys == keys@.len(),
            i + rest@.len() == all.len(),
            all.len() <= keys@.len(),
            forall|k: int| 0 <= k < rest@.len() ==> rest@[k] == all[all.len() - 1 - k],
            cache.user_entries() == profile_puts(old(cache).user_entries(), old(cache).user_capacity(), keys@, all.subrange(0, i as int)),
            cache.post_entries() == old(cache).post_entries(),
            cache.user_capacity() == old(cache).user_capacity(),
            cache.post_capacity() == old(cache).post_capacity(),
        decreases rest@.len(),
    {
        let x = rest.pop().unwrap();
        proof {
            assert(x == all[i as int]);
            assert(all.subrange(0, i + 1).drop_last() =~= all.subrange(0, i as int));
        }
        if let Some(p) = x {
            cache.set_user_profile(keys[i].clone(), p);
        }
        i = i + 1;
    }
    proof {
        assert(all.subrange(0, all.len() as int) =~= all);
    }
}

/// Stores the records that came back for `keys`, element `i` under key `i`.
pub fn absorb_posts(cache: &mut TurboCache, keys: &Vec<String>, fetched: Vec<Option<Arc<BlueskyPost>>>)
    requires
        old(cache).wf(),
        fetched@.len() <= keys@.len(),
    ensures
        final(cache).wf(),
        final(cache).post_entries() == post_puts(old(cache).post_entries(), old(cache).post_capacity(), keys@, fetched@),
        final(cache).user_entries() == old(cache).user_entries(),
        final(cache).user_capacity() == old(cache).user_capacity(),
        final(cache).post_capacity() == old(cache).post_capacity(),
{
    let ghost all = fetched@;
    let mut fetched = fetched;
    let mut rest: Vec<Option<Arc<BlueskyPost>>> = Vec::new();
    while fetched.len() > 0
        invariant
            fetched@.len() + rest@.len() == all.len(),
            forall|k: int| 0 <= k < fetched@.len() ==> fetched@[k] == all[k],
            forall|k: int| 0 <= k < rest@.len() ==> rest@[k] == all[all.len() - 1 - k],
        decreases fetched@.len(),
    {
        let x = fetched.pop().unwrap();
        rest.push(x);
    }
    let nkeys = keys.len();
    let mut i: usize = 0;
    while rest.len() > 0
        invariant
            cache.wf(),
            nkeys == keys@.len(),
            i + rest@.len() == all.len(),
            all.len() <= keys@.len(),
            forall|k: int| 0 <= k < rest@.len() ==> rest@[k] == all[all.len() - 1 - k],
            cache.post_entries() == post_puts(old(cache).post_entries(), old(cache).post_capacity(), keys@, all.subrange(0, i as int)),
            cache.user_entries() == old(cache).user_entries(),
            cache.user_capacity() == old(cache).user_capacity(),
            cache.post_capacity() == old(cache).post_capacity(),
        decreases rest@.len(),
    {
        let x = rest.pop().unwrap();
        proof {
            assert(x == all[i as int]);
            assert(all.subrange(0, i + 1).drop_last() =~= all.subrange(0, i as int));
        }
        if let Some(p) = x {
            cache.set_post(keys[i].clone(), p);
        }
        i = i + 1;
    }
    proof {
        assert(all.subrange(0, all.len() as int) =~= all);
    }
}


/// The profile stored under `d` in profile entries `e`.
pub open spec fn cached_profile(e: Seq<Entry>, d: Seq<char>) -> Option<Arc<BlueskyProfile>> {
    match lookup(e, d) {
        Some(CachedValue::Profile(p)) => Some(p),
        _ => None,
    }
}

/// The record stored under `u` in record entries `e`.
pub open spec fn cached_post(e: Seq<Entry>, u: Seq<char>) -> Option<Arc<BlueskyPost>> {
    match lookup(e, u) {
        Some(CachedValue::Post(p)) => Some(p),
        _ => None,
    }
}

/// The cached profiles of the identifiers `s`, in order; uncached ones are skipped.
pub open spec fn cached_profiles(e: Seq<Entry>, s: Seq<Seq<char>>) -> Seq<Arc<BlueskyProfile>>
    decreases s.len(),
{
    if s.len() == 0 {
        Seq::empty()
    } else {
        let p = cached_profiles(e, s.drop_last());
        match cached_profile(e, s.last()) {
            Some(x) => p.push(x),
            None => p,
        }
    }
}

/// The cached records of the URIs `s`, in order; uncached ones are skipped.
pub open spec fn cached_posts(e: Seq<Entry>, s: Seq<Seq<char>>) -> Seq<Arc<BlueskyPost>>
    decreases s.len(),
{
    if s.len() == 0 {
        Seq::empty()
    } else {
        let p = cached_posts(e, s.drop_last());
        match cached_post(e, s.last()) {
            Some(x) => p.push(x),
            None => p,
        }
    }
}

/// Entries with the same lookups give the same cached profiles and records.
pub proof fn lemma_same_lookups(e1: Seq<Entry>, e2: Seq<Entry>, s: Seq<Seq<char>>)
    requires
        forall|k: Seq<char>| #[trigger] lookup(e1, k) == lookup(e2, k),
    ensures
        cached_profiles(e1, s) == cached_profiles(e2, s),
        cached_posts(e1, s) == cached_posts(e2, s),
    decreases s.len(),
{
    if s.len() > 0 {
        lemma_same_lookups(e1, e2, s.drop_last());
        assert(lookup(e1, s.last()) == lookup(e2, s.last()));
    }
}

/// Whether `r` summarizes the record `p`.
pub open spec fn summarizes(r: ReferencedPost, p: Arc<BlueskyPost>) -> bool {
    &&& r.uri@ == p.uri@
    &&& r.cid@ == p.cid@
    &&& r.text@ == p.text@
    &&& r.author_did@ == p.author.did@
    &&& r.author_handle matches Some(h) && h@ == p.author.handle@
    &&& r.created_at@ == p.created_at@
    &&& r.reply_count == p.reply_count
    &&& r.like_count == p.like_count
    &&& r.repost_count == p.repost_count
}

/// The text and facets whose features an event contributes, when it has both.
pub open spec fn text_and_facets(m: &JetstreamMessage) -> Option<(Seq<char>, Seq<Facet>)> {
    match record_of(m) {
        Some(r) => match (r.text, r.facets) {
            (Some(t), Some(fs)) => Some((t@, fs@)),
            _ => None,
        },
        None => None,
    }
}

pub open spec fn expected_tags(m: &JetstreamMessage) -> Seq<Seq<char>> {
    match text_and_facets(m) {
        Some((t, fs)) => facet_tags(t, fs),
        None => Seq::empty(),
    }
}

pub open spec fn expected_urls(m: &JetstreamMessage) -> Seq<Seq<char>> {
    match text_and_facets(m) {
        Some((_, fs)) => facet_urls(fs),
        None => Seq::empty(),
    }
}

pub open spec fn expected_mentions(m: &JetstreamMessage) -> Seq<Seq<char>> {
    match text_and_facets(m) {
        Some((_, fs)) => facet_mentions(fs),
        None => Seq::empty(),
    }
}

/// Whether `r` is the enriched record of `m` built from profile entries `eu`
/// and record entries `ep`: the author's profile for a create or update, the
/// cached profiles of the referenced identifiers and summaries of the cached
/// referenced records (in order), the features of the record's text, and a
/// hit for each lookup that found an entry, a miss for each that did not.
pub open spec fn hydrated(eu: Seq<Entry>, ep: Seq<Entry>, m: JetstreamMessage, api_calls: u32, processed_at: Seq<char>, r: EnrichedRecord) -> bool {
    let author_lookups: nat = if at_uri_of(&m) is Some { 1 } else { 0 };
    let author = if at_uri_of(&m) is Some { cached_profile(eu, m.did@) } else { None };
    let mp = cached_profiles(eu, mentioned_seq(&m));
    let rp = cached_posts(ep, post_uris_seq(&m));
    let hits: nat = (if author is Some { 1nat } else { 0nat }) + mp.len() + rp.len();
    let lookups: nat = author_lookups + mentioned_seq(&m).len() + post_uris_seq(&m).len();
    &&& r.message == m
    &&& r.processed_at@ == processed_at
    &&& r.metrics.api_calls_count == api_calls
    &&& r.metrics.hydration_time_ms == 0
    &&& r.hydrated_metadata.author_profile == author
    &&& r.hydrated_metadata.mentioned_profiles@ == mp
    &&& r.hydrated_metadata.referenced_posts@.len() == rp.len()
    &&& forall|i: int| 0 <= i < rp.len() ==> summarizes(#[trigger] r.hydrated_metadata.referenced_posts@[i], rp[i])
    &&& r.metrics.cache_hits == sat32(hits)
    &&& r.metrics.cache_misses == sat32((lookups - hits) as nat)
    &&& r.metrics.cache_hit_rate_bp as nat == hit_rate_bp(r.metrics.cache_hits as u64, r.metrics.cache_misses as u64)
    &&& views(r.hydrated_metadata.hashtags@) == expected_tags(&m)
    &&& views(r.hydrated_metadata.urls@) == expected_urls(&m)
    &&& mention_dids(r.hydrated_metadata.mentions@) == expected_mentions(&m)
    &&& r.hydrated_metadata.detected_language is None
}

/// `n`, saturating at `u32::MAX`.
pub open spec fn sat32(n: nat) -> u32 {
    if n <= u32::MAX { n as u32 } else { u32::MAX }
}

fn to_u32_saturating(n: u128) -> (r: u32)
    ensures
        r == sat32(n as nat),
{
    if n <= u32::MAX as u128 { n as u32 } else { u32::MAX }
}

/// Looks `did` up in the profile namespace; a hit only reorders entries.
fn lookup_profile(cache: &mut TurboCache, did: &str) -> (r: Option<Arc<BlueskyProfile>>)
    requires
        old(cache).wf(),
    ensures
        final(cache).wf(),
        r == cached_profile(old(cache).user_entries(), did@),
        forall|k: Seq<char>| #[trigger] lookup(final(cache).user_entries(), k) == lookup(old(cache).user_entries(), k),
        final(cache).post_entries() == old(cache).post_entries(),
        final(cache).user_capacity() == old(cache).user_capacity(),
        final(cache).post_capacity() == old(cache).post_capacity(),
{
    let ghost e = cache.user_entries();
    proof {
        lemma_key_index(e, did@);
        if crate::cache::key_index(e, did@) >= 0 {
            lemma_touch_same_lookup(e, cache.user_capacity(), crate::cache::key_index(e, did@));
        }
    }
    cache.get_user_profile(did)
}

/// Looks `uri` up in the record namespace; a hit only reorders entries.
fn lookup_post(cache: &mut TurboCache, uri: &str) -> (r: Option<Arc<BlueskyPost>>)
    requires
        old(cache).wf(),
    ensures
        final(cache).wf(),
        r == cached_post(old(cache).post_entries(), uri@),
        forall|k: Seq<char>| #[trigger] lookup(final(cache).post_entries(), k) == lookup(old(cache).post_entries(), k),
        final(cache).user_entries() == old(cache).user_entries(),
        final(cache).user_capacity() == old(cache).user_capacity(),
        final(cache).post_capacity() == old(cache).post_capacity(),
{
    let ghost e = cache.post_entries();
    proof {
        lemma_key_index(e, uri@);
        if crate::cache::key_index(e, uri@) >= 0 {
            lemma_touch_same_lookup(e, cache.post_capacity(), crate::cache::key_index(e, uri@));
        }
    }
    cache.get_post(uri)
}

/// The summary of a referenced record kept with an enriched record.
pub fn summarize(p: &Arc<BlueskyPost>) -> (r: ReferencedPost)
    ensures
        summarizes(r, *p),
{
    ReferencedPost {
        uri: p.uri.clone(),
        cid: p.cid.clone(),
        text: p.text.clone(),
        author_did: p.author.did.clone(),
        author_handle: Some(p.author.handle.clone()),
        created_at: p.created_at.clone(),
        reply_count: p.reply_count,
        like_count: p.like_count,
        repost_count: p.repost_count,
    }
}

/// Builds the enriched record of one event from the cache. `message` is
/// kept as it came; lookups only reorder the cache's entries.
pub fn hydrate_message(cache: &mut TurboCache, message: JetstreamMessage, api_calls: u32, processed_at: String) -> (r: EnrichedRecord)
    requires
        old(cache).wf(),
    ensures
        final(cache).wf(),
        forall|k: Seq<char>| #[trigger] lookup(final(cache).user_entries(), k) == lookup(old(cache).user_entries(), k),
        forall|k: Seq<char>| #[trigger] lookup(final(cache).post_entries(), k) == lookup(old(cache).post_entries(), k),
        final(cache).user_capacity() == old(cache).user_capacity(),
        final(cache).post_capacity() == old(cache).post_capacity(),
        hydrated(old(cache).user_entries(), old(cache).post_entries(), message, api_calls, processed_at@, r),
{
    let ghost eu = cache.user_entries();
    let ghost ep = cache.post_entries();
    let mut lookups: u128 = 0;
    let author_profile = if message.extract_at_uri().is_some() {
        lookups = 1;
        lookup_profile(cache, message.did.as_str())
    } else {
        None
    };
    let mentioned = message.extract_mentioned_dids();
    let mut profiles: Vec<Arc<BlueskyProfile>> = Vec::new();
    let mut i: usize = 0;
    proof {
        assert(views(mentioned@).subrange(0, 0) =~= Seq::<Seq<char>>::empty());
    }
    while i < mentioned.len()
        invariant
            cache.wf(),
            i <= mentioned@.len(),
            lookups <= 1,
            author_profile is Some ==> lookups == 1,
            forall|k: Seq<char>| #[trigger] lookup(cache.user_entries(), k) == lookup(eu, k),
            cache.post_entries() == ep,
            cache.user_capacity() == old(cache).user_capacity(),
            cache.post_capacity() == old(cache).post_capacity(),
            views(mentioned@) == mentioned_seq(&message),
            profiles@ == cached_profiles(eu, views(mentioned@).subrange(0, i as int)),
            profiles@.len() <= i,
        decreases mentioned@.len() - i,
    {
        let ghost d = mentioned@[i as int]@;
        let got = lookup_profile(cache, mentioned[i].as_str());
        proof {
            assert(lookup(cache.user_entries(), d) == lookup(eu, d));
            let s1 = views(mentioned@).subrange(0, i + 1);
            assert(s1.drop_last() =~= views(mentioned@).subrange(0, i as int));
            assert(s1.last() == d);
        }
        match got {
            Some(p) => {
                profiles.push(p);
            },
            None => {},
        }
        i = i + 1;
    }
    let uris = message.extract_post_uris();
    let mut refs: Vec<ReferencedPost> = Vec::new();
    let ghost mut found: Seq<Arc<BlueskyPost>> = Seq::empty();
    let mut j: usize = 0;
    proof {
        assert(views(uris@).subrange(0, 0) =~= Seq::<Seq<char>>::empty());
    }
    while j < uris.len()
        invariant
            cache.wf(),
            j <= uris@.len(),
            forall|k: Seq<char>| #[trigger] lookup(cache.user_entries(), k) == lookup(eu, k),
            forall|k: Seq<char>| #[trigger] lookup(cache.post_entries(), k) == lookup(ep, k),
            cache.user_capacity() == old(cache).user_capacity(),
            cache.post_capacity() == old(cache).post_capacity(),
            views(uris@) == post_uris_seq(&message),
            found == cached_posts(ep, views(uris@).subrange(0, j as int)),
            refs@.len() == found.len(),
            found.len() <= j,
            forall|a: int| 0 <= a < found.len() ==> summarizes(#[trigger] refs@[a], found[a]),
        decreases uris@.len() - j,
    {
        let ghost u = uris@[j as int]@;
        let got = lookup_post(cache, uris[j].as_str());
        proof {
            assert(lookup(cache.post_entries(), u) == lookup(ep, u));
            let s1 = views(uris@).subrange(0, j + 1);
            assert(s1.drop_last() =~= views(uris@).subrange(0, j as int));
            assert(s1.last() == u);
        }
        match got {
            Some(p) => {
                let ghost prev = refs@;
                refs.push(summarize(&p));
                proof {
                    found = found.push(p);
                    assert forall|a: int| 0 <= a < found.len() implies summarizes(#[trigger] refs@[a], found[a]) by {
                        if a < prev.len() {
                            assert(refs@[a] == prev[a]);
                        }
                    }
                }
            },
            None => {},
        }
        j = j + 1;
    }
    let author_hit: u128 = if author_profile.is_some() { 1 } else { 0 };
    let hits_n: u128 = author_hit + profiles.len() as u128 + refs.len() as u128;
    let misses_n: u128 = lookups + mentioned.len() as u128 + uris.len() as u128 - hits_n;
    let hits = to_u32_saturating(hits_n);
    let misses = to_u32_saturating(misses_n);
    let rate = hit_rate(hits as u64, misses as u64);
    let mut meta = HydratedMetadata {
        author_profile,
        mentioned_profiles: profiles,
        referenced_posts: refs,
        hashtags: Vec::new(),
        urls: Vec::new(),
        mentions: Vec::new(),
        detected_language: None,
    };
    proof {
        assert(views(meta.hashtags@) =~= Seq::<Seq<char>>::empty());
        assert(views(meta.urls@) =~= Seq::<Seq<char>>::empty());
        assert(mention_dids(meta.mentions@) =~= Seq::<Seq<char>>::empty());
        assert(views(mentioned@).subrange(0, mentioned@.len() as int) =~= views(mentioned@));
        assert(views(uris@).subrange(0, uris@.len() as int) =~= views(uris@));
    }
    match &message.commit.operation {
        Operation::Create { record } | Operation::Update { record } => {
            if let Some(t) = &record.text {
                meta.extract_content_features(t.as_str(), &record.facets);
            }
        },
        Operation::Delete => {},
    }
    proof {
        assert(views(meta.hashtags@) == expected_tags(&message));
        assert(views(meta.urls@) == expected_urls(&message));
        assert(mention_dids(meta.mentions@) == expected_mentions(&message));
    }
    let rec = EnrichedRecord {
        message,
        hydrated_metadata: meta,
        processed_at,
        metrics: ProcessingMetrics {
            hydration_time_ms: 0,
            api_calls_count: api_calls,
            cache_hit_rate_bp: rate as u32,
            cache_hits: hits,
            cache_misses: misses,
        },
    };
    proof {
        let m = rec.message;
        assert(rec.hydrated_metadata.author_profile == (if at_uri_of(&m) is Some { cached_profile(eu, m.did@) } else { None }));
        assert(rec.hydrated_metadata.mentioned_profiles@ == cached_profiles(eu, mentioned_seq(&m)));
        assert(found == cached_posts(ep, post_uris_seq(&m)));
        assert(rec.metrics.cache_hits == sat32((if rec.hydrated_metadata.author_profile is Some { 1nat } else { 0nat })
            + cached_profiles(eu, mentioned_seq(&m)).len() + found.len()));
    }
    rec
}

/// Builds the enriched records of a batch, one per event, in input order;
/// an empty batch leaves the cache as it was.
pub fn hydrate_batch(cache: &mut TurboCache, messages: Vec<JetstreamMessage>, api_calls: u32, processed_at: &String) -> (r: Vec<EnrichedRecord>)
    requires
        old(cache).wf(),
    ensures
        final(cache).wf(),
        messages@.len() == 0 ==> *final(cache) == *old(cache),
        forall|k: Seq<char>| #[trigger] lookup(final(cache).user_entries(), k) == lookup(old(cache).user_entries(), k),
        forall|k: Seq<char>| #[trigger] lookup(final(cache).post_entries(), k) == lookup(old(cache).post_entries(), k),
        r@.len() == messages@.len(),
        forall|i: int| 0 <= i < messages@.len() ==> hydrated(old(cache).user_entries(), old(cache).post_entries(),
            messages@[i], api_calls, processed_at@, #[trigger] r@[i]),
{
    let ghost all = messages@;
    let mut messages = messages;
    let mut out: Vec<EnrichedRecord> = Vec::new();
    while messages.len() > 0
        invariant
            cache.wf(),
            out@.len() + messages@.len() == all.len(),
            messages@ == all.subrange(out@.len() as int, all.len() as int),
            out@.len() == 0 ==> *cache == *old(cache),
            forall|k: Seq<char>| #[trigger] lookup(cache.user_entries(), k) == lookup(old(cache).user_entries(), k),
            forall|k: Seq<char>| #[trigger] lookup(cache.post_entries(), k) == lookup(old(cache).post_entries(), k),
            forall|i: int| 0 <= i < out@.len() ==> hydrated(old(cache).user_entries(), old(cache).post_entries(),
                all[i], api_calls, processed_at@, #[trigger] out@[i]),
        decreases messages@.len(),
    {
        let m = messages.remove(0);
        let ghost n = out@.len();
        let ghost eu = cache.user_entries();
        let ghost ep = cache.post_entries();
        let rec = hydrate_message(cache, m, api_calls, processed_at.clone());
        proof {
            let ou = old(cache).user_entries();
            let op = old(cache).post_entries();
            lemma_same_lookups(eu, ou, mentioned_seq(&all[n as int]));
            lemma_same_lookups(ep, op, post_uris_seq(&all[n as int]));
            assert(lookup(eu, all[n as int].did@) == lookup(ou, all[n as int].did@));
            assert(hydrated(ou, op, all[n as int], api_calls, processed_at@, rec));
        }
        out.push(rec);
        proof {
            assert(messages@ =~= all.subrange(out@.len() as int, all.len() as int));
        }
    }
    out
}

/// The upstream requests one batch needs, per namespace.
pub struct RequestPlan {
    pub profile_requests: Vec<Vec<String>>,
    pub post_requests: Vec<Vec<String>>,
}

/// Splits the keys a batch lacks into requests of at most
/// `profile_batch_size` identifiers and `post_batch_size` URIs: every
/// uncached identifier and valid uncached URI is asked for exactly once,
/// and each namespace needs `ceil(keys / batch size)` requests.
pub fn plan_requests(cache: &TurboCache, messages: &Vec<JetstreamMessage>, profile_batch_size: usize, post_batch_size: usize) -> (r: RequestPlan)
    requires
        profile_batch_size > 0,
        post_batch_size > 0,
    ensures
        distinct(views(concat_batches(r.profile_requests@))),
        distinct(views(concat_batches(r.post_requests@))),
        forall|d: Seq<char>| #[trigger] views(concat_batches(r.profile_requests@)).contains(d)
            <==> (batch_has_did(messages@, d) && !cache.has_user(d)),
        forall|u: Seq<char>| #[trigger] views(concat_batches(r.post_requests@)).contains(u)
            <==> (batch_has_uri(messages@, u) && valid_at_uri(u) && !cache.has_post(u)),
        r.profile_requests@.len() == batches_needed(concat_batches(r.profile_requests@).len(), profile_batch_size as nat),
        r.post_requests@.len() == batches_needed(concat_batches(r.post_requests@).len(), post_batch_size as nat),
        forall|i: int| 0 <= i < r.profile_requests@.len() ==> 1 <= (#[trigger] r.profile_requests@[i])@.len() <= profile_batch_size,
        forall|i: int| 0 <= i < r.post_requests@.len() ==> 1 <= (#[trigger] r.post_requests@[i])@.len() <= post_batch_size,
        messages@.len() == 0 ==> r.profile_requests@.len() == 0 && r.post_requests@.len() == 0,
{
    let plan = plan_batch(cache, messages);
    let mut profiles = BatchCoalescer::new(profile_batch_size, 0, 0);
    profiles.add(plan.uncached_dids);
    let profile_requests = profiles.drain_all(0);
    let mut posts = BatchCoalescer::new(post_batch_size, 0, 0);
    posts.add(plan.uncached_uris);
    let post_requests = posts.drain_all(0);
    proof {
        assert(profiles.pending@.len() == 0);
        if messages@.len() == 0 {
            crate::coalescer::lemma_batches_needed_step(0, profile_batch_size as int);
            crate::coalescer::lemma_batches_needed_step(0, post_batch_size as int);
        }
    }
    RequestPlan { profile_requests, post_requests }
}

} // verus!
