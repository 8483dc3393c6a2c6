//! Events from the upstream feed, profiles and records from the lookup API,
//! and the enriched records that the pipeline produces. Timestamps are kept
//! as their RFC 3339 text; structured payloads as the fields the pipeline reads.

use vstd::prelude::*;
use std::sync::Arc;
use vstd::utf8::{decode_utf8, encode_utf8, encode_utf8_decode_utf8, is_char_boundary};
use crate::cache::{hit_rate, hit_rate_bp};
use crate::ids::{did_of_at_uri, did_plc_prefix, has_prefix, extract_did_from_at_uri, starts_with};

verus! {

/// One commit event of the upstream feed.
#[derive(Clone, Debug)]
pub struct JetstreamMessage {
    pub did: String,
    pub seq: u64,
    pub time_us: u64,
    pub commit: CommitData,
}

#[derive(Clone, Debug)]
pub struct CommitData {
    pub seq: u64,
    pub rebase: bool,
    pub time_us: u64,
    pub operation: Operation,
}

#[derive(Clone, Debug)]
pub enum Operation {
    Create { record: Record },
    Update { record: Record },
    Delete,
}

/// The record a create or update commit carries.
#[derive(Clone, Debug)]
pub struct Record {
    pub uri: String,
    pub cid: String,
    pub author: String,
    pub record_type: String,
    pub created_at: String,
    /// The record's `text` field, when it has one.
    pub text: Option<String>,
    /// The canonical URI of an embedded record, when the record embeds one.
    pub embed_record_uri: Option<String>,
    pub labels: Option<Vec<Label>>,
    pub langs: Option<Vec<String>>,
    pub reply: Option<ReplyRef>,
    pub tags: Option<Vec<String>>,
    pub facets: Option<Vec<Facet>>,
}

#[derive(Clone, Debug)]
pub struct Label {
    pub src: String,
    pub uri: String,
    pub val: String,
    pub cts: String,
}

#[derive(Clone, Debug)]
pub struct ReplyRef {
    pub root: RecordRef,
    pub parent: RecordRef,
    pub gate: Option<RecordRef>,
}

#[derive(Clone, Debug)]
pub struct RecordRef {
    pub uri: String,
    pub cid: String,
}

#[derive(Clone, Debug)]
pub struct Facet {
    pub index: FacetIndex,
    pub features: Vec<FacetFeature>,
}

#[derive(Clone, Debug)]
pub struct FacetIndex {
    pub byte_start: u32,
    pub byte_end: u32,
}

#[derive(Clone, Debug)]
pub struct FacetFeature {
    pub feature_type: String,
    pub uri: String,
    pub did: Option<String>,
}

/// An author profile as the lookup API returns it.
#[derive(Clone, Debug)]
pub struct BlueskyProfile {
    pub did: String,
    pub handle: String,
    pub display_name: Option<String>,
    pub description: Option<String>,
    pub avatar: Option<String>,
    pub banner: Option<String>,
    pub followers_count: Option<u64>,
    pub follows_count: Option<u64>,
    pub posts_count: Option<u64>,
    pub indexed_at: Option<String>,
    pub created_at: Option<String>,
    pub labels: Option<Vec<Label>>,
}

/// A referenced record as the lookup API returns it.
#[derive(Clone, Debug)]
pub struct BlueskyPost {
    pub uri: String,
    pub cid: String,
    pub author: BlueskyProfile,
    pub text: String,
    pub created_at: String,
    pub reply: Option<ReplyRef>,
    pub facets: Option<Vec<Facet>>,
    pub labels: Option<Vec<Label>>,
    pub like_count: Option<u64>,
    pub repost_count: Option<u64>,
    pub reply_count: Option<u64>,
}

#[derive(Clone, Debug)]
pub struct ImagesEmbed {
    pub images: Vec<Image>,
}

#[derive(Clone, Debug)]
pub struct Image {
    pub thumb: String,
    pub fullsize: String,
    pub alt: String,
}

#[derive(Clone, Debug)]
pub struct ExternalEmbed {
    pub uri: String,
    pub title: String,
    pub description: Option<String>,
    pub thumb: Option<String>,
}

#[derive(Clone, Debug)]
pub enum Feature {
    Link { uri: String },
    Mention { did: String },
    Tag { tag: String },
}

/// A summary of a referenced record kept with an enriched record.
#[derive(Clone, Debug)]
pub struct ReferencedPost {
    pub uri: String,
    pub cid: String,
    pub text: String,
    pub author_did: String,
    pub author_handle: Option<String>,
    pub created_at: String,
    pub reply_count: Option<u64>,
    pub like_count: Option<u64>,
    pub repost_count: Option<u64>,
}

#[derive(Clone, Debug)]
pub struct Mention {
    pub did: String,
    pub handle: Option<String>,
    pub display_name: Option<String>,
    pub start_byte: u32,
    pub end_byte: u32,
}

#[derive(Clone, Debug)]
pub struct HydratedMetadata {
    pub author_profile: Option<Arc<BlueskyProfile>>,
    pub mentioned_profiles: Vec<Arc<BlueskyProfile>>,
    pub referenced_posts: Vec<ReferencedPost>,
    pub hashtags: Vec<String>,
    pub urls: Vec<String>,
    pub mentions: Vec<Mention>,
    pub detected_language: Option<String>,
}

/// Per-record processing figures; the hit rate is in basis points.
#[derive(Clone, Debug)]
pub struct ProcessingMetrics {
    pub hydration_time_ms: u64,
    pub api_calls_count: u32,
    pub cache_hit_rate_bp: u32,
    pub cache_hits: u32,
    pub cache_misses: u32,
}

#[derive(Clone, Debug)]
pub struct EnrichedRecord {
    pub message: JetstreamMessage,
    pub hydrated_metadata: HydratedMetadata,
    pub processed_at: String,
    pub metrics: ProcessingMetrics,
}

/// The canonical URI of the record a commit touches; none for a delete.
pub open spec fn at_uri_of(m: &JetstreamMessage) -> Option<Seq<char>> {
    match m.commit.operation {
        Operation::Create { record } => Some(record.uri@),
        Operation::Update { record } => Some(record.uri@),
        Operation::Delete => None,
    }
}

pub open spec fn record_of(m: &JetstreamMessage) -> Option<Record> {
    match m.commit.operation {
        Operation::Create { record } => Some(record),
        Operation::Update { record } => Some(record),
        Operation::Delete => None,
    }
}

/// A usable referenced identifier: a non-empty `did:plc:` identifier.
pub open spec fn plc_did(d: Seq<char>) -> bool {
    d.len() > 0 && has_prefix(d, did_plc_prefix())
}

/// Whether a facet feature mentions the identifier `d`.
pub open spec fn feature_names(f: FacetFeature, d: Seq<char>) -> bool {
    f.did matches Some(x) && x@ == d
}

/// Whether `d` is an identifier that the record of `m` references: the actor
/// of its reply root or parent, of a facet mention, or of its embedded record.
pub open spec fn references_did(m: &JetstreamMessage, d: Seq<char>) -> bool {
    plc_did(d) && match record_of(m) {
        Some(r) => reply_or_embed_did(r, d) || (r.facets matches Some(fs) && facets_name(fs@, fs@.len() as int, d)),
        None => false,
    }
}

/// Whether `u` is a canonical URI that the record of `m` references: its
/// reply root or parent, or its embedded record.
pub open spec fn references_uri(m: &JetstreamMessage, u: Seq<char>) -> bool {
    match record_of(m) {
        Some(r) => {
            ||| (r.reply matches Some(rp) && (rp.root.uri@ == u || rp.parent.uri@ == u))
            ||| (r.embed_record_uri matches Some(e) && e@ == u)
        },
        None => false,
    }
}

pub open spec fn views(v: Seq<String>) -> Seq<Seq<char>> {
    v.map_values(|s: String| s@)
}

pub open spec fn distinct(v: Seq<Seq<char>>) -> bool {
    forall|i: int, j: int| 0 <= i < j < v.len() ==> v[i] != v[j]
}

pub open spec fn opt_seq(o: Option<Seq<char>>) -> Seq<Seq<char>> {
    match o {
        Some(x) => seq![x],
        None => Seq::empty(),
    }
}

/// Actors of the reply root, reply parent and embedded record, in that order.
pub open spec fn reply_embed_dids(r: Record) -> Seq<Seq<char>> {
    (match r.reply {
        Some(rp) => opt_seq(did_of_at_uri(rp.root.uri@)) + opt_seq(did_of_at_uri(rp.parent.uri@)),
        None => Seq::empty(),
    }) + (match r.embed_record_uri {
        Some(u) => opt_seq(did_of_at_uri(u@)),
        None => Seq::empty(),
    })
}

/// Identifiers that facet features carry, in order.
pub open spec fn feature_dids(fs: Seq<FacetFeature>) -> Seq<Seq<char>>
    decreases fs.len(),
{
    if fs.len() == 0 {
        Seq::empty()
    } else {
        let p = feature_dids(fs.drop_last());
        match fs.last().did {
            Some(x) => p.push(x@),
            None => p,
        }
    }
}

pub open spec fn facet_dids(fs: Seq<Facet>) -> Seq<Seq<char>>
    decreases fs.len(),
{
    if fs.len() == 0 { Seq::empty() } else { facet_dids(fs.drop_last()) + feature_dids(fs.last().features@) }
}

/// Every identifier an event's record points at, in order of appearance.
pub open spec fn did_candidates(m: &JetstreamMessage) -> Seq<Seq<char>> {
    match record_of(m) {
        Some(r) => reply_embed_dids(r) + match r.facets {
            Some(fs) => facet_dids(fs@),
            None => Seq::empty(),
        },
        None => Seq::empty(),
    }
}

/// The `did:plc:` identifiers of `s`, each at its first appearance.
pub open spec fn unique_plc(s: Seq<Seq<char>>) -> Seq<Seq<char>>
    decreases s.len(),
{
    if s.len() == 0 {
        s
    } else {
        let p = unique_plc(s.drop_last());
        if plc_did(s.last()) && !p.contains(s.last()) { p.push(s.last()) } else { p }
    }
}

/// The elements of `s`, each at its first appearance.
pub open spec fn unique_seq(s: Seq<Seq<char>>) -> Seq<Seq<char>>
    decreases s.len(),
{
    if s.len() == 0 {
        s
    } else {
        let p = unique_seq(s.drop_last());
        if !p.contains(s.last()) { p.push(s.last()) } else { p }
    }
}

/// The referenced identifiers of an event, in order, each once.
pub open spec fn mentioned_seq(m: &JetstreamMessage) -> Seq<Seq<char>> {
    unique_plc(did_candidates(m))
}

/// Reply root, reply parent and embedded record URIs, in that order.
pub open spec fn post_uri_candidates(m: &JetstreamMessage) -> Seq<Seq<char>> {
    match record_of(m) {
        Some(r) => (match r.reply {
            Some(rp) => seq![rp.root.uri@, rp.parent.uri@],
            None => Seq::empty(),
        }) + (match r.embed_record_uri {
            Some(u) => seq![u@],
            None => Seq::empty(),
        }),
        None => Seq::empty(),
    }
}

/// The referenced canonical URIs of an event, in order, each once.
pub open spec fn post_uris_seq(m: &JetstreamMessage) -> Seq<Seq<char>> {
    unique_seq(post_uri_candidates(m))
}

/// Pushing `a` adds exactly `a` to what a sequence contains.
pub proof fn lemma_push_contains<A>(s: Seq<A>, a: A)
    ensures
        forall|x: A| #[trigger] s.push(a).contains(x) <==> (s.contains(x) || x == a),
{
    assert forall|x: A| #[trigger] s.push(a).contains(x) <==> (s.contains(x) || x == a) by {
        if s.contains(x) {
            let k = choose|k: int| 0 <= k < s.len() && s[k] == x;
            assert(s.push(a)[k] == x);
        }
        if x == a {
            assert(s.push(a)[s.len() as int] == x);
        }
        if s.push(a).contains(x) {
            let k = choose|k: int| 0 <= k < s.push(a).len() && s.push(a)[k] == x;
            if k < s.len() {
                assert(s[k] == x);
            }
        }
    }
}

/// Whether some element of `v` has the text `x`.
pub fn contains_text(v: &Vec<String>, x: &String) -> (r: bool)
    ensures
        r == views(v@).contains(x@),
{
    let mut i: usize = 0;
    while i < v.len()
        invariant
            i <= v@.len(),
            forall|k: int| 0 <= k < i ==> v@[k]@ != x@,
        decreases v@.len() - i,
    {
        if v[i] == *x {
            assert(views(v@)[i as int] == x@);
            return true;
        }
        i = i + 1;
    }
    proof {
        if views(v@).contains(x@) {
            let k = choose|k: int| 0 <= k < views(v@).len() && views(v@)[k] == x@;
            assert(v@[k]@ == x@);
        }
    }
    false
}

/// Appends `x` to `v` unless `v` already has its text.
pub fn push_unique(v: &mut Vec<String>, x: String)
    ensures
        forall|d: Seq<char>| #[trigger] views(final(v)@).contains(d) <==> (views(old(v)@).contains(d) || d == x@),
        distinct(views(old(v)@)) ==> distinct(views(final(v)@)),
        views(old(v)@).contains(x@) ==> final(v)@ == old(v)@,
        !views(old(v)@).contains(x@) ==> views(final(v)@) == views(old(v)@).push(x@),
{
    if !contains_text(v, &x) {
        let ghost before = views(v@);
        let ghost xv = x@;
        v.push(x);
        proof {
            assert(views(v@) =~= before.push(xv));
            lemma_push_contains(before, xv);
        }
    }
}

/// Appends `x` to `v`.
fn push_text(v: &mut Vec<String>, x: &str)
    ensures
        views(final(v)@) == views(old(v)@).push(x@),
        forall|d: Seq<char>| #[trigger] views(final(v)@).contains(d) <==> (views(old(v)@).contains(d) || d == x@),
{
    let ghost before = views(v@);
    v.push(x.to_owned());
    proof {
        assert(views(v@) =~= before.push(x@));
        lemma_push_contains(before, x@);
    }
}

/// The `did:plc:` identifiers among `cands`, each once, in order of first appearance.
pub fn unique_plc_dids(cands: &Vec<String>) -> (r: Vec<String>)
    ensures
        distinct(views(r@)),
        forall|d: Seq<char>| #[trigger] views(r@).contains(d) <==> (views(cands@).contains(d) && plc_did(d)),
        views(r@) == unique_plc(views(cands@)),
{
    proof {
        reveal_strlit("did:plc:");
        assert("did:plc:"@ =~= did_plc_prefix());
    }
    let mut out: Vec<String> = Vec::new();
    let mut i: usize = 0;
    while i < cands.len()
        invariant
            i <= cands@.len(),
            distinct(views(out@)),
            forall|d: Seq<char>| #[trigger] views(out@).contains(d) <==> (views(cands@.subrange(0, i as int)).contains(d) && plc_did(d)),
            views(out@) == unique_plc(views(cands@).subrange(0, i as int)),
        decreases cands@.len() - i,
    {
        let c = &cands[i];
        proof {
            assert(views(cands@.subrange(0, i + 1)) =~= views(cands@.subrange(0, i as int)).push(c@));
            lemma_push_contains(views(cands@.subrange(0, i as int)), c@);
        }
        let ghost prev = views(out@);
        proof {
            reveal_strlit("did:plc:");
            assert("did:plc:"@ =~= did_plc_prefix());
        }
        let is_plc = c.as_str().unicode_len() > 0 && starts_with(c.as_str(), "did:plc:");
        if is_plc {
            push_unique(&mut out, c.clone());
        }
        proof {
            assert(is_plc == plc_did(c@));
            assert forall|d: Seq<char>| #[trigger] views(out@).contains(d) <==> (views(cands@.subrange(0, i + 1)).contains(d) && plc_did(d)) by {
                if !is_plc {
                    assert(views(out@) == prev);
                }
            }
            let s1 = views(cands@).subrange(0, i + 1);
            assert(s1.drop_last() =~= views(cands@).subrange(0, i as int));
            assert(s1.last() == c@);
            assert(views(out@) == unique_plc(s1));
        }
        i = i + 1;
    }
    proof {
        assert(cands@.subrange(0, cands@.len() as int) =~= cands@);
        assert(views(cands@).subrange(0, cands@.len() as int) =~= views(cands@));
    }
    out
}

/// The reply and embed identifiers of a record, as candidates.
pub open spec fn reply_or_embed_did(r: Record, d: Seq<char>) -> bool {
    ||| (r.reply matches Some(rp) && (did_of_at_uri(rp.root.uri@) == Some(d)
        || did_of_at_uri(rp.parent.uri@) == Some(d)))
    ||| (r.embed_record_uri matches Some(u) && did_of_at_uri(u@) == Some(d))
}

pub open spec fn facets_name(fs: Seq<Facet>, n: int, d: Seq<char>) -> bool {
    exists|a: int, k: int| 0 <= a < n && 0 <= k < fs[a].features@.len()
        && feature_names(#[trigger] fs[a].features@[k], d)
}

impl JetstreamMessage {
    /// The canonical URI of the touched record, none for a delete.
    pub fn extract_at_uri(&self) -> (r: Option<&str>)
        ensures
            r matches Some(u) ==> at_uri_of(self) == Some(u@),
            r is None ==> at_uri_of(self) is None,
    {
        match &self.commit.operation {
            Operation::Create { record } => Some(record.uri.as_str()),
            Operation::Update { record } => Some(record.uri.as_str()),
            Operation::Delete => None,
        }
    }

    pub fn extract_did(&self) -> (r: &str)
        ensures
            r@ == self.did@,
    {
        self.did.as_str()
    }

    pub fn is_create_operation(&self) -> (r: bool)
        ensures
            r == (self.commit.operation is Create),
    {
        match &self.commit.operation {
            Operation::Create { .. } => true,
            _ => false,
        }
    }

    /// The identifiers the record references, each once, in order of appearance.
    pub fn extract_mentioned_dids(&self) -> (r: Vec<String>)
        ensures
            distinct(views(r@)),
            forall|d: Seq<char>| #[trigger] views(r@).contains(d) <==> references_did(self, d),
            views(r@) == mentioned_seq(self),
    {
        let mut cands: Vec<String> = Vec::new();
        let record = match &self.commit.operation {
            Operation::Create { record } => record,
            Operation::Update { record } => record,
            Operation::Delete => {
                return cands;
            },
        };
        let ghost rec = *record;
        assert(record_of(self) == Some(rec));
        if let Some(reply) = &record.reply {
            if let Some(d) = extract_did_from_at_uri(reply.root.uri.as_str()) {
                push_text(&mut cands, d);
            }
            if let Some(d) = extract_did_from_at_uri(reply.parent.uri.as_str()) {
                push_text(&mut cands, d);
            }
        }
        if let Some(u) = &record.embed_record_uri {
            if let Some(d) = extract_did_from_at_uri(u.as_str()) {
                push_text(&mut cands, d);
            }
        }
        assert(forall|d: Seq<char>| #[trigger] views(cands@).contains(d) <==> reply_or_embed_did(rec, d));
        assert(views(cands@) =~= reply_embed_dids(rec));
        let ghost base = views(cands@);
        if let Some(facets) = &record.facets {
            let mut i: usize = 0;
            while i < facets.len()
                invariant
                    i <= facets@.len(),
                    forall|d: Seq<char>| #[trigger] views(cands@).contains(d) <==> (reply_or_embed_did(rec, d) || facets_name(facets@, i as int, d)),
                    views(cands@) == base + facet_dids(facets@.subrange(0, i as int)),
                decreases facets@.len() - i,
            {
                let features = &facets[i].features;
                let mut j: usize = 0;
                while j < features.len()
                    invariant
                        i < facets@.len(),
                        *features == facets@[i as int].features,
                        j <= features@.len(),
                        forall|d: Seq<char>| #[trigger] views(cands@).contains(d) <==> (reply_or_embed_did(rec, d) || facets_name(facets@, i as int, d)
                            || exists|k: int| 0 <= k < j && feature_names(#[trigger] features@[k], d)),
                        views(cands@) == base + facet_dids(facets@.subrange(0, i as int)) + feature_dids(features@.subrange(0, j as int)),
                    decreases features@.len() - j,
                {
                    if let Some(did) = &features[j].did {
                        push_text(&mut cands, did.as_str());
                    }
                    proof {
                        let s1 = features@.subrange(0, j + 1);
                        assert(s1.drop_last() =~= features@.subrange(0, j as int));
                        assert(s1.last() == features@[j as int]);
                        assert(views(cands@) =~= base + facet_dids(facets@.subrange(0, i as int)) + feature_dids(s1));
                    }
                    proof {
                        assert forall|d: Seq<char>| (exists|k: int| 0 <= k < j + 1 && feature_names(#[trigger] features@[k], d))
                            <==> ((exists|k: int| 0 <= k < j && feature_names(#[trigger] features@[k], d)) || feature_names(features@[j as int], d)) by {
                            if exists|k: int| 0 <= k < j + 1 && feature_names(#[trigger] features@[k], d) {
                                let k = choose|k: int| 0 <= k < j + 1 && feature_names(#[trigger] features@[k], d);
                                if k < j {
                                    assert(feature_names(features@[k], d));
                                }
                            }
                        }
                    }
                    j = j + 1;
                }
                proof {
                    let s2 = facets@.subrange(0, i + 1);
                    assert(s2.drop_last() =~= facets@.subrange(0, i as int));
                    assert(s2.last() == facets@[i as int]);
                    assert(features@.subrange(0, features@.len() as int) =~= features@);
                    assert(views(cands@) =~= base + facet_dids(s2));
                    assert forall|d: Seq<char>| facets_name(facets@, i + 1, d) <==> (facets_name(facets@, i as int, d)
                        || exists|k: int| 0 <= k < features@.len() && feature_names(#[trigger] features@[k], d)) by {
                        if facets_name(facets@, i + 1, d) {
                            let (a, k) = choose|a: int, k: int| 0 <= a < i + 1 && 0 <= k < facets@[a].features@.len()
                                && feature_names(#[trigger] facets@[a].features@[k], d);
                            if a == i {
                                assert(feature_names(features@[k], d));
                            } else {
                                assert(facets_name(facets@, i as int, d));
                            }
                        }
                        if exists|k: int| 0 <= k < features@.len() && feature_names(#[trigger] features@[k], d) {
                            let k = choose|k: int| 0 <= k < features@.len() && feature_names(#[trigger] features@[k], d);
                            assert(feature_names(facets@[i as int].features@[k], d));
                        }
                        if facets_name(facets@, i as int, d) {
                            let (a, k) = choose|a: int, k: int| 0 <= a < i && 0 <= k < facets@[a].features@.len()
                                && feature_names(#[trigger] facets@[a].features@[k], d);
                            assert(feature_names(facets@[a].features@[k], d));
                        }
                    }
                }
                i = i + 1;
            }
        }
        proof {
            if let Some(fs) = rec.facets {
                assert(fs@.subrange(0, fs@.len() as int) =~= fs@);
            }
            assert(views(cands@) =~= did_candidates(self));
        }
        let r = unique_plc_dids(&cands);
        proof {
            assert forall|d: Seq<char>| #[trigger] views(r@).contains(d) <==> references_did(self, d) by {
                if let Some(fs) = rec.facets {
                    if facets_name(fs@, fs@.len() as int, d) {
                        let (a, k) = choose|a: int, k: int| 0 <= a < fs@.len() && 0 <= k < fs@[a].features@.len()
                            && feature_names(#[trigger] fs@[a].features@[k], d);
                        assert(feature_names(fs@[a].features@[k], d));
                    }
                }
            }
        }
        r
    }

    /// The canonical URIs the record references, each once, in order of appearance.
    pub fn extract_post_uris(&self) -> (r: Vec<String>)
        ensures
            distinct(views(r@)),
            forall|u: Seq<char>| #[trigger] views(r@).contains(u) <==> references_uri(self, u),
            views(r@) == post_uris_seq(self),
    {
        let mut out: Vec<String> = Vec::new();
        let record = match &self.commit.operation {
            Operation::Create { record } => record,
            Operation::Update { record } => record,
            Operation::Delete => {
                return out;
            },
        };
        let ghost rec = *record;
        assert(record_of(self) == Some(rec));
        let ghost c1: Seq<Seq<char>> = match rec.reply {
            Some(rp) => seq![rp.root.uri@, rp.parent.uri@],
            None => Seq::empty(),
        };
        if let Some(reply) = &record.reply {
            let ghost s0: Seq<Seq<char>> = Seq::empty();
            assert(views(out@) =~= unique_seq(s0));
            push_unique(&mut out, reply.root.uri.clone());
            let ghost s1 = s0.push(reply.root.uri@);
            assert(s1.drop_last() =~= s0);
            assert(views(out@) =~= unique_seq(s1));
            push_unique(&mut out, reply.parent.uri.clone());
            let ghost s2 = s1.push(reply.parent.uri@);
            assert(s2.drop_last() =~= s1);
            assert(views(out@) =~= unique_seq(s2));
            assert(s2 =~= c1);
        } else {
            assert(views(out@) =~= unique_seq(c1));
        }
        if let Some(u) = &record.embed_record_uri {
            push_unique(&mut out, u.clone());
            let ghost s3 = c1.push(u@);
            assert(s3.drop_last() =~= c1);
            assert(views(out@) =~= unique_seq(s3));
            assert(s3 =~= post_uri_candidates(self));
        } else {
            assert(c1 =~= post_uri_candidates(self));
        }
        out
    }
}


/// Lower-case form of a text, as Rust's Unicode case mapping gives it.
pub uninterp spec fn lower_of(s: Seq<char>) -> Seq<char>;

/// Relies on `str::to_lowercase`: the result depends on the characters alone.
#[verifier::external_body]
fn lowercase(s: &str) -> (r: String)
    ensures
        r@ == lower_of(s@),
{
    s.to_lowercase()
}

/// Relies on `str::get` with a byte range: the slice when both ends are in
/// range and on character boundaries, else nothing.
#[verifier::external_body]
fn byte_slice(s: &str, start: usize, end: usize) -> (r: Option<String>)
    ensures
        r matches Some(t) ==> 0 <= start <= end <= encode_utf8(s@).len()
            && is_char_boundary(encode_utf8(s@), start as int) && is_char_boundary(encode_utf8(s@), end as int)
            && encode_utf8(t@) == encode_utf8(s@).subrange(start as int, end as int),
        r is None ==> !(start <= end <= encode_utf8(s@).len()
            && is_char_boundary(encode_utf8(s@), start as int) && is_char_boundary(encode_utf8(s@), end as int)),
{
    s.get(start..end).map(|t| t.to_string())
}

/// `s` without its leading `c` characters.
pub open spec fn trim_leading(s: Seq<char>, c: char) -> Seq<char>
    decreases s.len(),
{
    if s.len() > 0 && s[0] == c { trim_leading(s.drop_first(), c) } else { s }
}

pub fn trim_start_char(s: &str, c: char) -> (r: &str)
    ensures
        r@ == trim_leading(s@, c),
{
    let n = s.unicode_len();
    let mut i: usize = 0;
    assert(s@.subrange(0, n as int) =~= s@);
    while i < n && s.get_char(i) == c
        invariant
            n == s@.len(),
            i <= n,
            trim_leading(s@, c) == trim_leading(s@.subrange(i as int, n as int), c),
        decreases n - i,
    {
        proof {
            assert(s@.subrange(i as int, n as int).drop_first() =~= s@.subrange(i + 1, n as int));
        }
        i = i + 1;
    }
    s.substring_char(i, n)
}

/// The URL a link feature contributes: its URI after the `http` prefix.
pub open spec fn link_url(f: FacetFeature) -> Option<Seq<char>> {
    if f.feature_type@ == "app.bsky.richtext.facet#link"@ && has_prefix(f.uri@, "http"@) {
        Some(f.uri@.subrange(4, f.uri@.len() as int))
    } else {
        None
    }
}

/// The identifier a mention feature contributes.
pub open spec fn mention_did(f: FacetFeature) -> Option<Seq<char>> {
    if f.feature_type@ == "app.bsky.richtext.facet#mention"@ && f.did is Some {
        Some(f.did->0@)
    } else {
        None
    }
}

pub open spec fn feature_urls(fs: Seq<FacetFeature>) -> Seq<Seq<char>>
    decreases fs.len(),
{
    if fs.len() == 0 {
        Seq::empty()
    } else {
        let p = feature_urls(fs.drop_last());
        match link_url(fs.last()) {
            Some(u) => p.push(u),
            None => p,
        }
    }
}

pub open spec fn feature_mentions(fs: Seq<FacetFeature>) -> Seq<Seq<char>>
    decreases fs.len(),
{
    if fs.len() == 0 {
        Seq::empty()
    } else {
        let p = feature_mentions(fs.drop_last());
        match mention_did(fs.last()) {
            Some(d) => p.push(d),
            None => p,
        }
    }
}

/// The URLs of all link features, facet by facet, in order.
pub open spec fn facet_urls(fs: Seq<Facet>) -> Seq<Seq<char>>
    decreases fs.len(),
{
    if fs.len() == 0 { Seq::empty() } else { facet_urls(fs.drop_last()) + feature_urls(fs.last().features@) }
}

/// The identifiers of all mention features, facet by facet, in order.
pub open spec fn facet_mentions(fs: Seq<Facet>) -> Seq<Seq<char>>
    decreases fs.len(),
{
    if fs.len() == 0 { Seq::empty() } else { facet_mentions(fs.drop_last()) + feature_mentions(fs.last().features@) }
}

pub open spec fn mention_dids(ms: Seq<Mention>) -> Seq<Seq<char>> {
    ms.map_values(|m: Mention| m.did@)
}

/// The text that bytes `start..end` of `text`'s UTF-8 encoding spell, when
/// both ends are in range and on character boundaries.
pub open spec fn byte_range_text(text: Seq<char>, start: int, end: int) -> Option<Seq<char>> {
    let b = encode_utf8(text);
    if 0 <= start <= end <= b.len() && is_char_boundary(b, start) && is_char_boundary(b, end) {
        Some(decode_utf8(b.subrange(start, end)))
    } else {
        None
    }
}

/// The hashtag a tag feature over bytes `start..end` contributes: the text
/// there without leading `#`, lower-cased.
pub open spec fn tag_of(text: Seq<char>, start: u32, end: u32, f: FacetFeature) -> Option<Seq<char>> {
    if f.feature_type@ == "app.bsky.richtext.facet#tag"@ {
        match byte_range_text(text, start as int, end as int) {
            Some(t) => Some(lower_of(trim_leading(t, '#'))),
            None => None,
        }
    } else {
        None
    }
}

pub open spec fn feature_tags(text: Seq<char>, start: u32, end: u32, fs: Seq<FacetFeature>) -> Seq<Seq<char>>
    decreases fs.len(),
{
    if fs.len() == 0 {
        Seq::empty()
    } else {
        let p = feature_tags(text, start, end, fs.drop_last());
        match tag_of(text, start, end, fs.last()) {
            Some(t) => p.push(t),
            None => p,
        }
    }
}

/// The hashtags of all tag features, facet by facet, in order.
pub open spec fn facet_tags(text: Seq<char>, fs: Seq<Facet>) -> Seq<Seq<char>>
    decreases fs.len(),
{
    if fs.len() == 0 {
        Seq::empty()
    } else {
        let last = fs.last();
        facet_tags(text, fs.drop_last()) + feature_tags(text, last.index.byte_start, last.index.byte_end, last.features@)
    }
}

/// Whether two texts are equal.
pub fn same_text(a: &str, b: &str) -> (r: bool)
    ensures
        r == (a@ == b@),
{
    let eq = a.unicode_len() == b.unicode_len() && starts_with(a, b);
    proof {
        if eq {
            assert(a@.subrange(0, b@.len() as int) =~= a@);
        }
        if a@ == b@ {
            assert(a@.subrange(0, b@.len() as int) =~= b@);
        }
    }
    eq
}

impl EnrichedRecord {
    /// A record for `message` with nothing hydrated yet.
    pub fn new(message: JetstreamMessage, processed_at: String) -> (r: EnrichedRecord)
        ensures
            r.message == message,
            r.processed_at == processed_at,
            r.hydrated_metadata.author_profile is None,
            r.hydrated_metadata.mentioned_profiles@.len() == 0,
            r.hydrated_metadata.referenced_posts@.len() == 0,
            r.hydrated_metadata.hashtags@.len() == 0,
            r.hydrated_metadata.urls@.len() == 0,
            r.hydrated_metadata.mentions@.len() == 0,
            r.hydrated_metadata.detected_language is None,
            r.metrics == (ProcessingMetrics { hydration_time_ms: 0, api_calls_count: 0, cache_hit_rate_bp: 0, cache_hits: 0, cache_misses: 0 }),
    {
        EnrichedRecord {
            message,
            hydrated_metadata: HydratedMetadata::new(),
            processed_at,
            metrics: ProcessingMetrics { hydration_time_ms: 0, api_calls_count: 0, cache_hit_rate_bp: 0, cache_hits: 0, cache_misses: 0 },
        }
    }

    pub fn get_at_uri(&self) -> (r: Option<&str>)
        ensures
            r matches Some(u) ==> at_uri_of(&self.message) == Some(u@),
            r is None ==> at_uri_of(&self.message) is None,
    {
        self.message.extract_at_uri()
    }

    pub fn get_did(&self) -> (r: &str)
        ensures
            r@ == self.message.did@,
    {
        self.message.extract_did()
    }

    /// The text of the touched record, if it has one.
    pub fn get_text(&self) -> (r: Option<&str>)
        ensures
            r matches Some(t) ==> record_of(&self.message) matches Some(rec) && rec.text matches Some(x) && x@ == t@,
            r is None ==> !(record_of(&self.message) matches Some(rec) && rec.text is Some),
    {
        match &self.message.commit.operation {
            Operation::Create { record } | Operation::Update { record } => match &record.text {
                Some(t) => Some(t.as_str()),
                None => None,
            },
            Operation::Delete => None,
        }
    }

    /// Sets the hit rate from the hit and miss counts, in basis points.
    pub fn calculate_cache_hit_rate(&mut self)
        ensures
            final(self).metrics.cache_hit_rate_bp as nat == hit_rate_bp(old(self).metrics.cache_hits as u64, old(self).metrics.cache_misses as u64),
            final(self).metrics.cache_hits == old(self).metrics.cache_hits,
            final(self).metrics.cache_misses == old(self).metrics.cache_misses,
            final(self).metrics.api_calls_count == old(self).metrics.api_calls_count,
            final(self).metrics.hydration_time_ms == old(self).metrics.hydration_time_ms,
            final(self).message == old(self).message,
            final(self).hydrated_metadata == old(self).hydrated_metadata,
            final(self).processed_at == old(self).processed_at,
    {
        self.metrics.cache_hit_rate_bp = hit_rate(self.metrics.cache_hits as u64, self.metrics.cache_misses as u64) as u32;
    }
}

impl HydratedMetadata {
    pub fn new() -> (r: HydratedMetadata)
        ensures
            r.author_profile is None,
            r.mentioned_profiles@.len() == 0,
            r.referenced_posts@.len() == 0,
            r.hashtags@.len() == 0,
            r.urls@.len() == 0,
            r.mentions@.len() == 0,
            r.detected_language is None,
    {
        HydratedMetadata {
            author_profile: None,
            mentioned_profiles: Vec::new(),
            referenced_posts: Vec::new(),
            hashtags: Vec::new(),
            urls: Vec::new(),
            mentions: Vec::new(),
            detected_language: None,
        }
    }

    /// Adds `profile` unless a profile with its identifier is already there.
    pub fn add_mentioned_profile(&mut self, profile: Arc<BlueskyProfile>)
        ensures
            (exists|i: int| 0 <= i < old(self).mentioned_profiles@.len() && old(self).mentioned_profiles@[i].did@ == profile.did@)
                ==> final(self).mentioned_profiles@ == old(self).mentioned_profiles@,
            !(exists|i: int| 0 <= i < old(self).mentioned_profiles@.len() && old(self).mentioned_profiles@[i].did@ == profile.did@)
                ==> final(self).mentioned_profiles@ == old(self).mentioned_profiles@.push(profile),
            final(self).referenced_posts == old(self).referenced_posts,
    {
        let mut i: usize = 0;
        while i < self.mentioned_profiles.len()
            invariant
                i <= self.mentioned_profiles@.len(),
                forall|k: int| 0 <= k < i ==> self.mentioned_profiles@[k].did@ != profile.did@,
            decreases self.mentioned_profiles@.len() - i,
        {
            if self.mentioned_profiles[i].did == profile.did {
                return;
            }
            i = i + 1;
        }
        self.mentioned_profiles.push(profile);
    }

    /// Adds `post` unless a record with its URI is already there.
    pub fn add_referenced_post(&mut self, post: ReferencedPost)
        ensures
            (exists|i: int| 0 <= i < old(self).referenced_posts@.len() && old(self).referenced_posts@[i].uri@ == post.uri@)
                ==> final(self).referenced_posts@ == old(self).referenced_posts@,
            !(exists|i: int| 0 <= i < old(self).referenced_posts@.len() && old(self).referenced_posts@[i].uri@ == post.uri@)
                ==> final(self).referenced_posts@ == old(self).referenced_posts@.push(post),
            final(self).mentioned_profiles == old(self).mentioned_profiles,
    {
        let mut i: usize = 0;
        while i < self.referenced_posts.len()
            invariant
                i <= self.referenced_posts@.len(),
                forall|k: int| 0 <= k < i ==> self.referenced_posts@[k].uri@ != post.uri@,
            decreases self.referenced_posts@.len() - i,
        {
            if self.referenced_posts[i].uri == post.uri {
                return;
            }
            i = i + 1;
        }
        self.referenced_posts.push(post);
    }

    /// Collects hashtags, links and mentions from the record's facets.
    /// A tag is the lower-cased text its byte range covers, without leading
    /// `#`; a link keeps what follows its `http` prefix; a mention keeps its
    /// identifier and byte range. Earlier extractions are discarded.
    pub fn extract_content_features(&mut self, text: &str, facets: &Option<Vec<Facet>>)
        ensures
            final(self).author_profile == old(self).author_profile,
            final(self).mentioned_profiles == old(self).mentioned_profiles,
            final(self).referenced_posts == old(self).referenced_posts,
            final(self).detected_language == old(self).detected_language,
            facets is None ==> final(self).hashtags@.len() == 0 && final(self).urls@.len() == 0 && final(self).mentions@.len() == 0,
            facets matches Some(fs) ==> views(final(self).hashtags@) == facet_tags(text@, fs@)
                && views(final(self).urls@) == facet_urls(fs@)
                && mention_dids(final(self).mentions@) == facet_mentions(fs@),
            forall|i: int| 0 <= i < final(self).mentions@.len() ==> (#[trigger] final(self).mentions@[i]).handle is None
                && final(self).mentions@[i].display_name is None,
    {
        self.hashtags = Vec::new();
        self.urls = Vec::new();
        self.mentions = Vec::new();
        proof {
            reveal_strlit("app.bsky.richtext.facet#tag");
            reveal_strlit("app.bsky.richtext.facet#link");
            reveal_strlit("app.bsky.richtext.facet#mention");
            reveal_strlit("http");
        }
        match facets {
            None => {},
            Some(fs) => {
                let mut i: usize = 0;
                proof {
                    assert(views(self.hashtags@) =~= facet_tags(text@, fs@.subrange(0, 0)));
                    assert(views(self.urls@) =~= facet_urls(fs@.subrange(0, 0)));
                    assert(mention_dids(self.mentions@) =~= facet_mentions(fs@.subrange(0, 0)));
                }
                while i < fs.len()
                    invariant
                        i <= fs@.len(),
                        views(self.hashtags@) == facet_tags(text@, fs@.subrange(0, i as int)),
                        views(self.urls@) == facet_urls(fs@.subrange(0, i as int)),
                        mention_dids(self.mentions@) == facet_mentions(fs@.subrange(0, i as int)),
                        self.author_profile == old(self).author_profile,
                        self.mentioned_profiles == old(self).mentioned_profiles,
                        self.referenced_posts == old(self).referenced_posts,
                        self.detected_language == old(self).detected_language,
                        forall|a: int| 0 <= a < self.mentions@.len() ==> (#[trigger] self.mentions@[a]).handle is None
                            && self.mentions@[a].display_name is None,
                    decreases fs@.len() - i,
                {
                    let start = fs[i].index.byte_start;
                    let end = fs[i].index.byte_end;
                    let features = &fs[i].features;
                    let mut j: usize = 0;
                    proof {
                        assert(views(self.hashtags@) =~= facet_tags(text@, fs@.subrange(0, i as int)) + feature_tags(text@, start, end, features@.subrange(0, 0)));
                        assert(views(self.urls@) =~= facet_urls(fs@.subrange(0, i as int)) + feature_urls(features@.subrange(0, 0)));
                        assert(mention_dids(self.mentions@) =~= facet_mentions(fs@.subrange(0, i as int)) + feature_mentions(features@.subrange(0, 0)));
                    }
                    while j < features.len()
                        invariant
                            i < fs@.len(),
                            *features == fs@[i as int].features,
                            start == fs@[i as int].index.byte_start,
                            end == fs@[i as int].index.byte_end,
                            j <= features@.len(),
                            views(self.hashtags@) == facet_tags(text@, fs@.subrange(0, i as int)) + feature_tags(text@, start, end, features@.subrange(0, j as int)),
                            views(self.urls@) == facet_urls(fs@.subrange(0, i as int)) + feature_urls(features@.subrange(0, j as int)),
                            mention_dids(self.mentions@) == facet_mentions(fs@.subrange(0, i as int)) + feature_mentions(features@.subrange(0, j as int)),
                            self.author_profile == old(self).author_profile,
                            self.mentioned_profiles == old(self).mentioned_profiles,
                            self.referenced_posts == old(self).referenced_posts,
                            self.detected_language == old(self).detected_language,
                            forall|a: int| 0 <= a < self.mentions@.len() ==> (#[trigger] self.mentions@[a]).handle is None
                                && self.mentions@[a].display_name is None,
                        decreases features@.len() - j,
                    {
                        let f = &features[j];
                        let ghost pu = views(self.urls@);
                        let ghost pt = views(self.hashtags@);
                        let ghost pm = mention_dids(self.mentions@);
                        proof {
                            reveal_strlit("app.bsky.richtext.facet#tag");
                            reveal_strlit("app.bsky.richtext.facet#link");
                            reveal_strlit("app.bsky.richtext.facet#mention");
                            reveal_strlit("http");
                            assert("app.bsky.richtext.facet#tag"@.len() == 27);
                            assert("app.bsky.richtext.facet#link"@.len() == 28);
                            assert("app.bsky.richtext.facet#mention"@.len() == 31);
                        }
                        let kind = f.feature_type.as_str();
                        let is_tag = same_text(kind, "app.bsky.richtext.facet#tag");
                        let is_link = same_text(kind, "app.bsky.richtext.facet#link");
                        let is_mention = same_text(kind, "app.bsky.richtext.facet#mention");
                        proof {
                            if is_tag {
                                assert(!is_link && !is_mention);
                            }
                            if is_link {
                                assert(!is_mention);
                            }
                        }
                        if is_tag {
                            if let Some(tag) = byte_slice(text, start as usize, end as usize) {
                                let lowered = lowercase(trim_start_char(tag.as_str(), '#'));
                                self.hashtags.push(lowered);
                                proof {
                                    encode_utf8_decode_utf8(tag@);
                                    assert(byte_range_text(text@, start as int, end as int) == Some(tag@));
                                    assert(views(self.hashtags@) =~= pt.push(tag_of(text@, start, end, *f)->0));
                                }
                            } else {
                                assert(tag_of(text@, start, end, *f) is None);
                            }
                            assert(link_url(*f) is None && mention_did(*f) is None);
                        } else if is_link {
                            if starts_with(f.uri.as_str(), "http") {
                                let n = f.uri.as_str().unicode_len();
                                self.urls.push(String::from_str(f.uri.as_str().substring_char(4, n)));
                                proof {
                                    assert(views(self.urls@) =~= pu.push(link_url(*f)->0));
                                }
                            }
                            assert(mention_did(*f) is None);
                        } else if is_mention {
                            if let Some(did) = &f.did {
                                let ghost prev = self.mentions@;
                                self.mentions.push(Mention {
                                    did: did.clone(),
                                    handle: None,
                                    display_name: None,
                                    start_byte: start,
                                    end_byte: end,
                                });
                                proof {
                                    assert forall|a: int| 0 <= a < self.mentions@.len() implies (#[trigger] self.mentions@[a]).handle is None
                                        && self.mentions@[a].display_name is None by {
                                        if a < prev.len() {
                                            assert(self.mentions@[a] == prev[a]);
                                        }
                                    }
                                    assert(mention_dids(self.mentions@) =~= pm.push(mention_did(*f)->0));
                                }
                            }
                            assert(link_url(*f) is None);
                        } else {
                            assert(link_url(*f) is None && mention_did(*f) is None);
                        }
                        proof {
                            if tag_of(text@, start, end, *f) is None {
                                assert(views(self.hashtags@) =~= pt);
                            }
                            if link_url(*f) is None {
                                assert(views(self.urls@) =~= pu);
                            }
                            if mention_did(*f) is None {
                                assert(mention_dids(self.mentions@) =~= pm);
                            }
                        }
                        proof {
                            assert(features@.subrange(0, j + 1).drop_last() =~= features@.subrange(0, j as int));
                            assert(features@.subrange(0, j + 1).last() == features@[j as int]);
                            assert(views(self.hashtags@) =~= facet_tags(text@, fs@.subrange(0, i as int)) + feature_tags(text@, start, end, features@.subrange(0, j + 1)));
                            assert(views(self.urls@) =~= facet_urls(fs@.subrange(0, i as int)) + feature_urls(features@.subrange(0, j + 1)));
                            assert(mention_dids(self.mentions@) =~= facet_mentions(fs@.subrange(0, i as int)) + feature_mentions(features@.subrange(0, j + 1)));
                        }
                        j = j + 1;
                    }
                    proof {
                        assert(features@.subrange(0, features@.len() as int) =~= features@);
                        assert(fs@.subrange(0, i + 1).drop_last() =~= fs@.subrange(0, i as int));
                        assert(fs@.subrange(0, i + 1).last() == fs@[i as int]);
                        assert(views(self.hashtags@) =~= facet_tags(text@, fs@.subrange(0, i + 1)));
                        assert(views(self.urls@) =~= facet_urls(fs@.subrange(0, i + 1)));
                        assert(mention_dids(self.mentions@) =~= facet_mentions(fs@.subrange(0, i + 1)));
                    }
                    i = i + 1;
                }
                proof {
                    assert(fs@.subrange(0, fs@.len() as int) =~= fs@);
                }
            },
        }
    }
}

} // verus!
