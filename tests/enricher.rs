use std::sync::Arc;

use jetstream_turbo::cache::TurboCache;
use jetstream_turbo::coalescer::BatchCoalescer;
use jetstream_turbo::enricher::{absorb_posts, absorb_profiles, hydrate_batch, plan_batch, plan_requests};
use jetstream_turbo::models::{Facet, FacetFeature, FacetIndex};
use jetstream_turbo::models::{
    BlueskyPost, BlueskyProfile, CommitData, JetstreamMessage, Operation, Record, RecordRef, ReplyRef,
};

fn profile(did: &str) -> BlueskyProfile {
    BlueskyProfile {
        did: did.to_string(),
        handle: "a.bsky.social".to_string(),
        display_name: None,
        description: None,
        avatar: None,
        banner: None,
        followers_count: None,
        follows_count: None,
        posts_count: None,
        indexed_at: None,
        created_at: None,
        labels: None,
    }
}

fn event(actor: &str, seq: u64, uri: &str) -> JetstreamMessage {
    JetstreamMessage {
        did: actor.to_string(),
        seq,
        time_us: 1,
        commit: CommitData {
            seq,
            rebase: false,
            time_us: 1,
            operation: Operation::Create {
                record: Record {
                    uri: uri.to_string(),
                    cid: "cid".to_string(),
                    author: actor.to_string(),
                    record_type: "app.bsky.feed.post".to_string(),
                    created_at: "2024-01-01T00:00:00Z".to_string(),
                    text: Some("hello".to_string()),
                    embed_record_uri: None,
                    labels: None,
                    langs: None,
                    reply: None,
                    tags: None,
                    facets: None,
                },
            },
        },
    }
}

#[test]
fn warm_cache_single_event() {
    let mut cache = TurboCache::new(10, 10);
    cache.set_user_profile("did:plc:a".to_string(), Arc::new(profile("did:plc:a")));
    let batch = vec![event("did:plc:a", 1, "at://did:plc:a/c/r")];
    let plan = plan_batch(&cache, &batch);
    assert!(plan.uncached_dids.is_empty());
    assert!(plan.uncached_uris.is_empty());
    let out = hydrate_batch(&mut cache, batch, 0, &"2024-01-01T00:00:00Z".to_string());
    assert_eq!(out.len(), 1);
    let r = &out[0];
    assert_eq!(r.hydrated_metadata.author_profile.as_ref().unwrap().did, "did:plc:a");
    assert_eq!(r.metrics.api_calls_count, 0);
    assert_eq!(r.metrics.cache_hit_rate_bp, 10000);
    assert_eq!(r.metrics.cache_hits, 1);
    assert_eq!(r.metrics.cache_misses, 0);
    assert_eq!(r.message.seq, 1);
    assert_eq!(r.message.did, "did:plc:a");
}

#[test]
fn cold_cache_single_event() {
    let mut cache = TurboCache::new(10, 10);
    let batch = vec![event("did:plc:a", 1, "at://did:plc:a/c/r")];
    let plan = plan_batch(&cache, &batch);
    assert_eq!(plan.uncached_dids, vec!["did:plc:a".to_string()]);
    let mut profiles = BatchCoalescer::new(25, 50, 0);
    profiles.add(plan.uncached_dids.clone());
    let requests = profiles.drain_all(0);
    assert_eq!(requests.len(), 1);
    assert_eq!(requests[0], vec!["did:plc:a".to_string()]);
    // the upstream answers with the profile
    absorb_profiles(&mut cache, &plan.uncached_dids, vec![Some(Arc::new(profile("did:plc:a")))]);
    let out = hydrate_batch(&mut cache, batch, requests.len() as u32, &"t".to_string());
    assert_eq!(out[0].hydrated_metadata.author_profile.as_ref().unwrap().did, "did:plc:a");
    assert!(out[0].metrics.api_calls_count >= 1);
}

#[test]
fn forty_distinct_actors_need_two_profile_requests() {
    let cache = TurboCache::new(100, 100);
    let batch: Vec<JetstreamMessage> =
        (0..40).map(|i| event(&format!("did:plc:{:04}", i), i as u64, "at://x/c/r")).collect();
    let plan = plan_batch(&cache, &batch);
    assert_eq!(plan.uncached_dids.len(), 40);
    let mut profiles = BatchCoalescer::new(25, 50, 0);
    profiles.add(plan.uncached_dids);
    let requests = profiles.drain_all(10);
    assert_eq!(requests.len(), 2);
    assert_eq!(requests[0].len(), 25);
    assert_eq!(requests[1].len(), 15);
    assert_eq!(profiles.batches_total, 2);
    assert_eq!(profiles.batches_partial, 1);
}

#[test]
fn empty_batch_needs_nothing() {
    let mut cache = TurboCache::new(10, 10);
    let plan = plan_batch(&cache, &vec![]);
    assert!(plan.uncached_dids.is_empty());
    assert!(plan.uncached_uris.is_empty());
    let out = hydrate_batch(&mut cache, vec![], 0, &"t".to_string());
    assert!(out.is_empty());
}

fn replying(actor: &str, parent: &str) -> JetstreamMessage {
    let mut m = event(actor, 9, "at://did:plc:z/app.bsky.feed.post/9");
    if let Operation::Create { record } = &mut m.commit.operation {
        record.reply = Some(ReplyRef {
            root: RecordRef { uri: parent.to_string(), cid: "c".to_string() },
            parent: RecordRef { uri: parent.to_string(), cid: "c".to_string() },
            gate: None,
        });
    }
    m
}

#[test]
fn invalid_uri_is_never_requested() {
    let cache = TurboCache::new(10, 10);
    let batch = vec![replying("did:plc:z", "at://did:plc:p//broken"), replying("did:plc:z", "at://did:plc:p/c/ok")];
    let plan = plan_batch(&cache, &batch);
    assert_eq!(plan.uncached_uris, vec!["at://did:plc:p/c/ok".to_string()]);
    assert_eq!(plan.uncached_dids, vec!["did:plc:z".to_string(), "did:plc:p".to_string()]);
}

#[test]
fn all_cached_batch_needs_nothing() {
    let mut cache = TurboCache::new(10, 10);
    cache.set_user_profile("did:plc:z".to_string(), Arc::new(profile("did:plc:z")));
    cache.set_user_profile("did:plc:p".to_string(), Arc::new(profile("did:plc:p")));
    let post = BlueskyPost {
        uri: "at://did:plc:p/c/ok".to_string(),
        cid: "c".to_string(),
        author: profile("did:plc:p"),
        text: "t".to_string(),
        created_at: "2024-01-01T00:00:00Z".to_string(),
        reply: None,
        facets: None,
        labels: None,
        like_count: None,
        repost_count: None,
        reply_count: None,
    };
    absorb_posts(&mut cache, &vec!["at://did:plc:p/c/ok".to_string()], vec![Some(Arc::new(post))]);
    let batch = vec![replying("did:plc:z", "at://did:plc:p/c/ok")];
    let plan = plan_batch(&cache, &batch);
    assert!(plan.uncached_dids.is_empty());
    assert!(plan.uncached_uris.is_empty());
}

#[test]
fn batch_output_keeps_input_order() {
    let mut cache = TurboCache::new(10, 10);
    let batch = vec![
        event("did:plc:b", 2, "at://did:plc:b/c/2"),
        event("did:plc:a", 1, "at://did:plc:a/c/1"),
        event("did:plc:c", 3, "at://did:plc:c/c/3"),
    ];
    let out = hydrate_batch(&mut cache, batch, 0, &"t".to_string());
    let seqs: Vec<u64> = out.iter().map(|r| r.message.seq).collect();
    assert_eq!(seqs, vec![2, 1, 3]);
    assert_eq!(out[0].metrics.cache_misses, 1);
    assert!(out[0].hydrated_metadata.author_profile.is_none());
}

#[test]
fn missing_profiles_are_skipped() {
    let mut cache = TurboCache::new(10, 10);
    let keys = vec!["did:plc:a".to_string(), "did:plc:b".to_string()];
    absorb_profiles(&mut cache, &keys, vec![None, Some(Arc::new(profile("did:plc:b")))]);
    let flags = cache.check_user_profiles_cached(&keys);
    assert_eq!(flags, vec![false, true]);
}

fn post(uri: &str, author: &str) -> BlueskyPost {
    BlueskyPost {
        uri: uri.to_string(),
        cid: "c".to_string(),
        author: profile(author),
        text: "quoted text".to_string(),
        created_at: "2024-01-01T00:00:00Z".to_string(),
        reply: None,
        facets: None,
        labels: None,
        like_count: Some(4),
        repost_count: None,
        reply_count: Some(1),
    }
}

#[test]
fn referenced_records_and_features_are_filled() {
    let mut cache = TurboCache::new(10, 10);
    cache.set_user_profile("did:plc:z".to_string(), Arc::new(profile("did:plc:z")));
    absorb_posts(&mut cache, &vec!["at://did:plc:p/c/ok".to_string()], vec![Some(Arc::new(post("at://did:plc:p/c/ok", "did:plc:p")))]);
    let mut m = replying("did:plc:z", "at://did:plc:p/c/ok");
    if let Operation::Create { record } = &mut m.commit.operation {
        record.text = Some("#Hi there".to_string());
        record.facets = Some(vec![Facet {
            index: FacetIndex { byte_start: 0, byte_end: 3 },
            features: vec![FacetFeature { feature_type: "app.bsky.richtext.facet#tag".to_string(), uri: String::new(), did: None }],
        }]);
    }
    let out = hydrate_batch(&mut cache, vec![m], 0, &"t".to_string());
    let r = &out[0];
    assert_eq!(r.hydrated_metadata.referenced_posts.len(), 1);
    assert_eq!(r.hydrated_metadata.referenced_posts[0].text, "quoted text");
    assert_eq!(r.hydrated_metadata.referenced_posts[0].author_handle, Some("a.bsky.social".to_string()));
    assert_eq!(r.hydrated_metadata.hashtags, vec!["hi".to_string()]);
    // author hit, referenced actor did:plc:p missed, referenced record hit
    assert_eq!(r.metrics.cache_hits, 2);
    assert_eq!(r.metrics.cache_misses, 1);
    assert_eq!(r.metrics.cache_hit_rate_bp, 6666);
}

#[test]
fn requests_cover_each_uncached_key_once() {
    let cache = TurboCache::new(100, 100);
    let batch: Vec<JetstreamMessage> =
        (0..40).map(|i| event(&format!("did:plc:{:04}", i % 30), i as u64, "at://x/c/r")).collect();
    let plan = plan_requests(&cache, &batch, 25, 25);
    assert_eq!(plan.profile_requests.len(), 2);
    assert_eq!(plan.profile_requests[0].len(), 25);
    assert_eq!(plan.profile_requests[1].len(), 5);
    assert!(plan.post_requests.is_empty());
    let empty = plan_requests(&cache, &vec![], 25, 25);
    assert!(empty.profile_requests.is_empty() && empty.post_requests.is_empty());
}
