use std::sync::Arc;

use jetstream_turbo::cache::TurboCache;
use jetstream_turbo::models::{BlueskyPost, BlueskyProfile};

fn profile(did: &str, handle: &str) -> BlueskyProfile {
    BlueskyProfile {
        did: did.to_string(),
        handle: handle.to_string(),
        display_name: None,
        description: None,
        avatar: None,
        banner: None,
        followers_count: Some(0),
        follows_count: Some(0),
        posts_count: Some(0),
        indexed_at: None,
        created_at: None,
        labels: None,
    }
}

#[test]
fn test_user_profile_cache() {
    let mut cache = TurboCache::new(100, 100);

    let result = cache.get_user_profile("did:plc:test");
    assert!(result.is_none());

    let mut p = profile("did:plc:test", "test.bsky.social");
    p.display_name = Some("Test User".to_string());
    cache.set_user_profile("did:plc:test".to_string(), Arc::new(p));

    let result = cache.get_user_profile("did:plc:test");
    assert!(result.is_some());
    assert_eq!(result.unwrap().did, "did:plc:test");

    let metrics = cache.get_metrics();
    assert_eq!(metrics.user_hits, 1);
    assert_eq!(metrics.user_misses, 1);
}

#[test]
fn test_post_cache() {
    let mut cache = TurboCache::new(100, 100);

    let post = BlueskyPost {
        uri: "at://did:plc:test/app.bsky.feed.post/test".to_string(),
        cid: "bafyrei".to_string(),
        author: profile("did:plc:test", "test.bsky.social"),
        text: "Hello world".to_string(),
        created_at: "2022-01-01T00:00:00Z".to_string(),
        reply: None,
        facets: None,
        labels: None,
        like_count: None,
        repost_count: None,
        reply_count: None,
    };

    assert!(cache.get_post("at://did:plc:test/app.bsky.feed.post/test").is_none());
    cache.set_post("at://did:plc:test/app.bsky.feed.post/test".to_string(), Arc::new(post));

    let result = cache.get_post("at://did:plc:test/app.bsky.feed.post/test");
    assert!(result.is_some());
    assert_eq!(result.unwrap().text, "Hello world");

    let metrics = cache.get_metrics();
    assert_eq!(metrics.post_hits, 1);
    assert_eq!(metrics.post_misses, 1);
}

#[test]
fn hit_rate_counts_every_lookup() {
    let mut cache = TurboCache::new(10, 10);
    cache.get_user_profile("did:plc:test1");
    cache.get_user_profile("did:plc:test2");
    cache.set_user_profile("did:plc:test1".to_string(), Arc::new(profile("did:plc:test1", "test1.bsky.social")));
    cache.get_user_profile("did:plc:test1");
    let (user_rate, post_rate) = cache.get_hit_rates();
    // one hit out of three lookups
    assert_eq!(user_rate, 3333);
    assert_eq!(post_rate, 0);
}

#[test]
fn least_recently_used_profile_is_evicted() {
    let mut cache = TurboCache::new(2, 2);
    cache.set_user_profile("did:plc:a".to_string(), Arc::new(profile("did:plc:a", "a")));
    cache.set_user_profile("did:plc:b".to_string(), Arc::new(profile("did:plc:b", "b")));
    // touch a, so b becomes the least recently used
    assert!(cache.get_user_profile("did:plc:a").is_some());
    cache.set_user_profile("did:plc:c".to_string(), Arc::new(profile("did:plc:c", "c")));
    let flags = cache.check_user_profiles_cached(&vec![
        "did:plc:a".to_string(),
        "did:plc:b".to_string(),
        "did:plc:c".to_string(),
    ]);
    assert_eq!(flags, vec![true, false, true]);
    assert_eq!(cache.get_metrics().cache_evictions, 1);
}

#[test]
fn replacing_a_key_does_not_evict() {
    let mut cache = TurboCache::new(1, 1);
    cache.set_user_profile("did:plc:a".to_string(), Arc::new(profile("did:plc:a", "old")));
    cache.set_user_profile("did:plc:a".to_string(), Arc::new(profile("did:plc:a", "new")));
    assert_eq!(cache.get_user_profile("did:plc:a").unwrap().handle, "new");
    assert_eq!(cache.get_metrics().cache_evictions, 0);
}

#[test]
fn membership_check_keeps_recency() {
    let mut cache = TurboCache::new(2, 2);
    cache.set_user_profile("did:plc:a".to_string(), Arc::new(profile("did:plc:a", "a")));
    cache.set_user_profile("did:plc:b".to_string(), Arc::new(profile("did:plc:b", "b")));
    // a check does not make a recent
    cache.check_user_profiles_cached(&vec!["did:plc:a".to_string()]);
    cache.set_user_profile("did:plc:c".to_string(), Arc::new(profile("did:plc:c", "c")));
    assert!(cache.get_user_profile("did:plc:a").is_none());
    assert!(cache.get_user_profile("did:plc:b").is_some());
}

#[test]
fn clear_empties_both_namespaces() {
    let mut cache = TurboCache::new(4, 4);
    cache.set_user_profile("did:plc:a".to_string(), Arc::new(profile("did:plc:a", "a")));
    cache.clear();
    assert!(cache.get_user_profile("did:plc:a").is_none());
}

#[test]
fn batch_getters_follow_single_lookups() {
    let mut cache = TurboCache::new(4, 4);
    cache.set_user_profile("did:plc:a".to_string(), Arc::new(profile("did:plc:a", "a")));
    let got = cache.get_user_profiles(&vec!["did:plc:a".to_string(), "did:plc:x".to_string()]);
    assert_eq!(got.len(), 2);
    assert_eq!(got[0].as_ref().unwrap().handle, "a");
    assert!(got[1].is_none());
    let posts = cache.get_posts(&vec!["at://x/c/r".to_string()]);
    assert!(posts[0].is_none());
    let m = cache.get_metrics();
    assert_eq!((m.user_hits, m.user_misses, m.post_misses), (1, 1, 1));
}
