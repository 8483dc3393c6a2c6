use std::sync::Arc;

use jetstream_turbo::lookup::{align_posts, align_profiles, insert_chunks, valid_uris};
use jetstream_turbo::models::{BlueskyPost, BlueskyProfile};

fn profile(did: &str) -> Arc<BlueskyProfile> {
    Arc::new(BlueskyProfile {
        did: did.to_string(),
        handle: format!("{}.test", did),
        display_name: None,
        description: None,
        avatar: None,
        banner: None,
        followers_count: None,
        follows_count: None,
        posts_count: None,
        indexed_at: None,
        created_at: None,
        labels: None,
    })
}

#[test]
fn invalid_uris_are_dropped_in_order() {
    let uris = vec![
        "at://did:plc:a/c/1".to_string(),
        "nope".to_string(),
        "at://did:plc:b/c/2".to_string(),
        "at://did:plc:b/c/".to_string(),
    ];
    assert_eq!(valid_uris(&uris), vec!["at://did:plc:a/c/1".to_string(), "at://did:plc:b/c/2".to_string()]);
}

#[test]
fn profiles_align_by_identifier() {
    let dids = vec!["did:plc:a".to_string(), "did:plc:b".to_string(), "did:plc:c".to_string()];
    // answered out of order, one missing
    let got = vec![profile("did:plc:c"), profile("did:plc:a")];
    let r = align_profiles(&dids, &got);
    assert_eq!(r.len(), 3);
    assert_eq!(r[0].as_ref().unwrap().did, "did:plc:a");
    assert!(r[1].is_none());
    assert_eq!(r[2].as_ref().unwrap().did, "did:plc:c");
}

#[test]
fn posts_align_by_uri() {
    let post = Arc::new(BlueskyPost {
        uri: "at://did:plc:a/c/1".to_string(),
        cid: "c".to_string(),
        author: (*profile("did:plc:a")).clone(),
        text: "t".to_string(),
        created_at: "2024-01-01T00:00:00Z".to_string(),
        reply: None,
        facets: None,
        labels: None,
        like_count: Some(3),
        repost_count: None,
        reply_count: None,
    });
    let uris = vec!["at://did:plc:a/c/0".to_string(), "at://did:plc:a/c/1".to_string()];
    let r = align_posts(&uris, &vec![post]);
    assert!(r[0].is_none());
    assert_eq!(r[1].as_ref().unwrap().like_count, Some(3));
}

#[test]
fn store_inserts_are_chunked() {
    assert!(insert_chunks(0).is_empty());
    assert_eq!(insert_chunks(10), vec![(0, 10)]);
    assert_eq!(insert_chunks(83), vec![(0, 83)]);
    assert_eq!(insert_chunks(200), vec![(0, 83), (83, 166), (166, 200)]);
}
