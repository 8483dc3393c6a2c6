use std::sync::Arc;

use jetstream_turbo::models::{
    BlueskyProfile, CommitData, EnrichedRecord, Facet, FacetFeature, FacetIndex, HydratedMetadata,
    JetstreamMessage, Operation, Record, RecordRef, ReplyRef,
};

fn record(uri: &str, text: Option<&str>) -> Record {
    Record {
        uri: uri.to_string(),
        cid: "bafyrei".to_string(),
        author: "did:plc:test".to_string(),
        record_type: "app.bsky.feed.post".to_string(),
        created_at: "2022-01-01T00:00:00.000Z".to_string(),
        text: text.map(|t| t.to_string()),
        embed_record_uri: None,
        labels: None,
        langs: None,
        reply: None,
        tags: None,
        facets: None,
    }
}

fn message(record: Record) -> JetstreamMessage {
    JetstreamMessage {
        did: "did:plc:test".to_string(),
        seq: 12345,
        time_us: 1640995200000000,
        commit: CommitData {
            seq: 12345,
            rebase: false,
            time_us: 1640995200000000,
            operation: Operation::Create { record },
        },
    }
}

#[test]
fn test_enriched_record_creation() {
    let message = message(record("at://did:plc:test/app.bsky.feed.post/test", Some("Hello world")));
    let enriched = EnrichedRecord::new(message, "2022-01-01T00:00:00Z".to_string());
    assert_eq!(enriched.get_did(), "did:plc:test");
    assert_eq!(enriched.get_text(), Some("Hello world"));
}

#[test]
fn test_cache_hit_rate_calculation() {
    let mut enriched = EnrichedRecord::new(
        message(record("at://did:plc:test/app.bsky.feed.post/test", Some("Hello"))),
        "2022-01-01T00:00:00Z".to_string(),
    );

    enriched.metrics.cache_hits = 8;
    enriched.metrics.cache_misses = 2;
    enriched.calculate_cache_hit_rate();

    // 0.8 in basis points
    assert_eq!(enriched.metrics.cache_hit_rate_bp, 8000);
}

#[test]
fn test_extract_at_uri() {
    let message = message(record("at://did:plc:test/app.bsky.feed.post/test", None));
    assert_eq!(message.extract_at_uri(), Some("at://did:plc:test/app.bsky.feed.post/test"));
}

#[test]
fn delete_has_no_uri() {
    let mut m = message(record("at://did:plc:test/app.bsky.feed.post/test", None));
    m.commit.operation = Operation::Delete;
    assert_eq!(m.extract_at_uri(), None);
    assert!(!m.is_create_operation());
    assert!(m.extract_mentioned_dids().is_empty());
    assert!(m.extract_post_uris().is_empty());
}

fn mention(did: Option<&str>) -> FacetFeature {
    FacetFeature {
        feature_type: "app.bsky.richtext.facet#mention".to_string(),
        uri: String::new(),
        did: did.map(|d| d.to_string()),
    }
}

#[test]
fn referenced_identifiers_are_collected_once() {
    let mut r = record("at://did:plc:test/app.bsky.feed.post/x", Some("hi"));
    r.reply = Some(ReplyRef {
        root: RecordRef { uri: "at://did:plc:root/app.bsky.feed.post/1".to_string(), cid: "c1".to_string() },
        parent: RecordRef { uri: "at://did:plc:root/app.bsky.feed.post/2".to_string(), cid: "c2".to_string() },
        gate: None,
    });
    r.facets = Some(vec![Facet {
        index: FacetIndex { byte_start: 0, byte_end: 2 },
        features: vec![mention(Some("did:plc:friend")), mention(Some("did:web:other")), mention(None)],
    }]);
    r.embed_record_uri = Some("at://did:plc:quoted/app.bsky.feed.post/3".to_string());
    let m = message(r);
    assert!(m.is_create_operation());
    assert_eq!(
        m.extract_mentioned_dids(),
        vec!["did:plc:root".to_string(), "did:plc:quoted".to_string(), "did:plc:friend".to_string()]
    );
    assert_eq!(
        m.extract_post_uris(),
        vec![
            "at://did:plc:root/app.bsky.feed.post/1".to_string(),
            "at://did:plc:root/app.bsky.feed.post/2".to_string(),
            "at://did:plc:quoted/app.bsky.feed.post/3".to_string(),
        ]
    );
}

fn profile(did: &str) -> Arc<BlueskyProfile> {
    Arc::new(BlueskyProfile {
        did: did.to_string(),
        handle: "h".to_string(),
        display_name: None,
        description: None,
        avatar: None,
        banner: None,
        followers_count: None,
        follows_count: None,
        posts_count: None,
        indexed_at: None,
        created_at: None,
        labels: None,
    })
}

#[test]
fn mentioned_profiles_are_unique_by_identifier() {
    let mut meta = HydratedMetadata::new();
    meta.add_mentioned_profile(profile("did:plc:a"));
    meta.add_mentioned_profile(profile("did:plc:a"));
    meta.add_mentioned_profile(profile("did:plc:b"));
    assert_eq!(meta.mentioned_profiles.len(), 2);
}

#[test]
fn content_features_from_facets() {
    let mut meta = HydratedMetadata::new();
    let text = "#Rust and more";
    let facets = Some(vec![Facet {
        index: FacetIndex { byte_start: 0, byte_end: 5 },
        features: vec![
            FacetFeature { feature_type: "app.bsky.richtext.facet#tag".to_string(), uri: String::new(), did: None },
            FacetFeature { feature_type: "app.bsky.richtext.facet#link".to_string(), uri: "https://example.com".to_string(), did: None },
            mention(Some("did:plc:x")),
        ],
    }]);
    meta.extract_content_features(text, &facets);
    assert_eq!(meta.hashtags, vec!["rust".to_string()]);
    assert_eq!(meta.urls, vec!["s://example.com".to_string()]);
    assert_eq!(meta.mentions.len(), 1);
    assert_eq!(meta.mentions[0].did, "did:plc:x");
    assert_eq!(meta.mentions[0].end_byte, 5);
}
