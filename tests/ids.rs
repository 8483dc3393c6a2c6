use jetstream_turbo::ids::{
    canonical_uri, extract_did_from_at_uri, is_valid_at_uri, is_valid_did, truncate_with_ellipsis,
};

#[test]
fn test_string_utils() {
    assert_eq!(
        extract_did_from_at_uri("at://did:plc:test/app.bsky.feed.post/abc"),
        Some("did:plc:test")
    );

    assert!(is_valid_did("did:plc:abcdef123456"));
    assert!(!is_valid_did("invalid:did"));

    let truncated = truncate_with_ellipsis("This is a very long string", 10);
    assert_eq!(truncated, "This is...");

    let short = truncate_with_ellipsis("Short", 10);
    assert_eq!(short, "Short");
}

#[test]
fn extract_did_needs_scheme() {
    assert_eq!(extract_did_from_at_uri("did:plc:test/app.bsky.feed.post/abc"), None);
    assert_eq!(extract_did_from_at_uri("at://did:plc:only"), Some("did:plc:only"));
    assert_eq!(extract_did_from_at_uri("at://"), Some(""));
}

#[test]
fn short_plc_did_is_invalid() {
    assert!(!is_valid_did("did:plc:a"));
    assert!(is_valid_did("did:plc:abc"));
}

#[test]
fn truncate_tiny_limits() {
    assert_eq!(truncate_with_ellipsis("abcdef", 2), "...");
    assert_eq!(truncate_with_ellipsis("abcdef", 6), "abcdef");
    assert_eq!(truncate_with_ellipsis("", 0), "");
}

#[test]
fn at_uri_validity() {
    assert!(is_valid_at_uri("at://did:plc:a/c/r"));
    assert!(is_valid_at_uri("at://did:plc:test/app.bsky.feed.post/abc"));
    assert!(!is_valid_at_uri("https://did:plc:a/c/r"));
    assert!(!is_valid_at_uri("at:///c/r"));
    assert!(!is_valid_at_uri("at://did:plc:a//r"));
    assert!(!is_valid_at_uri("at://did:plc:a/c/"));
    assert!(!is_valid_at_uri("at://did:plc:a/c"));
    assert!(!is_valid_at_uri("at://did:plc:a/c/r/x"));
    assert!(!is_valid_at_uri(""));
}

#[test]
fn canonical_uri_is_built() {
    assert_eq!(canonical_uri("did:plc:a", "c", "r"), "at://did:plc:a/c/r");
}
