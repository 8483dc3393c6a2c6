use jetstream_turbo::config::{
    default_bind, default_database, default_stream_a_name, default_stream_b_name, Settings,
};
use jetstream_turbo::errors::TurboError;

#[test]
fn test_default_settings() {
    let settings = Settings::default();
    assert!(!settings.jetstream_hosts.is_empty());
    assert_eq!(settings.wanted_collections, "app.bsky.feed.post");
    assert_eq!(settings.batch_size, 10);
}

#[test]
fn test_validation_missing_required_fields() {
    let mut settings = Settings::default();
    settings.stream_name = "".to_string();

    assert!(settings.validate().is_err());

    settings.stream_name = "test".to_string();
    settings.bluesky_handle = "".to_string();

    assert!(settings.validate().is_err());

    settings.bluesky_handle = "test.bsky.social".to_string();
    settings.bluesky_app_password = "".to_string();

    assert!(settings.validate().is_err());
}

#[test]
fn complete_settings_validate() {
    let mut settings = Settings::default();
    settings.stream_name = "test".to_string();
    settings.bluesky_handle = "test.bsky.social".to_string();
    settings.bluesky_app_password = "pw".to_string();
    assert!(settings.validate().is_ok());
    settings.batch_size = 0;
    assert!(matches!(settings.validate(), Err(TurboError::Configuration(_))));
    settings.batch_size = 10;
    settings.max_concurrent_requests = 0;
    assert!(matches!(settings.validate(), Err(TurboError::Configuration(_))));
}

#[test]
fn monitor_defaults() {
    assert_eq!(default_stream_a_name(), "Stream A");
    assert_eq!(default_stream_b_name(), "Stream B");
    assert_eq!(default_bind(), "0.0.0.0:3001");
    assert_eq!(default_database(), "sqlite://monitor.db?mode=rwc");
}
