use jetstream_turbo::errors::TurboError;
use jetstream_turbo::models::{CommitData, JetstreamMessage, Operation};
use jetstream_turbo::stream::{
    validate_message, ConnectEvent, JetstreamClient, ReconnectState, StreamStep,
};

#[test]
fn test_jetstream_client_creation() {
    let endpoints = vec![
        "jetstream1.us-east.bsky.network".to_string(),
        "jetstream2.us-east.bsky.network".to_string(),
    ];

    let client = JetstreamClient::new(endpoints.clone(), "app.bsky.feed.post".to_string());
    assert_eq!(client.endpoints, endpoints);
    assert_eq!(client.wanted_collections, "app.bsky.feed.post");
}

#[test]
fn test_jetstream_client_with_defaults() {
    let endpoints = vec!["jetstream1.us-east.bsky.network".to_string()];
    let client = JetstreamClient::with_defaults(endpoints);
    assert_eq!(client.wanted_collections, "app.bsky.feed.post");
}

#[test]
fn subscribe_url_names_collection() {
    let client = JetstreamClient::with_defaults(vec!["test.bsky.network".to_string()]);
    assert_eq!(
        client.subscribe_url(0),
        "wss://test.bsky.network/subscribe?wantedCollections=app.bsky.feed.post"
    );
}

#[test]
fn single_endpoint_reconnects_after_long_delay() {
    let client = JetstreamClient::with_defaults(vec!["a".to_string()]);
    let mut state = ReconnectState { current_endpoint: 0, attempts: 0 };
    assert!(matches!(client.next_step(&mut state, ConnectEvent::Connected), StreamStep::Read));
    match client.next_step(&mut state, ConnectEvent::Closed) {
        StreamStep::Reconnect { endpoint, delay_ms } => {
            assert_eq!(endpoint, 0);
            assert_eq!(delay_ms, 5000);
        }
        _ => panic!("expected a reconnect"),
    }
}

#[test]
fn several_endpoints_rotate_with_short_delay() {
    let client = JetstreamClient::with_defaults(vec!["a".to_string(), "b".to_string(), "c".to_string()]);
    let mut state = ReconnectState { current_endpoint: 0, attempts: 0 };
    match client.next_step(&mut state, ConnectEvent::ConnectFailed) {
        StreamStep::Reconnect { endpoint, delay_ms } => {
            assert_eq!(endpoint, 1);
            assert_eq!(delay_ms, 1000);
        }
        _ => panic!("expected a reconnect"),
    }
    assert_eq!(state.attempts, 1);
}

#[test]
fn full_round_falls_back_to_long_delay() {
    let client = JetstreamClient::with_defaults(vec!["a".to_string(), "b".to_string(), "c".to_string()]);
    let mut state = ReconnectState { current_endpoint: 2, attempts: 0 };
    match client.next_step(&mut state, ConnectEvent::Closed) {
        StreamStep::Reconnect { endpoint, delay_ms } => {
            assert_eq!(endpoint, 0);
            assert_eq!(delay_ms, 5000);
        }
        _ => panic!("expected a reconnect"),
    }
}

#[test]
fn gives_up_after_ten_failed_connects() {
    let client = JetstreamClient::with_defaults(vec!["a".to_string()]);
    let mut state = ReconnectState { current_endpoint: 0, attempts: 0 };
    for _ in 0..9 {
        assert!(matches!(
            client.next_step(&mut state, ConnectEvent::ConnectFailed),
            StreamStep::Reconnect { .. }
        ));
    }
    assert!(matches!(client.next_step(&mut state, ConnectEvent::ConnectFailed), StreamStep::GiveUp));
}

#[test]
fn successful_connect_resets_failures() {
    let client = JetstreamClient::with_defaults(vec!["a".to_string()]);
    let mut state = ReconnectState { current_endpoint: 0, attempts: 0 };
    for _ in 0..5 {
        client.next_step(&mut state, ConnectEvent::ConnectFailed);
    }
    client.next_step(&mut state, ConnectEvent::Connected);
    assert_eq!(state.attempts, 0);
}

fn delete_event(did: &str, seq: u64) -> JetstreamMessage {
    JetstreamMessage {
        did: did.to_string(),
        seq,
        time_us: 1640995200000000,
        commit: CommitData { seq, rebase: false, time_us: 1640995200000000, operation: Operation::Delete },
    }
}

#[test]
fn empty_actor_is_refused() {
    let r = validate_message(delete_event("", 12345));
    assert!(matches!(r, Err(TurboError::InvalidMessage(_))));
    let ok = validate_message(delete_event("did:plc:test", 12345)).ok().unwrap();
    assert_eq!(ok.did, "did:plc:test");
    assert_eq!(ok.seq, 12345);
}
