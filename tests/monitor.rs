use jetstream_turbo::monitor::{
    count_increase, hourly_stat, hourly_uptime, ConnectionStatus, StreamClient, StreamId,
    StreamMessage, StreamStatsInternal, UptimeTracker,
};

#[test]
fn counts_and_delta() {
    let mut stats = StreamStatsInternal::new();
    stats.update(StreamMessage { stream_id: StreamId::A, count: 10 });
    stats.update(StreamMessage { stream_id: StreamId::B, count: 25 });
    assert_eq!(stats.count_a, 10);
    assert_eq!(stats.count_b, 25);
    assert_eq!(stats.delta(), -15);
    let h = hourly_stat("2024-01-01T00".to_string(), &stats);
    assert_eq!(h.delta, -15);
    assert_eq!(h.stream_a_count, 10);
}

#[test]
fn count_increase_never_negative() {
    assert_eq!(count_increase(10, 4), 6);
    assert_eq!(count_increase(4, 10), 0);
}

#[test]
fn uptime_in_basis_points() {
    let mut up = UptimeTracker::new();
    assert_eq!(up.get_current_uptime_seconds(0), (0, 0));
    up.handle_connection_status(
        ConnectionStatus { stream_id: StreamId::A, connected: true, connected_at_secs: Some(0), latency_ms: Some(40) },
        0,
    );
    up.handle_connection_status(
        ConnectionStatus { stream_id: StreamId::A, connected: false, connected_at_secs: None, latency_ms: None },
        30,
    );
    // 30 s up, then 10 s down
    assert_eq!(up.get_current_uptime_seconds(40).0, 7500);
    assert_eq!(up.a.disconnect_count, 1);
    up.handle_connection_status(
        ConnectionStatus { stream_id: StreamId::A, connected: true, connected_at_secs: Some(40), latency_ms: Some(60) },
        40,
    );
    assert_eq!(up.get_avg_latency_a(), 50);
    assert_eq!(up.get_avg_latency_b(), 0);
    assert_eq!(up.get_current_streak_a(50), 10);
    assert_eq!(up.get_current_streak_b(50), 0);
    // 40 s up of 50
    assert_eq!(up.get_current_uptime_seconds(50).0, 8000);
    let h = hourly_uptime("h".to_string(), &up, 50);
    assert_eq!(h.stream_a_seconds, 40);
    up.record_message(StreamId::B);
    assert_eq!(up.b.total_messages, 1);
}

#[test]
fn feed_client_defaults() {
    let c = StreamClient::new("wss://example/subscribe".to_string(), StreamId::B);
    assert_eq!(c.reconnect_delay_ms, 5000);
    assert!(c.stream_id == StreamId::B);
}
