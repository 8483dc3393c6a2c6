use jetstream_turbo::metrics::{Metrics, OperationTimer};

#[test]
fn test_metrics_creation() {
    let mut metrics = Metrics::new();

    metrics.record_message_processed();
    metrics.record_message_failed();
    metrics.set_cache_hit_rate(8500);
    metrics.set_active_connections(5);
    metrics.record_api_call();

    let output = metrics.get_prometheus_metrics();
    assert!(output.contains("jetstream_turbo_messages_processed_total"));
    assert!(output.contains("jetstream_turbo_cache_hit_rate"));
}

#[test]
fn test_operation_timer() {
    let mut metrics = Metrics::new();
    let timer = OperationTimer::new(1000);
    timer.finish(&mut metrics, 1010);
    assert_eq!(metrics.hydration_count, 1);
    assert_eq!(metrics.hydration_ms_total, 10);
}

#[test]
fn exposition_holds_counter_values() {
    let mut metrics = Metrics::new();
    metrics.record_message_processed();
    metrics.record_message_processed();
    metrics.record_api_call();
    let output = metrics.get_prometheus_metrics();
    assert!(output.contains("jetstream_turbo_messages_processed_total 2\n"));
    assert!(output.contains("jetstream_turbo_api_calls_total 1\n"));
    assert!(output.contains("jetstream_turbo_messages_failed_total 0\n"));
}
