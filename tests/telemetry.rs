use jetstream_turbo::errors::TurboError;
use jetstream_turbo::telemetry::{capture_error, error_type_name, mask_api_key, TelemetryBuffer};

#[test]
fn test_error_type_name() {
    let error = TurboError::RateLimitExceeded;
    assert_eq!(error_type_name(&error), "RateLimitExceeded");

    let error = TurboError::InvalidApiResponse("test error".to_string());
    assert_eq!(error_type_name(&error), "InvalidApiResponse");

    let error = TurboError::Internal("test internal".to_string());
    assert_eq!(error_type_name(&error), "Internal");
}

#[test]
fn error_attributes() {
    assert!(TurboError::Timeout.is_retryable());
    assert!(TurboError::HttpRequest("x".to_string()).is_retryable());
    assert!(!TurboError::InvalidMessage("x".to_string()).is_retryable());
    assert!(TurboError::PermissionDenied("x".to_string()).is_critical());
    assert!(TurboError::MissingEnvVar("x".to_string()).is_critical());
    assert!(!TurboError::Timeout.is_critical());
}

#[test]
fn captured_event_is_tagged() {
    let e = capture_error(&TurboError::Database("locked".to_string()), "db".to_string(), vec![]);
    assert_eq!(e.error_type, "Database");
    assert!(e.is_retryable);
    assert!(!e.is_critical);
}

#[test]
fn api_keys_are_masked() {
    assert_eq!(mask_api_key("short"), "****");
    assert_eq!(mask_api_key("12345678"), "****");
    assert_eq!(mask_api_key("phc_abcdefghijk"), "phc_...hijk");
}

#[test]
fn telemetry_batches_of_fifty() {
    let mut buf = TelemetryBuffer::new();
    for i in 0..49 {
        let e = capture_error(&TurboError::Timeout, format!("{}", i), vec![]);
        assert!(buf.push(e).is_none());
    }
    let batch = buf.push(capture_error(&TurboError::Timeout, "last".to_string(), vec![])).unwrap();
    assert_eq!(batch.len(), 50);
    assert!(buf.on_tick().is_none());
    buf.push(capture_error(&TurboError::Timeout, "one".to_string(), vec![]));
    assert_eq!(buf.on_tick().unwrap().len(), 1);
}
