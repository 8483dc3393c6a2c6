use jetstream_turbo::retry::{
    is_expired_token_body, parse_retry_after, rate_limit_wait, FetchAction, FetchFailure,
    RetryState, UpstreamResponse,
};

#[test]
fn retry_after_two_seconds_waits_two_seconds() {
    let mut s = RetryState::new(3, 100);
    let a = s.on_response(&UpstreamResponse::TooManyRequests { retry_after_secs: parse_retry_after("2") });
    assert!(matches!(a, FetchAction::RetryAfter { wait_ms: 2000 }));
    assert_eq!(s.attempt, 0);
}

#[test]
fn rate_limited_once_then_ok() {
    let mut s = RetryState::new(3, 100);
    let first = s.on_response(&UpstreamResponse::TooManyRequests { retry_after_secs: parse_retry_after("1") });
    assert!(matches!(first, FetchAction::RetryAfter { wait_ms: 1000 }));
    assert!(matches!(s.on_response(&UpstreamResponse::Success), FetchAction::Deliver));
}

#[test]
fn rate_limit_backoff_without_header() {
    assert_eq!(rate_limit_wait(100, 0, None), 100);
    assert_eq!(rate_limit_wait(100, 1, None), 200);
    assert_eq!(rate_limit_wait(100, 2, None), 400);
    assert_eq!(rate_limit_wait(100, 5, None), 3200);
    assert_eq!(rate_limit_wait(100, 9, None), 3200);
    assert_eq!(rate_limit_wait(u64::MAX, 1, None), u64::MAX);
}

#[test]
fn expired_token_refreshes_then_retries() {
    let body = "{\"error\":\"ExpiredToken\",\"message\":\"Token has expired\"}";
    assert!(is_expired_token_body(body));
    let mut s = RetryState::new(3, 100);
    let a = s.on_response(&UpstreamResponse::BadRequest { expired: is_expired_token_body(body) });
    assert!(matches!(a, FetchAction::Refresh));
    assert!(matches!(s.after_refresh(false, true), FetchAction::RetryNow));
    assert_eq!(s.attempt, 1);
    assert!(matches!(s.on_response(&UpstreamResponse::Success), FetchAction::Deliver));
}

#[test]
fn other_bad_request_fails() {
    assert!(!is_expired_token_body("{\"error\":\"InvalidRequest\"}"));
    let mut s = RetryState::new(3, 100);
    let a = s.on_response(&UpstreamResponse::BadRequest { expired: false });
    assert!(matches!(a, FetchAction::Fail { failure: FetchFailure::InvalidResponse { status: 400 } }));
}

#[test]
fn unauthorized_after_retries_is_denied() {
    let mut s = RetryState::new(1, 100);
    assert!(matches!(s.on_response(&UpstreamResponse::Unauthorized), FetchAction::Refresh));
    assert!(matches!(s.after_refresh(true, true), FetchAction::RetryNow));
    assert!(matches!(s.on_response(&UpstreamResponse::Unauthorized), FetchAction::Refresh));
    assert!(matches!(s.after_refresh(true, true), FetchAction::Fail { failure: FetchFailure::PermissionDenied }));
}

#[test]
fn failed_refresh_ends_request() {
    let mut s = RetryState::new(3, 100);
    s.on_response(&UpstreamResponse::Unauthorized);
    assert!(matches!(s.after_refresh(true, false), FetchAction::Fail { failure: FetchFailure::RefreshFailed }));
}

#[test]
fn network_errors_back_off_linearly_then_fail() {
    let mut s = RetryState::new(3, 100);
    assert!(matches!(s.on_response(&UpstreamResponse::NetworkError), FetchAction::RetryAfter { wait_ms: 100 }));
    assert!(matches!(s.on_response(&UpstreamResponse::NetworkError), FetchAction::RetryAfter { wait_ms: 200 }));
    assert!(matches!(s.on_response(&UpstreamResponse::NetworkError), FetchAction::RetryAfter { wait_ms: 300 }));
    assert!(matches!(s.on_response(&UpstreamResponse::NetworkError), FetchAction::Fail { failure: FetchFailure::Transport }));
}

#[test]
fn server_error_is_surfaced() {
    let mut s = RetryState::new(3, 100);
    let a = s.on_response(&UpstreamResponse::OtherStatus { status: 503 });
    assert!(matches!(a, FetchAction::Fail { failure: FetchFailure::InvalidResponse { status: 503 } }));
}

#[test]
fn retry_after_parsing() {
    assert_eq!(parse_retry_after("2"), Some(2));
    assert_eq!(parse_retry_after("+7"), Some(7));
    assert_eq!(parse_retry_after("120"), Some(120));
    assert_eq!(parse_retry_after("18446744073709551615"), Some(u64::MAX));
    assert_eq!(parse_retry_after("18446744073709551616"), None);
    assert_eq!(parse_retry_after(""), None);
    assert_eq!(parse_retry_after("+"), None);
    assert_eq!(parse_retry_after("1.5"), None);
    assert_eq!(parse_retry_after("Wed, 21 Oct 2015 07:28:00 GMT"), None);
}

#[test]
fn consecutive_rate_limits_double_the_backoff() {
    let mut s = RetryState::new(3, 100);
    let waits: Vec<u64> = (0..7)
        .map(|_| match s.on_response(&UpstreamResponse::TooManyRequests { retry_after_secs: None }) {
            FetchAction::RetryAfter { wait_ms } => wait_ms,
            _ => panic!("expected a wait"),
        })
        .collect();
    assert_eq!(waits, vec![100, 200, 400, 800, 1600, 3200, 3200]);
    assert!(matches!(s.on_response(&UpstreamResponse::Success), FetchAction::Deliver));
    assert_eq!(s.throttled, 0);
}
