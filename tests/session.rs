use jetstream_turbo::errors::TurboError;
use jetstream_turbo::session::{
    authenticate_step, credentials_valid, AuthReply, AuthStep,
    refresh_due, renew_after_authenticate, renew_after_refresh, renew_start, RefreshGate,
    RefreshOutcome, RefreshTicket, RenewStep, SessionStore,
};

#[test]
fn refresh_due_within_an_hour() {
    assert!(refresh_due(None, 0));
    assert!(refresh_due(Some(1000 + 3599), 1000));
    assert!(!refresh_due(Some(1000 + 3600), 1000));
    assert!(refresh_due(Some(10), 1000));
}

#[test]
fn should_refresh_reads_rfc3339_expiry() {
    let mut s = SessionStore::new(vec!["tok".to_string()], None, None);
    assert!(s.should_refresh(0));
    // 2024-01-01T00:00:00Z is 1704067200
    s.refresh_sessions(vec!["tok2".to_string()], Some("r".to_string()), Some("2024-01-01T00:00:00Z".to_string()));
    assert!(!s.should_refresh(1704067200 - 7200));
    assert!(s.should_refresh(1704067200 - 1800));
    s.refresh_sessions(vec!["tok3".to_string()], None, Some("not a date".to_string()));
    assert!(s.should_refresh(0));
    assert_eq!(s.refresh_jwt, Some("r".to_string()));
}

#[test]
fn session_string_is_first_token() {
    let s = SessionStore::new(vec!["a".to_string(), "b".to_string()], None, None);
    assert_eq!(s.get_session_string().ok().unwrap(), "a");
    assert_eq!(s.get_session_count(), 2);
    let empty = SessionStore::new(vec![], None, None);
    assert!(matches!(empty.get_session_string(), Err(TurboError::PermissionDenied(_))));
}

#[test]
fn renewal_order() {
    assert!(matches!(renew_start(true, true), RenewStep::UseRefreshToken));
    assert!(matches!(renew_start(true, false), RenewStep::Authenticate));
    assert!(matches!(renew_start(false, true), RenewStep::Fail));
    assert!(matches!(renew_after_refresh(RefreshOutcome::Refreshed), RenewStep::Done));
    assert!(matches!(renew_after_refresh(RefreshOutcome::Expired), RenewStep::Authenticate));
    assert!(matches!(renew_after_refresh(RefreshOutcome::Failed), RenewStep::Fail));
    assert!(matches!(renew_after_authenticate(true), RenewStep::Done));
    assert!(matches!(renew_after_authenticate(false), RenewStep::Fail));
}

#[test]
fn one_refresh_for_concurrent_unauthorized_callers() {
    let mut gate = RefreshGate::new();
    let seen = gate.generation;
    let mut leaders = 0;
    for _ in 0..5 {
        if let RefreshTicket::Lead = gate.begin(seen) {
            leaders += 1;
        }
    }
    assert_eq!(leaders, 1);
    gate.finish();
    // callers that saw the old token read the new one instead of refreshing
    assert!(matches!(gate.begin(seen), RefreshTicket::Reread));
    assert!(matches!(gate.begin(gate.generation), RefreshTicket::Lead));
}

#[test]
fn sign_in_decisions() {
    let mut attempt = 0;
    assert!(matches!(authenticate_step(&mut attempt, 3, 100, AuthReply::Accepted { has_access_token: true }), AuthStep::Accept));
    assert!(matches!(
        authenticate_step(&mut attempt, 3, 100, AuthReply::Accepted { has_access_token: false }),
        AuthStep::Fail { error: TurboError::InvalidApiResponse(_) }
    ));
    assert!(matches!(
        authenticate_step(&mut attempt, 3, 100, AuthReply::Unauthorized),
        AuthStep::Fail { error: TurboError::PermissionDenied(_) }
    ));
    assert!(matches!(authenticate_step(&mut attempt, 3, 100, AuthReply::NetworkError), AuthStep::RetryAfter { wait_ms: 100 }));
    assert!(matches!(authenticate_step(&mut attempt, 3, 100, AuthReply::TooManyRequests), AuthStep::RetryAfter { wait_ms: 400 }));
    assert_eq!(attempt, 2);
    assert!(matches!(credentials_valid(Ok(())), Ok(true)));
    assert!(matches!(credentials_valid(Err(TurboError::PermissionDenied("x".to_string()))), Ok(false)));
    assert!(matches!(credentials_valid(Err(TurboError::Timeout)), Err(TurboError::Timeout)));
}
