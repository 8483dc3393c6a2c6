//! Plain records exchanged with the session endpoint, the credential
//! service and the admin endpoints.

use vstd::prelude::*;

verus! {

/// The session endpoint's answer to a sign-in or a refresh.
pub struct AuthResponse {
    pub access_jwt: String,
    pub refresh_jwt: String,
    pub handle: String,
    pub did: String,
    pub email: Option<String>,
    pub email_confirmed: Option<bool>,
    pub expires_at: Option<String>,
}

/// A session credential handed out by the credential service.
pub struct Credential {
    pub session_string: String,
    pub created_at: String,
    pub expires_at: Option<String>,
    pub domain: String,
}

pub struct HealthStatus {
    pub healthy: bool,
    pub redis_connected: bool,
    pub sqlite_available: bool,
    pub session_count: usize,
}

/// The service is healthy when the published stream answers.
pub fn health_status(redis_connected: bool, sqlite_available: bool, session_count: usize) -> (r: HealthStatus)
    ensures
        r.healthy == redis_connected,
        r.redis_connected == redis_connected,
        r.sqlite_available == sqlite_available,
        r.session_count == session_count,
{
    HealthStatus {
        healthy: redis_connected,
        redis_connected,
        sqlite_available,
        session_count,
    }
}

pub struct StatsQuery {
    pub detailed: Option<bool>,
}

pub struct HealthResponse {
    pub status: String,
    pub data: HealthStatus,
}

pub struct ErrorResponse {
    pub status: String,
    pub error: String,
}

} // verus!
