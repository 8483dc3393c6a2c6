//! The lookup client's session: the current tokens and their expiry, when
//! to refresh, the order of refresh and re-authentication, and the latch
//! that lets only one refresh run at a time.

use vstd::prelude::*;
use crate::errors::TurboError;

verus! {

/// Refresh when the session expires within this many seconds.
pub const REFRESH_MARGIN_SECS: i64 = 3600;

/// The instant an RFC 3339 timestamp denotes, as Unix seconds, when it parses.
pub uninterp spec fn rfc3339_epoch_secs(s: Seq<char>) -> Option<i64>;

/// Relies on chrono's `DateTime::parse_from_rfc3339` and `timestamp`: the
/// instant of a well-formed RFC 3339 text, in whole Unix seconds.
#[verifier::external_body]
fn parse_rfc3339_secs(s: &str) -> (r: Option<i64>)
    ensures
        r == rfc3339_epoch_secs(s@),
{
    chrono::DateTime::parse_from_rfc3339(s).ok().map(|d| d.timestamp())
}

/// Whether a session expiring at `expiry_secs` (unknown: `None`) should be
/// refreshed at `now_secs`: when no expiry is known or it is less than an
/// hour away.
pub open spec fn refresh_due_spec(expiry_secs: Option<i64>, now_secs: i64) -> bool {
    match expiry_secs {
        None => true,
        Some(t) => (t as int - now_secs as int) < (REFRESH_MARGIN_SECS as int),
    }
}

pub fn refresh_due(expiry_secs: Option<i64>, now_secs: i64) -> (r: bool)
    ensures
        r == refresh_due_spec(expiry_secs, now_secs),
{
    match expiry_secs {
        None => true,
        Some(t) => (t as i128) - (now_secs as i128) < REFRESH_MARGIN_SECS as i128,
    }
}

/// The tokens the client sends and renews.
pub struct SessionStore {
    pub session_strings: Vec<String>,
    pub refresh_jwt: Option<String>,
    pub expires_at: Option<String>,
}

impl SessionStore {
    pub fn new(session_strings: Vec<String>, refresh_jwt: Option<String>, expires_at: Option<String>) -> (r: SessionStore)
        ensures
            r.session_strings == session_strings,
            r.refresh_jwt == refresh_jwt,
            r.expires_at == expires_at,
    {
        SessionStore { session_strings, refresh_jwt, expires_at }
    }

    /// Replaces the access tokens; a refresh token or expiry that is given
    /// replaces the held one, one that is not keeps it.
    pub fn refresh_sessions(&mut self, new_sessions: Vec<String>, new_refresh_jwt: Option<String>, new_expires_at: Option<String>)
        ensures
            final(self).session_strings == new_sessions,
            final(self).refresh_jwt == if new_refresh_jwt is Some { new_refresh_jwt } else { old(self).refresh_jwt },
            final(self).expires_at == if new_expires_at is Some { new_expires_at } else { old(self).expires_at },
    {
        self.session_strings = new_sessions;
        if new_refresh_jwt.is_some() {
            self.refresh_jwt = new_refresh_jwt;
        }
        if new_expires_at.is_some() {
            self.expires_at = new_expires_at;
        }
    }

    /// Whether the session should be refreshed at `now_secs`: when no expiry
    /// is known, when it does not parse, or when it is less than an hour away.
    pub fn should_refresh(&self, now_secs: i64) -> (r: bool)
        ensures
            r == match self.expires_at {
                None => true,
                Some(s) => refresh_due_spec(rfc3339_epoch_secs(s@), now_secs),
            },
    {
        match &self.expires_at {
            None => true,
            Some(s) => refresh_due(parse_rfc3339_secs(s.as_str()), now_secs),
        }
    }

    pub fn get_refresh_jwt(&self) -> (r: Option<&String>)
        ensures
            r matches Some(t) ==> self.refresh_jwt == Some(*t),
            r is None <==> self.refresh_jwt is None,
    {
        match &self.refresh_jwt {
            Some(t) => Some(t),
            None => None,
        }
    }

    /// The token to send: the first session string.
    pub fn get_session_string(&self) -> (r: Result<&String, TurboError>)
        ensures
            self.session_strings@.len() > 0 ==> (r matches Ok(t) && *t == self.session_strings@[0]),
            self.session_strings@.len() == 0 ==> r matches Err(TurboError::PermissionDenied(_)),
    {
        if self.session_strings.len() == 0 {
            Err(TurboError::PermissionDenied(String::from_str("No valid session strings available")))
        } else {
            Ok(&self.session_strings[0])
        }
    }

    pub fn get_session_count(&self) -> (r: usize)
        ensures
            r == self.session_strings@.len(),
    {
        self.session_strings.len()
    }
}

/// How a refresh attempt with the refresh token ended.
pub enum RefreshOutcome {
    Refreshed,
    /// The refresh token itself has expired.
    Expired,
    Failed,
}

/// What the client does next while renewing its session.
pub enum RenewStep {
    /// Ask the server for new tokens with the refresh token.
    UseRefreshToken,
    /// Sign in again with the credentials.
    Authenticate,
    /// New tokens are in place.
    Done,
    /// Renewal failed.
    Fail,
}

/// The first step: use the refresh token when one is held and credentials
/// are configured; without credentials renewal cannot happen.
pub fn renew_start(has_credentials: bool, has_refresh_token: bool) -> (r: RenewStep)
    ensures
        !has_credentials ==> r is Fail,
        has_credentials && has_refresh_token ==> r is UseRefreshToken,
        has_credentials && !has_refresh_token ==> r is Authenticate,
{
    if !has_credentials {
        RenewStep::Fail
    } else if has_refresh_token {
        RenewStep::UseRefreshToken
    } else {
        RenewStep::Authenticate
    }
}

/// After a refresh: done, or fall back to signing in when the refresh token
/// expired; any other failure ends renewal.
pub fn renew_after_refresh(outcome: RefreshOutcome) -> (r: RenewStep)
    ensures
        outcome is Refreshed ==> r is Done,
        outcome is Expired ==> r is Authenticate,
        outcome is Failed ==> r is Fail,
{
    match outcome {
        RefreshOutcome::Refreshed => RenewStep::Done,
        RefreshOutcome::Expired => RenewStep::Authenticate,
        RefreshOutcome::Failed => RenewStep::Fail,
    }
}

/// After signing in again.
pub fn renew_after_authenticate(ok: bool) -> (r: RenewStep)
    ensures
        ok ==> r is Done,
        !ok ==> r is Fail,
{
    if ok { RenewStep::Done } else { RenewStep::Fail }
}

/// What a caller that found its token rejected should do.
pub enum RefreshTicket {
    /// Run the refresh, then call `finish`.
    Lead,
    /// Another caller is refreshing: wait for it, then read the token again.
    Wait,
    /// A refresh finished since the caller read its token: read it again.
    Reread,
}

/// Serializes session refresh across the callers of one client: at most
/// one refresh runs at a time, and callers that saw a stale token do not
/// start another once a refresh has completed.
pub struct RefreshGate {
    pub in_flight: bool,
    /// Completed refreshes; a caller notes it when it reads the token.
    pub generation: u64,
}

impl RefreshGate {
    pub fn new() -> (r: RefreshGate)
        ensures
            !r.in_flight,
            r.generation == 0,
    {
        RefreshGate { in_flight: false, generation: 0 }
    }

    /// The state and answer of `begin` on this state.
    pub open spec fn after_begin(self, seen_generation: u64) -> (RefreshGate, RefreshTicket) {
        if seen_generation < self.generation {
            (self, RefreshTicket::Reread)
        } else if self.in_flight {
            (self, RefreshTicket::Wait)
        } else {
            (RefreshGate { in_flight: true, generation: self.generation }, RefreshTicket::Lead)
        }
    }

    /// Called by a caller whose token, read at `seen_generation`, was rejected.
    pub fn begin(&mut self, seen_generation: u64) -> (r: RefreshTicket)
        ensures
            (*final(self), r) == old(self).after_begin(seen_generation),
    {
        if seen_generation < self.generation {
            RefreshTicket::Reread
        } else if self.in_flight {
            RefreshTicket::Wait
        } else {
            self.in_flight = true;
            RefreshTicket::Lead
        }
    }

    /// Called by the leader when its refresh has ended, successfully or not.
    pub fn finish(&mut self)
        ensures
            !final(self).in_flight,
            final(self).generation == if old(self).generation < u64::MAX { old(self).generation + 1 } else { old(self).generation as int },
    {
        self.in_flight = false;
        if self.generation < u64::MAX {
            self.generation = self.generation + 1;
        }
    }
}

/// The state after callers call `begin` in turn with the counts in `seen`,
/// with no `finish` between.
pub open spec fn gate_after(g: RefreshGate, seen: Seq<u64>) -> RefreshGate
    decreases seen.len(),
{
    if seen.len() == 0 { g } else { gate_after(g, seen.drop_last()).after_begin(seen.last()).0 }
}

/// How many of those callers were told to lead a refresh.
pub open spec fn leads(g: RefreshGate, seen: Seq<u64>) -> nat
    decreases seen.len(),
{
    if seen.len() == 0 {
        0
    } else {
        leads(g, seen.drop_last()) + if gate_after(g, seen.drop_last()).after_begin(seen.last()).1 is Lead { 1nat } else { 0nat }
    }
}

/// However many callers ask to refresh while no refresh finishes, at most
/// one of them leads, and none does while a refresh is already running.
pub proof fn lemma_single_refresh(g: RefreshGate, seen: Seq<u64>)
    ensures
        leads(g, seen) <= 1,
        g.in_flight ==> leads(g, seen) == 0,
        leads(g, seen) == 1 ==> gate_after(g, seen).in_flight,
        gate_after(g, seen).generation == g.generation,
        g.in_flight ==> gate_after(g, seen).in_flight,
    decreases seen.len(),
{
    if seen.len() > 0 {
        lemma_single_refresh(g, seen.drop_last());
    }
}

/// How a sign-in request ended, as the client classifies it.
pub enum AuthReply {
    /// Status 200; `has_access_token` tells whether the answer carries one.
    Accepted { has_access_token: bool },
    Unauthorized,
    TooManyRequests,
    OtherStatus { status: u16 },
    NetworkError,
}

/// What the sign-in loop does next.
pub enum AuthStep {
    Accept,
    /// Sleep this many milliseconds, then sign in again.
    RetryAfter { wait_ms: u64 },
    Fail { error: TurboError },
}

/// The sign-in decision after `reply` on attempt `*attempt`: a 401 means
/// wrong credentials; a 429 waits twice the base delay plus the attempt's
/// delay and tries again; network errors retry with a linearly growing
/// delay until `max_retries`; any other status fails.
pub fn authenticate_step(attempt: &mut u32, max_retries: u32, base_delay_ms: u64, reply: AuthReply) -> (r: AuthStep)
    ensures
        reply matches AuthReply::Accepted { has_access_token } ==> (if has_access_token {
            r is Accept
        } else {
            r matches AuthStep::Fail { error: TurboError::InvalidApiResponse(_) }
        }) && *final(attempt) == *old(attempt),
        reply is Unauthorized ==> (r matches AuthStep::Fail { error: TurboError::PermissionDenied(_) })
            && *final(attempt) == *old(attempt),
        reply is OtherStatus ==> (r matches AuthStep::Fail { error: TurboError::InvalidApiResponse(_) })
            && *final(attempt) == *old(attempt),
        reply is NetworkError && *old(attempt) >= max_retries ==> (r matches AuthStep::Fail { error: TurboError::HttpRequest(_) })
            && *final(attempt) == *old(attempt),
        reply is NetworkError && *old(attempt) < max_retries ==> *final(attempt) == *old(attempt) + 1
            && r == (AuthStep::RetryAfter { wait_ms: crate::retry::min_nat(base_delay_ms as nat * (*final(attempt)) as nat, u64::MAX as nat) as u64 }),
        reply is TooManyRequests ==> *final(attempt) == (if *old(attempt) < u32::MAX { *old(attempt) + 1 } else { *old(attempt) as int })
            && r == (AuthStep::RetryAfter { wait_ms: crate::retry::min_nat(
                crate::retry::min_nat(base_delay_ms as nat * 2, u64::MAX as nat)
                + (if *final(attempt) <= max_retries { crate::retry::min_nat(base_delay_ms as nat * (*final(attempt)) as nat, u64::MAX as nat) } else { 0 }),
                u64::MAX as nat) as u64 }),
{
    match reply {
        AuthReply::Accepted { has_access_token } => {
            if has_access_token {
                AuthStep::Accept
            } else {
                AuthStep::Fail { error: TurboError::InvalidApiResponse(String::from_str("Auth response missing access_jwt field")) }
            }
        },
        AuthReply::Unauthorized => AuthStep::Fail {
            error: TurboError::PermissionDenied(String::from_str("Invalid Bluesky handle or app password")),
        },
        AuthReply::OtherStatus { status: _ } => AuthStep::Fail {
            error: TurboError::InvalidApiResponse(String::from_str("Unexpected status from the session endpoint")),
        },
        AuthReply::NetworkError => {
            if *attempt >= max_retries {
                AuthStep::Fail { error: TurboError::HttpRequest(String::from_str("Session request failed")) }
            } else {
                *attempt = *attempt + 1;
                AuthStep::RetryAfter { wait_ms: crate::retry::mul_saturating(base_delay_ms, *attempt as u64) }
            }
        },
        AuthReply::TooManyRequests => {
            let twice = crate::retry::mul_saturating(base_delay_ms, 2);
            let next: u32 = if *attempt < u32::MAX { *attempt + 1 } else { *attempt };
            let extra: u64 = if next <= max_retries { crate::retry::mul_saturating(base_delay_ms, next as u64) } else { 0 };
            *attempt = next;
            AuthStep::RetryAfter { wait_ms: if twice <= u64::MAX - extra { twice + extra } else { u64::MAX } }
        },
    }
}

/// Whether credentials work, from the outcome of a sign-in: rejected
/// credentials are a `false`, other failures are passed on.
pub fn credentials_valid(outcome: Result<(), TurboError>) -> (r: Result<bool, TurboError>)
    ensures
        outcome is Ok ==> r == Ok::<bool, TurboError>(true),
        outcome matches Err(TurboError::PermissionDenied(_)) ==> r == Ok::<bool, TurboError>(false),
        (outcome is Err && !(outcome matches Err(TurboError::PermissionDenied(_)))) ==> r == Err::<bool, TurboError>(outcome->Err_0),
{
    match outcome {
        Ok(()) => Ok(true),
        Err(TurboError::PermissionDenied(_)) => Ok(false),
        Err(e) => Err(e),
    }
}

} // verus!
