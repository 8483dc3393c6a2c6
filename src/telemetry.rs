//! Error telemetry: the tag of each error kind, the event sent for a
//! captured error, and the batching of events (fifty, or every minute).

use vstd::prelude::*;
use vstd::string::*;
use crate::errors::{critical, retryable, TurboError};

verus! {

/// Events per telemetry batch.
pub const TELEMETRY_BATCH_SIZE: usize = 50;

/// Longest wait of a buffered event, in milliseconds.
pub const TELEMETRY_FLUSH_INTERVAL_MS: u64 = 60000;

/// The tag of an error kind.
pub open spec fn type_name_of(e: &TurboError) -> Seq<char> {
    match e {
        TurboError::JetstreamConnection(_) => "JetstreamConnection"@,
        TurboError::WebSocketConnection(_) => "WebSocketConnection"@,
        TurboError::HttpRequest(_) => "HttpRequest"@,
        TurboError::RateLimitExceeded => "RateLimitExceeded"@,
        TurboError::InvalidApiResponse(_) => "InvalidApiResponse"@,
        TurboError::Configuration(_) => "Configuration"@,
        TurboError::MissingEnvVar(_) => "MissingEnvVar"@,
        TurboError::Database(_) => "Database"@,
        TurboError::RedisOperation(_) => "RedisOperation"@,
        TurboError::JsonSerialization(_) => "JsonSerialization"@,
        TurboError::JsonDeserialization(_) => "JsonDeserialization"@,
        TurboError::CacheOperation(_) => "CacheOperation"@,
        TurboError::InvalidMessage(_) => "InvalidMessage"@,
        TurboError::HydrationFailed(_) => "HydrationFailed"@,
        TurboError::RotationFailed(_) => "RotationFailed"@,
        TurboError::Io(_) => "Io"@,
        TurboError::TaskJoin(_) => "TaskJoin"@,
        TurboError::Timeout => "Timeout"@,
        TurboError::Internal(_) => "Internal"@,
        TurboError::NotFound(_) => "NotFound"@,
        TurboError::PermissionDenied(_) => "PermissionDenied"@,
        TurboError::ExpiredToken(_) => "ExpiredToken"@,
    }
}

pub fn error_type_name(error: &TurboError) -> (r: String)
    ensures
        r@ == type_name_of(error),
{
    let name: &str = match error {
        TurboError::JetstreamConnection(_) => "JetstreamConnection",
        TurboError::WebSocketConnection(_) => "WebSocketConnection",
        TurboError::HttpRequest(_) => "HttpRequest",
        TurboError::RateLimitExceeded => "RateLimitExceeded",
        TurboError::InvalidApiResponse(_) => "InvalidApiResponse",
        TurboError::Configuration(_) => "Configuration",
        TurboError::MissingEnvVar(_) => "MissingEnvVar",
        TurboError::Database(_) => "Database",
        TurboError::RedisOperation(_) => "RedisOperation",
        TurboError::JsonSerialization(_) => "JsonSerialization",
        TurboError::JsonDeserialization(_) => "JsonDeserialization",
        TurboError::CacheOperation(_) => "CacheOperation",
        TurboError::InvalidMessage(_) => "InvalidMessage",
        TurboError::HydrationFailed(_) => "HydrationFailed",
        TurboError::RotationFailed(_) => "RotationFailed",
        TurboError::Io(_) => "Io",
        TurboError::TaskJoin(_) => "TaskJoin",
        TurboError::Timeout => "Timeout",
        TurboError::Internal(_) => "Internal",
        TurboError::NotFound(_) => "NotFound",
        TurboError::PermissionDenied(_) => "PermissionDenied",
        TurboError::ExpiredToken(_) => "ExpiredToken",
    };
    String::from_str(name)
}

/// A captured error as sent to the telemetry service.
pub struct ErrorEvent {
    pub error_type: String,
    pub message: String,
    pub is_retryable: bool,
    pub is_critical: bool,
    pub context: Vec<(String, String)>,
}

/// The event for `error`, tagged with its kind and attributes.
pub fn capture_error(error: &TurboError, message: String, context: Vec<(String, String)>) -> (r: ErrorEvent)
    ensures
        r.error_type@ == type_name_of(error),
        r.message == message,
        r.is_retryable == retryable(error),
        r.is_critical == critical(error),
        r.context == context,
{
    ErrorEvent {
        error_type: error_type_name(error),
        message,
        is_retryable: error.is_retryable(),
        is_critical: error.is_critical(),
        context,
    }
}

/// An API key shown in logs: its first and last four characters, or `****`
/// when it has at most eight.
pub open spec fn masked(key: Seq<char>) -> Seq<char> {
    if key.len() <= 8 {
        "****"@
    } else {
        key.subrange(0, 4) + "..."@ + key.subrange(key.len() - 4, key.len() as int)
    }
}

pub fn mask_api_key(key: &str) -> (r: String)
    ensures
        r@ == masked(key@),
{
    let n = key.unicode_len();
    if n <= 8 {
        return String::from_str("****");
    }
    let mut s = String::from_str(key.substring_char(0, 4));
    s.append("...");
    s.append(key.substring_char(n - 4, n));
    s
}

/// Events waiting to be sent.
pub struct TelemetryBuffer {
    pub events: Vec<ErrorEvent>,
}

impl TelemetryBuffer {
    pub fn new() -> (r: TelemetryBuffer)
        ensures
            r.events@.len() == 0,
    {
        TelemetryBuffer { events: Vec::new() }
    }

    /// Buffers `event`; hands back a full batch to send.
    pub fn push(&mut self, event: ErrorEvent) -> (r: Option<Vec<ErrorEvent>>)
        ensures
            old(self).events@.len() + 1 >= TELEMETRY_BATCH_SIZE ==> (r matches Some(b) && b@ == old(self).events@.push(event))
                && final(self).events@.len() == 0,
            old(self).events@.len() + 1 < TELEMETRY_BATCH_SIZE ==> r is None && final(self).events@ == old(self).events@.push(event),
    {
        self.events.push(event);
        if self.events.len() >= TELEMETRY_BATCH_SIZE {
            let mut out: Vec<ErrorEvent> = Vec::new();
            std::mem::swap(&mut out, &mut self.events);
            Some(out)
        } else {
            None
        }
    }

    /// On the flush timer: hands back whatever is buffered.
    pub fn on_tick(&mut self) -> (r: Option<Vec<ErrorEvent>>)
        ensures
            old(self).events@.len() == 0 ==> r is None && final(self).events@.len() == 0,
            old(self).events@.len() > 0 ==> (r matches Some(b) && b@ == old(self).events@) && final(self).events@.len() == 0,
    {
        if self.events.len() == 0 {
            None
        } else {
            let mut out: Vec<ErrorEvent> = Vec::new();
            std::mem::swap(&mut out, &mut self.events);
            Some(out)
        }
    }
}

} // verus!
