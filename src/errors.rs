//! The error taxonomy of the pipeline and its two attributes.

use vstd::prelude::*;

verus! {

/// An error of the pipeline. Causes from transport, storage and codec
/// layers are carried as their message text.
#[derive(Clone, Debug)]
pub enum TurboError {
    JetstreamConnection(String),
    WebSocketConnection(String),
    HttpRequest(String),
    RateLimitExceeded,
    InvalidApiResponse(String),
    Configuration(String),
    MissingEnvVar(String),
    Database(String),
    RedisOperation(String),
    JsonSerialization(String),
    JsonDeserialization(String),
    CacheOperation(String),
    InvalidMessage(String),
    HydrationFailed(String),
    RotationFailed(String),
    Io(String),
    TaskJoin(String),
    Timeout,
    Internal(String),
    NotFound(String),
    PermissionDenied(String),
    ExpiredToken(String),
}

/// Transport-like errors, which are worth retrying.
pub open spec fn retryable(e: &TurboError) -> bool {
    match e {
        TurboError::JetstreamConnection(_) | TurboError::HttpRequest(_) | TurboError::RateLimitExceeded | TurboError::Database(_)
        | TurboError::RedisOperation(_) | TurboError::WebSocketConnection(_)
        | TurboError::Timeout => true,
        _ => false,
    }
}

/// Errors that halt the process.
pub open spec fn critical(e: &TurboError) -> bool {
    match e {
        TurboError::Configuration(_) | TurboError::MissingEnvVar(_)
        | TurboError::PermissionDenied(_) => true,
        _ => false,
    }
}

impl TurboError {
    pub fn is_retryable(&self) -> (r: bool)
        ensures
            r == retryable(self),
    {
        match self {
            TurboError::JetstreamConnection(_) | TurboError::HttpRequest(_) | TurboError::RateLimitExceeded | TurboError::Database(_)
            | TurboError::RedisOperation(_) | TurboError::WebSocketConnection(_)
            | TurboError::Timeout => true,
            _ => false,
        }
    }

    pub fn is_critical(&self) -> (r: bool)
        ensures
            r == critical(self),
    {
        match self {
            TurboError::Configuration(_) | TurboError::MissingEnvVar(_)
            | TurboError::PermissionDenied(_) => true,
            _ => false,
        }
    }
}

} // verus!
