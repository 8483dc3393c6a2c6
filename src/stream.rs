//! The streaming client's decisions: which endpoint to connect to, how long
//! to wait before reconnecting, when to give up, and which parsed frames to
//! pass on. The connection itself is driven by the application.

use vstd::prelude::*;
use vstd::string::*;
use crate::errors::TurboError;
use crate::models::JetstreamMessage;

verus! {

/// Consecutive failed connects after which the stream ends with an error.
pub const MAX_RECONNECT_ATTEMPTS: u32 = 10;

/// Wait before starting a new round through the endpoints.
pub const RECONNECT_DELAY_MS: u64 = 5000;

/// Wait before trying the next endpoint within a round.
pub const ENDPOINT_SWITCH_DELAY_MS: u64 = 1000;

pub struct JetstreamClient {
    pub endpoints: Vec<String>,
    pub wanted_collections: String,
    pub max_reconnect_attempts: u32,
    pub reconnect_delay_ms: u64,
}

/// The subscription URL of `endpoint`.
pub open spec fn subscribe_url_of(endpoint: Seq<char>, wanted: Seq<char>) -> Seq<char> {
    seq!['w', 's', 's', ':', '/', '/'] + endpoint + "/subscribe?wantedCollections="@ + wanted
}

/// Where the connection loop stands.
pub struct ReconnectState {
    pub current_endpoint: usize,
    pub attempts: u32,
}

/// What happened to the current connection.
pub enum ConnectEvent {
    /// The handshake completed.
    Connected,
    /// The connect attempt failed.
    ConnectFailed,
    /// An open connection ended: closed by the server or a frame error.
    Closed,
}

/// What the connection loop does next.
pub enum StreamStep {
    /// Read frames from the open connection.
    Read,
    /// Wait, then connect to the endpoint at this index.
    Reconnect { endpoint: usize, delay_ms: u64 },
    /// Emit a terminal error and end the stream.
    GiveUp,
}

impl JetstreamClient {
    pub fn new(endpoints: Vec<String>, wanted_collections: String) -> (r: JetstreamClient)
        ensures
            r.endpoints == endpoints,
            r.wanted_collections == wanted_collections,
            r.max_reconnect_attempts == MAX_RECONNECT_ATTEMPTS,
            r.reconnect_delay_ms == RECONNECT_DELAY_MS,
    {
        JetstreamClient {
            endpoints,
            wanted_collections,
            max_reconnect_attempts: MAX_RECONNECT_ATTEMPTS,
            reconnect_delay_ms: RECONNECT_DELAY_MS,
        }
    }

    /// A client for the post collection.
    pub fn with_defaults(endpoints: Vec<String>) -> (r: JetstreamClient)
        ensures
            r.endpoints == endpoints,
            r.wanted_collections@ == "app.bsky.feed.post"@,
            r.max_reconnect_attempts == MAX_RECONNECT_ATTEMPTS,
            r.reconnect_delay_ms == RECONNECT_DELAY_MS,
    {
        JetstreamClient::new(endpoints, String::from_str("app.bsky.feed.post"))
    }

    /// The URL to subscribe to at the endpoint with index `i`.
    pub fn subscribe_url(&self, i: usize) -> (r: String)
        requires
            i < self.endpoints@.len(),
        ensures
            r@ == subscribe_url_of(self.endpoints@[i as int]@, self.wanted_collections@),
    {
        proof {
            reveal_strlit("wss://");
            assert("wss://"@ =~= seq!['w', 's', 's', ':', '/', '/']);
        }
        let mut s = String::from_str("wss://");
        s.append(self.endpoints[i].as_str());
        s.append("/subscribe?wantedCollections=");
        s.append(self.wanted_collections.as_str());
        s
    }

    /// The step after `event`. A completed handshake resets the failure
    /// count; a failed connect counts, and at the limit ends the stream; any
    /// other end moves to the next endpoint, after the short delay while the
    /// round through the endpoints goes on and the long one when it starts over.
    pub fn next_step(&self, state: &mut ReconnectState, event: ConnectEvent) -> (r: StreamStep)
        requires
            self.endpoints@.len() > 0,
            old(state).current_endpoint < self.endpoints@.len(),
        ensures
            final(state).current_endpoint < self.endpoints@.len(),
            event is Connected ==> r is Read && final(state).attempts == 0
                && final(state).current_endpoint == old(state).current_endpoint,
            event is ConnectFailed && old(state).attempts as int + 1 >= self.max_reconnect_attempts ==> r is GiveUp,
            (event is Closed || (event is ConnectFailed && old(state).attempts as int + 1 < self.max_reconnect_attempts)) ==> {
                &&& final(state).current_endpoint == (old(state).current_endpoint + 1) % (self.endpoints@.len() as int)
                &&& final(state).attempts == if event is Closed { old(state).attempts as int } else { old(state).attempts + 1 }
                &&& r == (StreamStep::Reconnect {
                    endpoint: final(state).current_endpoint,
                    delay_ms: if final(state).current_endpoint == 0 { self.reconnect_delay_ms } else { ENDPOINT_SWITCH_DELAY_MS },
                })
            },
    {
        match event {
            ConnectEvent::Connected => {
                state.attempts = 0;
                StreamStep::Read
            },
            ConnectEvent::ConnectFailed => {
                let attempts: u32 = if state.attempts < u32::MAX { state.attempts + 1 } else { u32::MAX };
                if attempts >= self.max_reconnect_attempts {
                    state.attempts = attempts;
                    return StreamStep::GiveUp;
                }
                state.attempts = attempts;
                self.rotate(state)
            },
            ConnectEvent::Closed => self.rotate(state),
        }
    }

    fn rotate(&self, state: &mut ReconnectState) -> (r: StreamStep)
        requires
            self.endpoints@.len() > 0,
            old(state).current_endpoint < self.endpoints@.len(),
        ensures
            final(state).attempts == old(state).attempts,
            final(state).current_endpoint == (old(state).current_endpoint + 1) % (self.endpoints@.len() as int),
            r == (StreamStep::Reconnect {
                endpoint: final(state).current_endpoint,
                delay_ms: if final(state).current_endpoint == 0 { self.reconnect_delay_ms } else { ENDPOINT_SWITCH_DELAY_MS },
            }),
    {
        let n = self.endpoints.len();
        state.current_endpoint = (state.current_endpoint + 1) % n;
        let delay_ms = if state.current_endpoint == 0 { self.reconnect_delay_ms } else { ENDPOINT_SWITCH_DELAY_MS };
        StreamStep::Reconnect { endpoint: state.current_endpoint, delay_ms }
    }
}

/// Checks a decoded frame: an event without an actor identifier is refused.
pub fn validate_message(message: JetstreamMessage) -> (r: Result<JetstreamMessage, TurboError>)
    ensures
        message.did@.len() == 0 ==> r matches Err(TurboError::InvalidMessage(_)),
        message.did@.len() > 0 ==> r == Ok::<JetstreamMessage, TurboError>(message),
{
    if message.did.as_str().unicode_len() == 0 {
        Err(TurboError::InvalidMessage(String::from_str("DID is empty")))
    } else {
        Ok(message)
    }
}

} // verus!
