//! Settings of the pipeline and of the secondary aggregator: defaults and
//! the checks that a loaded configuration must pass.

use vstd::prelude::*;
use crate::errors::TurboError;

verus! {

pub struct Settings {
    pub bluesky_handle: String,
    pub bluesky_app_password: String,
    pub stream_name: String,
    pub jetstream_hosts: Vec<String>,
    pub wanted_collections: String,
    pub redis_url: String,
    pub stream_name_redis: String,
    pub trim_maxlen: Option<usize>,
    pub db_dir: String,
    pub rotation_minutes: u64,
    pub http_port: u16,
    pub batch_size: usize,
    pub max_concurrent_requests: usize,
    /// Identifiers per profile request, and the longest a pending one waits.
    pub profile_batch_size: usize,
    pub profile_batch_wait_ms: u64,
    /// URIs per record request, and the longest a pending one waits.
    pub post_batch_size: usize,
    pub post_batch_wait_ms: u64,
    pub cache_size_users: usize,
    pub cache_size_posts: usize,
    pub max_retries: u32,
    pub retry_base_delay_ms: u64,
    pub statsd_host: Option<String>,
    pub statsd_port: Option<u16>,
    pub posthog_api_key: Option<String>,
    pub posthog_host: Option<String>,
}

/// Which check a configuration fails first, if any: the stream name, the
/// handle and the app password must be set, and the batch size and the
/// concurrency limit must be positive.
pub open spec fn first_invalid(s: &Settings) -> Option<nat> {
    if s.stream_name@.len() == 0 {
        Some(0)
    } else if s.bluesky_handle@.len() == 0 {
        Some(1)
    } else if s.bluesky_app_password@.len() == 0 {
        Some(2)
    } else if s.batch_size == 0 {
        Some(3)
    } else if s.max_concurrent_requests == 0 {
        Some(4)
    } else {
        None
    }
}

pub fn default_jetstream_hosts() -> (r: Vec<String>)
    ensures
        r@.len() == 6,
        r@[0]@ == "jetstream1.us-east.bsky.network"@,
        r@[1]@ == "jetstream2.us-east.bsky.network"@,
        r@[2]@ == "jetstream1.us-west.bsky.network"@,
        r@[3]@ == "jetstream2.us-west.bsky.network"@,
        r@[4]@ == "jetstream1.eu-west.bsky.network"@,
        r@[5]@ == "jetstream2.eu-west.bsky.network"@,
{
    let mut v: Vec<String> = Vec::new();
    v.push(String::from_str("jetstream1.us-east.bsky.network"));
    v.push(String::from_str("jetstream2.us-east.bsky.network"));
    v.push(String::from_str("jetstream1.us-west.bsky.network"));
    v.push(String::from_str("jetstream2.us-west.bsky.network"));
    v.push(String::from_str("jetstream1.eu-west.bsky.network"));
    v.push(String::from_str("jetstream2.eu-west.bsky.network"));
    v
}

pub fn default_wanted_collections() -> (r: String)
    ensures
        r@ == "app.bsky.feed.post"@,
{
    String::from_str("app.bsky.feed.post")
}

impl Default for Settings {
    fn default() -> (r: Settings)
        ensures
            r.bluesky_handle@.len() == 0,
            r.bluesky_app_password@.len() == 0,
            r.stream_name@.len() == 0,
            r.jetstream_hosts@.len() == 6,
            r.wanted_collections@ == "app.bsky.feed.post"@,
            r.redis_url@ == "redis://localhost:6379"@,
            r.stream_name_redis@ == "hydrated_jetstream"@,
            r.trim_maxlen == Some(100usize),
            r.db_dir@ == "data_store"@,
            r.rotation_minutes == 1,
            r.http_port == 8080,
            r.batch_size == 10,
            r.max_concurrent_requests == 10,
            r.profile_batch_size == 25,
            r.profile_batch_wait_ms == 50,
            r.post_batch_size == 25,
            r.post_batch_wait_ms == 50,
            r.cache_size_users == 20000,
            r.cache_size_posts == 20000,
            r.max_retries == 3,
            r.retry_base_delay_ms == 100,
            r.statsd_host is None,
            r.statsd_port is None,
            r.posthog_api_key is None,
            r.posthog_host is None,
    {
        Settings {
            bluesky_handle: String::new(),
            bluesky_app_password: String::new(),
            stream_name: String::new(),
            jetstream_hosts: default_jetstream_hosts(),
            wanted_collections: default_wanted_collections(),
            redis_url: String::from_str("redis://localhost:6379"),
            stream_name_redis: String::from_str("hydrated_jetstream"),
            trim_maxlen: Some(100),
            db_dir: String::from_str("data_store"),
            rotation_minutes: 1,
            http_port: 8080,
            batch_size: 10,
            max_concurrent_requests: 10,
            profile_batch_size: 25,
            profile_batch_wait_ms: 50,
            post_batch_size: 25,
            post_batch_wait_ms: 50,
            cache_size_users: 20000,
            cache_size_posts: 20000,
            max_retries: 3,
            retry_base_delay_ms: 100,
            statsd_host: None,
            statsd_port: None,
            posthog_api_key: None,
            posthog_host: None,
        }
    }
}

impl Settings {
    /// Checks a loaded configuration; the error names the first missing or
    /// invalid setting.
    pub fn validate(&self) -> (r: Result<(), TurboError>)
        ensures
            first_invalid(self) is None <==> r is Ok,
            first_invalid(self) is Some ==> r matches Err(TurboError::Configuration(_)),
    {
        if self.stream_name.as_str().is_empty() {
            return Err(TurboError::Configuration(String::from_str("STREAM_NAME environment variable is required")));
        }
        if self.bluesky_handle.as_str().is_empty() {
            return Err(TurboError::Configuration(String::from_str("BLUESKY_HANDLE environment variable is required")));
        }
        if self.bluesky_app_password.as_str().is_empty() {
            return Err(TurboError::Configuration(String::from_str("BLUESKY_APP_PASSWORD environment variable is required")));
        }
        if self.batch_size == 0 {
            return Err(TurboError::Configuration(String::from_str("batch_size must be greater than 0")));
        }
        if self.max_concurrent_requests == 0 {
            return Err(TurboError::Configuration(String::from_str("max_concurrent_requests must be greater than 0")));
        }
        Ok(())
    }
}

/// Settings of the secondary aggregator.
pub struct MonitorSettings {
    pub stream_a_url: String,
    pub stream_a_name: String,
    pub stream_b_url: String,
    pub stream_b_name: String,
    pub bind_address: String,
    pub database_url: String,
}

pub fn default_stream_a_name() -> (r: String)
    ensures
        r@ == "Stream A"@,
{
    String::from_str("Stream A")
}

pub fn default_stream_b_name() -> (r: String)
    ensures
        r@ == "Stream B"@,
{
    String::from_str("Stream B")
}

pub fn default_bind() -> (r: String)
    ensures
        r@ == "0.0.0.0:3001"@,
{
    String::from_str("0.0.0.0:3001")
}

pub fn default_database() -> (r: String)
    ensures
        r@ == "sqlite://monitor.db?mode=rwc"@,
{
    String::from_str("sqlite://monitor.db?mode=rwc")
}

} // verus!
