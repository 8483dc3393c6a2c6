//! The secondary aggregator's state: latest counts of two parallel feeds,
//! their difference, and per-feed uptime, latency and message tracking.
//! Time is passed in as whole seconds of a monotonic clock.

use vstd::prelude::*;

verus! {

#[derive(Clone, Copy, PartialEq, Eq, Structural)]
pub enum StreamId {
    A,
    B,
}

#[derive(Clone, Copy)]
pub struct StreamMessage {
    pub stream_id: StreamId,
    pub count: u64,
}

/// A connection transition of one feed; `latency_ms` is the handshake time
/// of a connect.
#[derive(Clone, Copy)]
pub struct ConnectionStatus {
    pub stream_id: StreamId,
    pub connected: bool,
    pub connected_at_secs: Option<u64>,
    pub latency_ms: Option<u64>,
}

/// Reconnect delay of a feed connection.
pub const STREAM_RECONNECT_DELAY_MS: u64 = 5000;

pub struct StreamClient {
    pub url: String,
    pub stream_id: StreamId,
    pub reconnect_delay_ms: u64,
}

impl StreamClient {
    pub fn new(url: String, stream_id: StreamId) -> (r: StreamClient)
        ensures
            r.url == url,
            r.stream_id == stream_id,
            r.reconnect_delay_ms == STREAM_RECONNECT_DELAY_MS,
    {
        StreamClient { url, stream_id, reconnect_delay_ms: STREAM_RECONNECT_DELAY_MS }
    }
}

/// The latest count of each feed.
pub struct StreamStatsInternal {
    pub count_a: u64,
    pub count_b: u64,
}

impl StreamStatsInternal {
    pub fn new() -> (r: StreamStatsInternal)
        ensures
            r.count_a == 0 && r.count_b == 0,
    {
        StreamStatsInternal { count_a: 0, count_b: 0 }
    }

    /// Records the count a feed reported.
    pub fn update(&mut self, msg: StreamMessage)
        ensures
            msg.stream_id == StreamId::A ==> final(self).count_a == msg.count && final(self).count_b == old(self).count_b,
            msg.stream_id == StreamId::B ==> final(self).count_b == msg.count && final(self).count_a == old(self).count_a,
    {
        match msg.stream_id {
            StreamId::A => self.count_a = msg.count,
            StreamId::B => self.count_b = msg.count,
        }
    }

    /// `count_a - count_b`.
    pub fn delta(&self) -> (r: i128)
        ensures
            r == self.count_a as int - self.count_b as int,
    {
        self.count_a as i128 - self.count_b as i128
    }
}

/// Messages counted since the previous derivation step, never negative.
pub fn count_increase(count: u64, last_count: u64) -> (r: u64)
    ensures
        r == if count >= last_count { count - last_count } else { 0 },
{
    if count >= last_count { count - last_count } else { 0 }
}

/// Uptime bookkeeping of one feed.
pub struct FeedUptime {
    pub connected: bool,
    /// When the current connection started.
    pub connected_at: Option<u64>,
    /// When the current disconnection started.
    pub disconnected_at: Option<u64>,
    pub connected_seconds: u64,
    pub disconnected_seconds: u64,
    pub disconnect_count: u64,
    pub latency_sum_ms: u64,
    pub latency_count: u64,
    pub total_messages: u64,
}

pub open spec fn sat_add(a: u64, b: u64) -> u64 {
    if a as nat + b as nat <= u64::MAX { (a + b) as u64 } else { u64::MAX }
}

fn add_saturating(a: u64, b: u64) -> (r: u64)
    ensures
        r == sat_add(a, b),
{
    if a <= u64::MAX - b { a + b } else { u64::MAX }
}

/// Seconds from `since` to `now`, zero if the clock reads earlier.
pub open spec fn secs_between(since: u64, now: u64) -> u64 {
    if now >= since { (now - since) as u64 } else { 0 }
}

fn span(since: u64, now: u64) -> (r: u64)
    ensures
        r == secs_between(since, now),
{
    if now >= since { now - since } else { 0 }
}

/// `part / whole` in basis points, zero when `whole` is zero.
pub open spec fn basis_points(part: nat, whole: nat) -> nat {
    if whole == 0 { 0 } else { part * 10000 / whole }
}

/// `new` is `old` after a connection change to `connected` at `now`.
pub open spec fn status_applied(old: FeedUptime, new: FeedUptime, connected: bool, latency_ms: Option<u64>, now: u64) -> bool {
    &&& new.connected == connected
    &&& new.total_messages == old.total_messages
    &&& if connected {
        &&& new.connected_at == Some(now)
        &&& new.disconnected_at is None
        &&& new.connected_seconds == old.connected_seconds
        &&& new.disconnected_seconds == match old.disconnected_at {
            Some(t) => sat_add(old.disconnected_seconds, secs_between(t, now)),
            None => old.disconnected_seconds,
        }
        &&& new.disconnect_count == old.disconnect_count
        &&& new.latency_sum_ms == match latency_ms {
            Some(l) => sat_add(old.latency_sum_ms, l),
            None => old.latency_sum_ms,
        }
        &&& new.latency_count == match latency_ms {
            Some(l) => sat_add(old.latency_count, 1),
            None => old.latency_count,
        }
    } else {
        &&& new.connected_at is None
        &&& new.disconnected_at == Some(now)
        &&& new.connected_seconds == match old.connected_at {
            Some(t) => sat_add(old.connected_seconds, secs_between(t, now)),
            None => old.connected_seconds,
        }
        &&& new.disconnected_seconds == old.disconnected_seconds
        &&& new.disconnect_count == sat_add(old.disconnect_count, 1)
        &&& new.latency_sum_ms == old.latency_sum_ms
        &&& new.latency_count == old.latency_count
    }
}

impl FeedUptime {
    /// Nothing recorded yet.
    pub open spec fn fresh(&self) -> bool {
        &&& !self.connected
        &&& self.connected_at is None
        &&& self.disconnected_at is None
        &&& self.connected_seconds == 0 && self.disconnected_seconds == 0
        &&& self.disconnect_count == 0 && self.latency_sum_ms == 0 && self.latency_count == 0
        &&& self.total_messages == 0
    }

    pub fn new() -> (r: FeedUptime)
        ensures
            r.fresh(),
    {
        FeedUptime {
            connected: false,
            connected_at: None,
            disconnected_at: None,
            connected_seconds: 0,
            disconnected_seconds: 0,
            disconnect_count: 0,
            latency_sum_ms: 0,
            latency_count: 0,
            total_messages: 0,
        }
    }

    /// Seconds connected so far, the running connection included.
    pub open spec fn connected_total(&self, now: u64) -> nat {
        self.connected_seconds as nat + match self.connected_at {
            Some(t) => if self.connected { secs_between(t, now) as nat } else { 0 },
            None => 0,
        }
    }

    /// Seconds disconnected so far, the running disconnection included.
    pub open spec fn disconnected_total(&self, now: u64) -> nat {
        self.disconnected_seconds as nat + match self.disconnected_at {
            Some(t) => if !self.connected { secs_between(t, now) as nat } else { 0 },
            None => 0,
        }
    }

    /// On connect, closes the disconnected span and records the latency; on
    /// disconnect, closes the connected span and counts the disconnect.
    pub fn on_status(&mut self, connected: bool, latency_ms: Option<u64>, now: u64)
        ensures
            status_applied(*old(self), *final(self), connected, latency_ms, now),
    {
        if connected {
            if let Some(t) = self.disconnected_at {
                self.disconnected_seconds = add_saturating(self.disconnected_seconds, span(t, now));
            }
            self.connected = true;
            self.connected_at = Some(now);
            self.disconnected_at = None;
            if let Some(l) = latency_ms {
                self.latency_sum_ms = add_saturating(self.latency_sum_ms, l);
                self.latency_count = add_saturating(self.latency_count, 1);
            }
        } else {
            if let Some(t) = self.connected_at {
                self.connected_seconds = add_saturating(self.connected_seconds, span(t, now));
            }
            self.connected = false;
            self.connected_at = None;
            self.disconnected_at = Some(now);
            self.disconnect_count = add_saturating(self.disconnect_count, 1);
        }
    }

    /// Share of time connected, in basis points (0..=10000).
    pub fn uptime_bp(&self, now: u64) -> (r: u64)
        ensures
            r as nat == basis_points(self.connected_total(now), self.connected_total(now) + self.disconnected_total(now)),
            r <= 10000,
    {
        let up: u128 = self.connected_seconds as u128 + match self.connected_at {
            Some(t) => if self.connected { span(t, now) as u128 } else { 0 },
            None => 0,
        };
        let down: u128 = self.disconnected_seconds as u128 + match self.disconnected_at {
            Some(t) => if !self.connected { span(t, now) as u128 } else { 0 },
            None => 0,
        };
        let whole = up + down;
        if whole == 0 {
            return 0;
        }
        proof {
            assert(up * 10000 <= whole * 10000) by (nonlinear_arith)
                requires up <= whole;
            vstd::arithmetic::div_mod::lemma_div_is_ordered(up as int * 10000, whole as int * 10000, whole as int);
            vstd::arithmetic::div_mod::lemma_div_multiples_vanish(10000, whole as int);
        }
        ((up * 10000) / whole) as u64
    }

    /// Mean handshake latency in milliseconds, zero before any.
    pub fn avg_latency(&self) -> (r: u64)
        ensures
            r == if self.latency_count > 0 { self.latency_sum_ms / self.latency_count } else { 0 },
    {
        if self.latency_count > 0 { self.latency_sum_ms / self.latency_count } else { 0 }
    }

    /// Seconds since the latest connect, zero while disconnected.
    pub fn streak(&self, now: u64) -> (r: u64)
        ensures
            r == match self.connected_at {
                Some(t) => secs_between(t, now),
                None => 0,
            },
    {
        match self.connected_at {
            Some(t) => span(t, now),
            None => 0,
        }
    }
}

pub struct UptimeTracker {
    pub a: FeedUptime,
    pub b: FeedUptime,
}

impl UptimeTracker {
    pub fn new() -> (r: UptimeTracker)
        ensures
            r.a.fresh() && r.b.fresh(),
    {
        UptimeTracker { a: FeedUptime::new(), b: FeedUptime::new() }
    }

    pub fn handle_connection_status(&mut self, status: ConnectionStatus, now: u64)
        ensures
            status.stream_id == StreamId::A ==> final(self).b == old(self).b
                && status_applied(old(self).a, final(self).a, status.connected, status.latency_ms, now),
            status.stream_id == StreamId::B ==> final(self).a == old(self).a
                && status_applied(old(self).b, final(self).b, status.connected, status.latency_ms, now),
    {
        match status.stream_id {
            StreamId::A => self.a.on_status(status.connected, status.latency_ms, now),
            StreamId::B => self.b.on_status(status.connected, status.latency_ms, now),
        }
    }

    pub fn record_message(&mut self, stream_id: StreamId)
        ensures
            stream_id == StreamId::A ==> final(self).a == (FeedUptime { total_messages: sat_add(old(self).a.total_messages, 1), ..old(self).a })
                && final(self).b == old(self).b,
            stream_id == StreamId::B ==> final(self).b == (FeedUptime { total_messages: sat_add(old(self).b.total_messages, 1), ..old(self).b })
                && final(self).a == old(self).a,
    {
        match stream_id {
            StreamId::A => self.a.total_messages = add_saturating(self.a.total_messages, 1),
            StreamId::B => self.b.total_messages = add_saturating(self.b.total_messages, 1),
        }
    }

    /// Uptime of each feed in basis points.
    pub fn get_current_uptime_seconds(&self, now: u64) -> (r: (u64, u64))
        ensures
            r.0 as nat == basis_points(self.a.connected_total(now), self.a.connected_total(now) + self.a.disconnected_total(now)),
            r.1 as nat == basis_points(self.b.connected_total(now), self.b.connected_total(now) + self.b.disconnected_total(now)),
    {
        (self.a.uptime_bp(now), self.b.uptime_bp(now))
    }

    pub fn get_avg_latency_a(&self) -> (r: u64)
        ensures
            r == if self.a.latency_count > 0 { self.a.latency_sum_ms / self.a.latency_count } else { 0 },
    {
        self.a.avg_latency()
    }

    pub fn get_avg_latency_b(&self) -> (r: u64)
        ensures
            r == if self.b.latency_count > 0 { self.b.latency_sum_ms / self.b.latency_count } else { 0 },
    {
        self.b.avg_latency()
    }

    pub fn get_current_streak_a(&self, now: u64) -> (r: u64)
        ensures
            r == match self.a.connected_at {
                Some(t) => secs_between(t, now),
                None => 0,
            },
    {
        self.a.streak(now)
    }

    pub fn get_current_streak_b(&self, now: u64) -> (r: u64)
        ensures
            r == match self.b.connected_at {
                Some(t) => secs_between(t, now),
                None => 0,
            },
    {
        self.b.streak(now)
    }
}

/// Counts of both feeds for one wall-clock hour.
pub struct HourlyStat {
    pub hour: String,
    pub stream_a_count: i64,
    pub stream_b_count: i64,
    pub delta: i64,
}

/// Connected seconds of both feeds for one wall-clock hour.
pub struct HourlyUptime {
    pub hour: String,
    pub stream_a_seconds: i64,
    pub stream_b_seconds: i64,
}

pub struct HourlyUptimeSimple {
    pub hour: String,
    pub stream_a_seconds: i64,
    pub stream_b_seconds: i64,
}

/// `v` as `i64`, saturating.
pub open spec fn clamp_i64(v: int) -> i64 {
    if v > i64::MAX { i64::MAX } else if v < i64::MIN { i64::MIN } else { v as i64 }
}

fn to_i64(v: i128) -> (r: i64)
    ensures
        r == clamp_i64(v as int),
{
    if v > i64::MAX as i128 { i64::MAX } else if v < i64::MIN as i128 { i64::MIN } else { v as i64 }
}

/// The hourly record of both counts and `count_a - count_b`.
pub fn hourly_stat(hour: String, stats: &StreamStatsInternal) -> (r: HourlyStat)
    ensures
        r.hour == hour,
        r.stream_a_count == clamp_i64(stats.count_a as int),
        r.stream_b_count == clamp_i64(stats.count_b as int),
        r.delta == clamp_i64(stats.count_a as int - stats.count_b as int),
{
    HourlyStat {
        hour,
        stream_a_count: to_i64(stats.count_a as i128),
        stream_b_count: to_i64(stats.count_b as i128),
        delta: to_i64(stats.delta()),
    }
}

/// The hourly record of both feeds' connected seconds at `now`.
pub fn hourly_uptime(hour: String, uptime: &UptimeTracker, now: u64) -> (r: HourlyUptime)
    ensures
        r.hour == hour,
        r.stream_a_seconds == clamp_i64(uptime.a.connected_total(now) as int),
        r.stream_b_seconds == clamp_i64(uptime.b.connected_total(now) as int),
{
    let a: u128 = uptime.a.connected_seconds as u128 + match uptime.a.connected_at {
        Some(t) => if uptime.a.connected { span(t, now) as u128 } else { 0 },
        None => 0,
    };
    let b: u128 = uptime.b.connected_seconds as u128 + match uptime.b.connected_at {
        Some(t) => if uptime.b.connected { span(t, now) as u128 } else { 0 },
        None => 0,
    };
    HourlyUptime { hour, stream_a_seconds: to_i64(a as i128), stream_b_seconds: to_i64(b as i128) }
}

} // verus!
