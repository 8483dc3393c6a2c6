//! Process-wide counters and their text exposition.

use vstd::prelude::*;
use crate::monitor::sat_add;

verus! {

/// The decimal digits of `n`, most significant first.
pub open spec fn decimal_text_of(n: nat) -> Seq<char>
    decreases n,
{
    if n < 10 {
        seq![digit_char((n % 10) as nat)]
    } else {
        decimal_text_of(n / 10) + seq![digit_char((n % 10) as nat)]
    }
}

pub open spec fn digit_char(d: nat) -> char {
    if d == 0 { '0' } else if d == 1 { '1' } else if d == 2 { '2' } else if d == 3 { '3' }
    else if d == 4 { '4' } else if d == 5 { '5' } else if d == 6 { '6' } else if d == 7 { '7' }
    else if d == 8 { '8' } else { '9' }
}

/// The one-character text of decimal digit `d`.
fn digit_text(d: u64) -> (r: &'static str)
    requires
        d < 10,
    ensures
        r@ == seq![digit_char(d as nat)],
{
    match d {
        0 => {
            proof { reveal_strlit("0"); }
            "0"
        },
        1 => {
            proof { reveal_strlit("1"); }
            "1"
        },
        2 => {
            proof { reveal_strlit("2"); }
            "2"
        },
        3 => {
            proof { reveal_strlit("3"); }
            "3"
        },
        4 => {
            proof { reveal_strlit("4"); }
            "4"
        },
        5 => {
            proof { reveal_strlit("5"); }
            "5"
        },
        6 => {
            proof { reveal_strlit("6"); }
            "6"
        },
        7 => {
            proof { reveal_strlit("7"); }
            "7"
        },
        8 => {
            proof { reveal_strlit("8"); }
            "8"
        },
        _ => {
            proof { reveal_strlit("9"); }
            "9"
        },
    }
}

/// The decimal digits of `n`, no sign or padding.
pub(crate) fn decimal_text(n: u64) -> (r: String)
    ensures
        r@ == decimal_text_of(n as nat),
    decreases n,
{
    if n < 10 {
        String::from_str(digit_text(n))
    } else {
        let mut s = decimal_text(n / 10);
        s.append(digit_text(n % 10));
        s
    }
}

pub struct Metrics {
    pub messages_processed: u64,
    pub messages_failed: u64,
    pub hydration_count: u64,
    pub hydration_ms_total: u64,
    pub api_calls: u64,
    /// Latest cache hit rate, in basis points.
    pub cache_hit_rate_bp: u64,
    pub active_connections: u64,
}

impl Metrics {
    pub fn new() -> (r: Metrics)
        ensures
            r.messages_processed == 0 && r.messages_failed == 0 && r.hydration_count == 0
                && r.hydration_ms_total == 0 && r.api_calls == 0 && r.cache_hit_rate_bp == 0
                && r.active_connections == 0,
    {
        Metrics {
            messages_processed: 0,
            messages_failed: 0,
            hydration_count: 0,
            hydration_ms_total: 0,
            api_calls: 0,
            cache_hit_rate_bp: 0,
            active_connections: 0,
        }
    }

    pub fn set_cache_hit_rate(&mut self, rate_bp: u64)
        ensures
            final(self).cache_hit_rate_bp == rate_bp,
            final(self).messages_processed == old(self).messages_processed,
            final(self).api_calls == old(self).api_calls,
    {
        self.cache_hit_rate_bp = rate_bp;
    }

    pub fn set_active_connections(&mut self, count: u64)
        ensures
            final(self).active_connections == count,
            final(self).messages_processed == old(self).messages_processed,
            final(self).api_calls == old(self).api_calls,
    {
        self.active_connections = count;
    }

    pub fn record_message_processed(&mut self)
        ensures
            final(self).messages_processed == sat_add(old(self).messages_processed, 1),
            final(self).messages_failed == old(self).messages_failed,
            final(self).hydration_count == old(self).hydration_count,
            final(self).hydration_ms_total == old(self).hydration_ms_total,
            final(self).api_calls == old(self).api_calls,
    {
        self.messages_processed = bump(self.messages_processed, 1);
    }

    pub fn record_message_failed(&mut self)
        ensures
            final(self).messages_failed == sat_add(old(self).messages_failed, 1),
            final(self).messages_processed == old(self).messages_processed,
            final(self).hydration_count == old(self).hydration_count,
            final(self).hydration_ms_total == old(self).hydration_ms_total,
            final(self).api_calls == old(self).api_calls,
    {
        self.messages_failed = bump(self.messages_failed, 1);
    }

    /// Records one hydration that took `duration_ms`.
    pub fn record_hydration_duration(&mut self, duration_ms: u64)
        ensures
            final(self).hydration_count == sat_add(old(self).hydration_count, 1),
            final(self).hydration_ms_total == sat_add(old(self).hydration_ms_total, duration_ms),
            final(self).messages_processed == old(self).messages_processed,
            final(self).messages_failed == old(self).messages_failed,
            final(self).api_calls == old(self).api_calls,
    {
        self.hydration_count = bump(self.hydration_count, 1);
        self.hydration_ms_total = bump(self.hydration_ms_total, duration_ms);
    }

    pub fn record_api_call(&mut self)
        ensures
            final(self).api_calls == sat_add(old(self).api_calls, 1),
            final(self).messages_processed == old(self).messages_processed,
            final(self).messages_failed == old(self).messages_failed,
            final(self).hydration_count == old(self).hydration_count,
            final(self).hydration_ms_total == old(self).hydration_ms_total,
    {
        self.api_calls = bump(self.api_calls, 1);
    }

    /// The counters in the Prometheus text format.
    pub fn get_prometheus_metrics(&self) -> (r: String)
        ensures
            r@ == "# TYPE jetstream_turbo_messages_processed_total counter\njetstream_turbo_messages_processed_total "@
                + decimal_text_of(self.messages_processed as nat)
                + "\n# TYPE jetstream_turbo_messages_failed_total counter\njetstream_turbo_messages_failed_total "@
                + decimal_text_of(self.messages_failed as nat)
                + "\n# TYPE jetstream_turbo_hydration_duration_ms_total counter\njetstream_turbo_hydration_duration_ms_total "@
                + decimal_text_of(self.hydration_ms_total as nat)
                + "\n# TYPE jetstream_turbo_api_calls_total counter\njetstream_turbo_api_calls_total "@
                + decimal_text_of(self.api_calls as nat)
                + "\n# TYPE jetstream_turbo_cache_hit_rate_bp gauge\njetstream_turbo_cache_hit_rate_bp "@
                + decimal_text_of(self.cache_hit_rate_bp as nat)
                + "\n# TYPE jetstream_turbo_active_connections gauge\njetstream_turbo_active_connections "@
                + decimal_text_of(self.active_connections as nat) + "\n"@,
    {
        let mut s = String::from_str("# TYPE jetstream_turbo_messages_processed_total counter\njetstream_turbo_messages_processed_total ");
        s.append(decimal_text(self.messages_processed).as_str());
        s.append("\n# TYPE jetstream_turbo_messages_failed_total counter\njetstream_turbo_messages_failed_total ");
        s.append(decimal_text(self.messages_failed).as_str());
        s.append("\n# TYPE jetstream_turbo_hydration_duration_ms_total counter\njetstream_turbo_hydration_duration_ms_total ");
        s.append(decimal_text(self.hydration_ms_total).as_str());
        s.append("\n# TYPE jetstream_turbo_api_calls_total counter\njetstream_turbo_api_calls_total ");
        s.append(decimal_text(self.api_calls).as_str());
        s.append("\n# TYPE jetstream_turbo_cache_hit_rate_bp gauge\njetstream_turbo_cache_hit_rate_bp ");
        s.append(decimal_text(self.cache_hit_rate_bp).as_str());
        s.append("\n# TYPE jetstream_turbo_active_connections gauge\njetstream_turbo_active_connections ");
        s.append(decimal_text(self.active_connections).as_str());
        s.append("\n");
        s
    }
}

fn bump(a: u64, b: u64) -> (r: u64)
    ensures
        r == sat_add(a, b),
{
    if a <= u64::MAX - b { a + b } else { u64::MAX }
}

/// Measures one operation from `new` to `finish`.
pub struct OperationTimer {
    pub start_ms: u64,
}

impl OperationTimer {
    pub fn new(now_ms: u64) -> (r: OperationTimer)
        ensures
            r.start_ms == now_ms,
    {
        OperationTimer { start_ms: now_ms }
    }

    /// Records the time since `new` as one hydration.
    pub fn finish(self, metrics: &mut Metrics, now_ms: u64)
        ensures
            final(metrics).hydration_count == sat_add(old(metrics).hydration_count, 1),
            final(metrics).hydration_ms_total == sat_add(old(metrics).hydration_ms_total,
                if now_ms >= self.start_ms { (now_ms - self.start_ms) as u64 } else { 0 }),
    {
        let d: u64 = if now_ms >= self.start_ms { now_ms - self.start_ms } else { 0 };
        metrics.record_hydration_duration(d);
    }
}

} // verus!
