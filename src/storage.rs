//! Decisions of the two sinks: the durable store's size-driven cleanup and
//! the acknowledgement of a batch written to both sinks.

use vstd::prelude::*;
use crate::errors::TurboError;

verus! {

/// Rounds of deletion before the store is compacted regardless.
pub const MAX_CLEANUP_ROUNDS: u32 = 3;

pub const SECS_PER_DAY: i64 = 86400;

pub struct CleanupResult {
    pub records_deleted: u64,
    pub new_size_bytes: i64,
}

pub struct StreamInfo {
    pub redis_version: String,
    pub stream_length: usize,
    pub stream_name: String,
    pub max_length: Option<usize>,
}

/// The size-driven cleanup of the durable store: delete records older than
/// the retention window, and while the store is still over budget halve the
/// window (never below one day), for at most three rounds; then compact.
pub struct VacuumCleanup {
    pub retention_days: u32,
    pub round: u32,
    pub total_deleted: u64,
}

/// What the cleanup does next.
pub enum CleanupStep {
    /// Delete records created before this Unix time, then report with `after_round`.
    Delete { cutoff_secs: i64 },
    /// Compact the store and finish.
    Compact,
}

/// Whether the cleanup goes on after round number `round` left the store at `size_bytes`.
pub open spec fn another_round(size_bytes: i64, max_size_bytes: i64, round: u32) -> bool {
    size_bytes > max_size_bytes && round < MAX_CLEANUP_ROUNDS
}

/// Records created before `cutoff_secs` are deleted.
pub open spec fn deleted_by(created_secs: i64, cutoff_secs: i64) -> bool {
    created_secs < cutoff_secs
}

pub open spec fn cutoff_of(now_secs: i64, retention_days: u32) -> int {
    now_secs as int - retention_days as int * SECS_PER_DAY as int
}

impl VacuumCleanup {
    pub fn new(retention_days: u32) -> (r: VacuumCleanup)
        ensures
            r.retention_days == retention_days,
            r.round == 0,
            r.total_deleted == 0,
    {
        VacuumCleanup { retention_days, round: 0, total_deleted: 0 }
    }

    /// The deletion of the current round at `now_secs`.
    pub fn delete_step(&self, now_secs: i64) -> (r: CleanupStep)
        requires
            cutoff_of(now_secs, self.retention_days) >= i64::MIN,
        ensures
            r == (CleanupStep::Delete { cutoff_secs: cutoff_of(now_secs, self.retention_days) as i64 }),
    {
        let c: i128 = now_secs as i128 - self.retention_days as i128 * SECS_PER_DAY as i128;
        CleanupStep::Delete { cutoff_secs: c as i64 }
    }

    /// After a round that deleted `deleted` records and left the store at
    /// `size_bytes`: compact once within `max_size_bytes` or after the last
    /// round, else go on with half the window.
    pub fn after_round(&mut self, deleted: u64, size_bytes: i64, max_size_bytes: i64) -> (r: bool)
        ensures
            final(self).round == if old(self).round < u32::MAX { old(self).round + 1 } else { old(self).round as int },
            final(self).total_deleted == if old(self).total_deleted as int + deleted as int <= u64::MAX {
                old(self).total_deleted + deleted
            } else {
                u64::MAX as int
            },
            // `true`: run another round
            r == another_round(size_bytes, max_size_bytes, final(self).round),
            r ==> final(self).retention_days == if old(self).retention_days / 2 >= 1 { old(self).retention_days / 2 } else { 1 },
            !r ==> final(self).retention_days == old(self).retention_days,
    {
        self.round = if self.round < u32::MAX { self.round + 1 } else { self.round };
        self.total_deleted = if self.total_deleted <= u64::MAX - deleted { self.total_deleted + deleted } else { u64::MAX };
        if size_bytes <= max_size_bytes || self.round >= MAX_CLEANUP_ROUNDS {
            return false;
        }
        let half = self.retention_days / 2;
        self.retention_days = if half >= 1 { half } else { 1 };
        true
    }
}

/// When the store is within budget after the first round (as with a huge
/// size cap), the cleanup stops there; that round's cutoff lies a whole
/// retention window back, so every record created inside the window stays.
pub proof fn lemma_within_budget_keeps_recent(retention_days: u32, now_secs: i64, created_secs: i64, size_bytes: i64, max_size_bytes: i64)
    requires
        size_bytes <= max_size_bytes,
        created_secs as int >= cutoff_of(now_secs, retention_days),
        cutoff_of(now_secs, retention_days) >= i64::MIN,
    ensures
        !another_round(size_bytes, max_size_bytes, 1),
        !deleted_by(created_secs, cutoff_of(now_secs, retention_days) as i64),
{
}

/// Whether the periodic check should start a cleanup: the store is above
/// its cap of `max_size_mb` megabytes.
pub fn needs_cleanup(size_bytes: i64, max_size_mb: u64) -> (r: bool)
    ensures
        r == (size_bytes as int > max_size_mb as int * 1024 * 1024),
{
    (size_bytes as i128) > (max_size_mb as i128) * 1024 * 1024
}

/// A batch counts as written only when both sinks took it; the store's
/// error is reported first.
pub fn combine_writes(stored: Result<Vec<i64>, TurboError>, published: Result<(), TurboError>) -> (r: Result<Vec<i64>, TurboError>)
    ensures
        stored is Ok && published is Ok ==> r == stored,
        stored is Err ==> r == stored,
        stored is Ok && published is Err ==> r == (match published {
            Err(e) => Err::<Vec<i64>, TurboError>(e),
            Ok(_) => stored,
        }),
{
    match stored {
        Err(e) => Err(e),
        Ok(ids) => match published {
            Ok(()) => Ok(ids),
            Err(e) => Err(e),
        },
    }
}


/// What a consumer that deduplicates by canonical URI keeps of a stream of
/// entry URIs: each URI once, at its first appearance.
pub open spec fn dedup_uris(s: Seq<Seq<char>>) -> Seq<Seq<char>>
    decreases s.len(),
{
    if s.len() == 0 {
        s
    } else {
        let prev = dedup_uris(s.drop_last());
        if prev.contains(s.last()) { prev } else { prev.push(s.last()) }
    }
}

pub proof fn lemma_dedup_contains(s: Seq<Seq<char>>)
    ensures
        forall|x: Seq<char>| #[trigger] dedup_uris(s).contains(x) <==> s.contains(x),
    decreases s.len(),
{
    if s.len() > 0 {
        lemma_dedup_contains(s.drop_last());
        crate::models::lemma_push_contains(dedup_uris(s.drop_last()), s.last());
        crate::models::lemma_push_contains(s.drop_last(), s.last());
        assert(s.drop_last().push(s.last()) =~= s);
    }
}

/// Appending entries whose URIs the stream already holds changes nothing
/// for a deduplicating consumer.
pub proof fn lemma_dedup_absorbs(a: Seq<Seq<char>>, b: Seq<Seq<char>>)
    requires
        forall|i: int| 0 <= i < b.len() ==> a.contains(#[trigger] b[i]),
    ensures
        dedup_uris(a + b) == dedup_uris(a),
    decreases b.len(),
{
    if b.len() == 0 {
        assert(a + b =~= a);
    } else {
        lemma_dedup_absorbs(a, b.drop_last());
        assert((a + b).drop_last() =~= a + b.drop_last());
        assert((a + b).last() == b[b.len() - 1]);
        lemma_dedup_contains(a + b.drop_last());
        assert((a + b.drop_last()).contains(b[b.len() - 1])) by {
            let k = choose|k: int| 0 <= k < a.len() && a[k] == b[b.len() - 1];
            assert((a + b.drop_last())[k] == a[k]);
        }
    }
}

/// Publishing the same batch twice leaves a deduplicating consumer with what
/// one publication gives.
pub proof fn lemma_republish_is_idempotent(stream: Seq<Seq<char>>, batch: Seq<Seq<char>>)
    ensures
        dedup_uris(stream + batch + batch) == dedup_uris(stream + batch),
{
    assert forall|i: int| 0 <= i < batch.len() implies (stream + batch).contains(#[trigger] batch[i]) by {
        assert((stream + batch)[stream.len() + i] == batch[i]);
    }
    lemma_dedup_absorbs(stream + batch, batch);
}

} // verus!
