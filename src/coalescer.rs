//! The per-namespace batch coalescer: pending lookup keys are flushed as one
//! upstream request when a full batch is ready, when the oldest pending key
//! has waited out the deadline, or when no more input is coming.

use vstd::prelude::*;

verus! {

/// `ceil(n / b)`: the number of batches of at most `b` keys that `n` keys need.
pub open spec fn batches_needed(n: nat, b: nat) -> nat
    recommends
        b > 0,
{
    if b == 0 { 0 } else { ((n + b - 1) as int / b as int) as nat }
}

/// The keys of `batches`, one batch after another.
pub open spec fn concat_batches(batches: Seq<Vec<String>>) -> Seq<String>
    decreases batches.len(),
{
    if batches.len() == 0 {
        Seq::empty()
    } else {
        concat_batches(batches.drop_last()) + batches.last()@
    }
}

pub struct BatchCoalescer {
    pub pending: Vec<String>,
    pub batch_size: usize,
    pub wait_ms: u64,
    pub last_flush_ms: u64,
    pub batches_total: u64,
    pub batches_partial: u64,
}

/// Milliseconds from `since` to `now`, zero if the clock went backwards.
pub open spec fn elapsed_ms(since: u64, now: u64) -> nat {
    if now >= since { (now - since) as nat } else { 0 }
}

impl BatchCoalescer {
    pub open spec fn wf(&self) -> bool {
        self.batch_size > 0
    }

    /// Whether the oldest pending key has waited out the deadline at `now_ms`.
    pub open spec fn deadline_passed(&self, now_ms: u64) -> bool {
        elapsed_ms(self.last_flush_ms, now_ms) >= self.wait_ms
    }

    /// How many keys a flush at `now_ms` takes; zero when none is due.
    pub open spec fn flush_len(&self, now_ms: u64, input_exhausted: bool) -> nat {
        if self.pending@.len() >= self.batch_size {
            self.batch_size as nat
        } else if self.pending@.len() > 0 && (self.deadline_passed(now_ms) || input_exhausted) {
            self.pending@.len()
        } else {
            0
        }
    }

    pub fn new(batch_size: usize, wait_ms: u64, now_ms: u64) -> (r: BatchCoalescer)
        requires
            batch_size > 0,
        ensures
            r.wf(),
            r.pending@.len() == 0,
            r.batch_size == batch_size,
            r.wait_ms == wait_ms,
            r.last_flush_ms == now_ms,
            r.batches_total == 0,
            r.batches_partial == 0,
    {
        BatchCoalescer {
            pending: Vec::new(),
            batch_size,
            wait_ms,
            last_flush_ms: now_ms,
            batches_total: 0,
            batches_partial: 0,
        }
    }

    /// Appends `keys` to the pending list, in order.
    pub fn add(&mut self, keys: Vec<String>)
        ensures
            final(self).pending@ == old(self).pending@ + keys@,
            final(self).batch_size == old(self).batch_size,
            final(self).wait_ms == old(self).wait_ms,
            final(self).last_flush_ms == old(self).last_flush_ms,
            final(self).batches_total == old(self).batches_total,
            final(self).batches_partial == old(self).batches_partial,
    {
        let mut keys = keys;
        self.pending.append(&mut keys);
    }

    /// The batch to send now, if one is due: the first `batch_size` pending
    /// keys when that many wait, else every pending key once the deadline has
    /// passed or the input is exhausted. A flush counts itself, as partial
    /// when it is smaller than `batch_size`, and restarts the deadline.
    pub fn next_batch(&mut self, now_ms: u64, input_exhausted: bool) -> (r: Option<Vec<String>>)
        requires
            old(self).wf(),
        ensures
            final(self).wf(),
            final(self).batch_size == old(self).batch_size,
            final(self).wait_ms == old(self).wait_ms,
            ({
                let k = old(self).flush_len(now_ms, input_exhausted);
                if k == 0 {
                    &&& r is None
                    &&& *final(self) == *old(self)
                } else {
                    &&& r matches Some(b)
                    &&& b@ == old(self).pending@.subrange(0, k as int)
                    &&& final(self).pending@ == old(self).pending@.subrange(k as int, old(self).pending@.len() as int)
                    &&& final(self).last_flush_ms == now_ms
                    &&& final(self).batches_total as nat == min_u64(old(self).batches_total as nat + 1)
                    &&& final(self).batches_partial as nat == if k < old(self).batch_size {
                        min_u64(old(self).batches_partial as nat + 1)
                    } else {
                        old(self).batches_partial as nat
                    }
                }
            }),
            // every flush is non-empty, and full, overdue or final
            r matches Some(b) ==> b@.len() >= 1 && (b@.len() == old(self).batch_size
                || old(self).deadline_passed(now_ms) || input_exhausted),
    {
        let len = self.pending.len();
        let take: usize = if len >= self.batch_size {
            self.batch_size
        } else {
            let elapsed: u64 = if now_ms >= self.last_flush_ms { now_ms - self.last_flush_ms } else { 0 };
            if len > 0 && (elapsed >= self.wait_ms || input_exhausted) {
                len
            } else {
                0
            }
        };
        if take == 0 {
            return None;
        }
        let rest = self.pending.split_off(take);
        let mut batch = rest;
        std::mem::swap(&mut batch, &mut self.pending);
        self.batches_total = if self.batches_total < u64::MAX { self.batches_total + 1 } else { u64::MAX };
        if take < self.batch_size {
            self.batches_partial = if self.batches_partial < u64::MAX { self.batches_partial + 1 } else { u64::MAX };
        }
        self.last_flush_ms = now_ms;
        Some(batch)
    }

    /// Flushes everything pending at once, in batches of `batch_size` and a
    /// final smaller one: what one lookup call does when all its keys have
    /// arrived together and no more are coming.
    pub fn drain_all(&mut self, now_ms: u64) -> (r: Vec<Vec<String>>)
        requires
            old(self).wf(),
        ensures
            final(self).wf(),
            final(self).pending@.len() == 0,
            final(self).batch_size == old(self).batch_size,
            r@.len() == batches_needed(old(self).pending@.len(), old(self).batch_size as nat),
            concat_batches(r@) == old(self).pending@,
            forall|i: int| 0 <= i < r@.len() ==> {
                &&& #[trigger] r@[i]@.len() >= 1
                &&& r@[i]@.len() <= old(self).batch_size
                &&& r@[i]@ == old(self).pending@.subrange(
                    i * old(self).batch_size,
                    i * old(self).batch_size + r@[i]@.len(),
                )
            },
            forall|i: int| 0 <= i < r@.len() - 1 ==> #[trigger] r@[i]@.len() == old(self).batch_size,
    {
        let ghost orig = self.pending@;
        let ghost bs = self.batch_size as int;
        let mut out: Vec<Vec<String>> = Vec::new();
        proof {
            lemma_batches_needed_step(orig.len() as int, bs);
            assert(0 * bs == 0);
            assert(concat_batches(out@) =~= orig.subrange(0, 0));
            assert(self.pending@ =~= orig.subrange(0, orig.len() as int));
        }
        while self.pending.len() > 0
            invariant
                self.wf(),
                bs > 0,
                self.batch_size == bs,
                bs == old(self).batch_size,
                orig == old(self).pending@,
                out@.len() * bs + self.pending@.len() == orig.len(),
                concat_batches(out@) == orig.subrange(0, out@.len() * bs),
                self.pending@ == orig.subrange(out@.len() * bs, orig.len() as int),
                batches_needed(orig.len(), bs as nat) == out@.len() + batches_needed(self.pending@.len(), bs as nat),
                forall|i: int| 0 <= i < out@.len() ==> {
                    &&& #[trigger] out@[i]@.len() == bs
                    &&& out@[i]@ == orig.subrange(i * bs, i * bs + bs)
                },
            decreases self.pending@.len(),
        {
            let ghost before = self.pending@;
            let ghost n = out@.len();
            let b = self.next_batch(now_ms, true);
            match b {
                Some(batch) => {
                    proof {
                        lemma_batches_needed_step(before.len() as int, bs);
                        assert((n + 1) * bs == n * bs + bs) by (nonlinear_arith);
                        assert(batch@ =~= orig.subrange(n * bs, n * bs + batch@.len()));
                    }
                    if batch.len() < self.batch_size {
                        proof {
                            assert(self.pending@.len() == 0);
                        }
                        let ghost prev = out@;
                        out.push(batch);
                        proof {
                            assert(out@ == prev.push(batch));
                            assert(out@.drop_last() =~= prev);
                            assert(concat_batches(out@) =~= orig);
                            assert forall|i: int| 0 <= i < out@.len() implies {
                                &&& #[trigger] out@[i]@.len() >= 1
                                &&& out@[i]@.len() <= bs
                                &&& out@[i]@ == orig.subrange(i * bs, i * bs + out@[i]@.len())
                            } by {
                                if i < n {
                                    assert(prev.push(batch)[i] == prev[i]);
                                }
                            }
                        }
                        return out;
                    }
                    let ghost prev2 = out@;
                    out.push(batch);
                    proof {
                        assert(self.pending@ =~= orig.subrange(out@.len() * bs, orig.len() as int));
                        assert(out@.drop_last() =~= prev2);
                        assert(concat_batches(out@) =~= orig.subrange(0, out@.len() * bs));
                    }
                },
                None => {
                    assert(false);
                },
            }
        }
        proof {
            assert(self.pending@.len() == 0);
            lemma_batches_needed_step(0, bs);
            assert(orig.subrange(0, out@.len() * bs) =~= orig);
        }
        out
    }
}

impl BatchCoalescer {
    /// Every tenth flush, the share of partial flushes in percent, for the log.
    pub fn partial_percentage(&self) -> (r: Option<u64>)
        ensures
            self.batches_total > 0 && self.batches_total % 10 == 0 ==> r == Some(
                (if self.batches_partial <= self.batches_total { self.batches_partial as nat * 100 / self.batches_total as nat } else { 100nat }) as u64),
            !(self.batches_total > 0 && self.batches_total % 10 == 0) ==> r is None,
    {
        if self.batches_total > 0 && self.batches_total % 10 == 0 {
            if self.batches_partial <= self.batches_total {
                let pct: u128 = self.batches_partial as u128 * 100 / self.batches_total as u128;
                proof {
                    assert(self.batches_partial as nat * 100 <= self.batches_total as nat * 100) by (nonlinear_arith)
                        requires self.batches_partial <= self.batches_total;
                    vstd::arithmetic::div_mod::lemma_div_is_ordered(self.batches_partial as int * 100, self.batches_total as int * 100, self.batches_total as int);
                    vstd::arithmetic::div_mod::lemma_div_multiples_vanish(100, self.batches_total as int);
                }
                Some(pct as u64)
            } else {
                Some(100)
            }
        } else {
            None
        }
    }
}

pub open spec fn min_u64(n: nat) -> nat {
    if n <= u64::MAX { n } else { u64::MAX as nat }
}

/// Taking one batch of `b` from `n > b` keys leaves one batch fewer to take.
pub proof fn lemma_batches_needed_step(n: int, b: int)
    requires
        n >= 0,
        b > 0,
    ensures
        n >= b ==> batches_needed(n as nat, b as nat) == 1 + batches_needed((n - b) as nat, b as nat),
        0 < n < b ==> batches_needed(n as nat, b as nat) == 1,
        n == 0 ==> batches_needed(n as nat, b as nat) == 0,
{
    if n >= b {
        assert((n + b - 1) / b == 1 + (n - b + b - 1) / b) by {
            vstd::arithmetic::div_mod::lemma_div_plus_one(n - 1, b);
        }
    }
    if 0 < n < b {
        assert((n + b - 1) / b == 1) by {
            vstd::arithmetic::div_mod::lemma_div_plus_one(n - 1, b);
            vstd::arithmetic::div_mod::lemma_basic_div(n - 1, b);
        }
    }
    if n == 0 {
        assert((b - 1) / b == 0) by {
            vstd::arithmetic::div_mod::lemma_basic_div(b - 1, b);
        }
    }
}

} // verus!
