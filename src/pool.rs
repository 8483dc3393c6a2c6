//! Bookkeeping of pooled API clients: age, idle time and use count, and the
//! removal of clients idle for too long. Time is in milliseconds.

use vstd::prelude::*;

verus! {

pub struct PooledClient<T> {
    pub client: T,
    pub created_at_ms: u64,
    pub last_used_ms: u64,
    pub usage_count: u64,
}

pub open spec fn ms_since(t: u64, now: u64) -> u64 {
    if now >= t { (now - t) as u64 } else { 0 }
}

impl<T> PooledClient<T> {
    pub fn new(client: T, now_ms: u64) -> (r: PooledClient<T>)
        ensures
            r.client == client,
            r.created_at_ms == now_ms,
            r.last_used_ms == now_ms,
            r.usage_count == 0,
    {
        PooledClient { client, created_at_ms: now_ms, last_used_ms: now_ms, usage_count: 0 }
    }

    pub fn get_client(&self) -> (r: &T)
        ensures
            *r == self.client,
    {
        &self.client
    }

    /// Marks a use at `now_ms`.
    pub fn touch(&mut self, now_ms: u64)
        ensures
            final(self).client == old(self).client,
            final(self).created_at_ms == old(self).created_at_ms,
            final(self).last_used_ms == now_ms,
            final(self).usage_count == if old(self).usage_count < u64::MAX { old(self).usage_count + 1 } else { old(self).usage_count as int },
    {
        self.last_used_ms = now_ms;
        if self.usage_count < u64::MAX {
            self.usage_count = self.usage_count + 1;
        }
    }

    pub fn age(&self, now_ms: u64) -> (r: u64)
        ensures
            r == ms_since(self.created_at_ms, now_ms),
    {
        if now_ms >= self.created_at_ms { now_ms - self.created_at_ms } else { 0 }
    }

    pub fn idle_time(&self, now_ms: u64) -> (r: u64)
        ensures
            r == ms_since(self.last_used_ms, now_ms),
    {
        if now_ms >= self.last_used_ms { now_ms - self.last_used_ms } else { 0 }
    }
}

/// Keeps the clients idle for at most `max_idle_ms`, in order.
pub fn cleanup_idle_clients<T>(clients: Vec<PooledClient<T>>, max_idle_ms: u64, now_ms: u64) -> (r: Vec<PooledClient<T>>)
    ensures
        r@ == clients@.filter(|c: PooledClient<T>| ms_since(c.last_used_ms, now_ms) <= max_idle_ms),
{
    let ghost all = clients@;
    let ghost keep = |c: PooledClient<T>| ms_since(c.last_used_ms, now_ms) <= max_idle_ms;
    let n0 = clients.len();
    let mut clients = clients;
    let mut rev: Vec<PooledClient<T>> = Vec::new();
    while clients.len() > 0
        invariant
            clients@.len() + rev@.len() == all.len(),
            forall|k: int| 0 <= k < clients@.len() ==> clients@[k] == all[k],
            forall|k: int| 0 <= k < rev@.len() ==> rev@[k] == all[all.len() - 1 - k],
        decreases clients@.len(),
    {
        let c = clients.pop().unwrap();
        rev.push(c);
    }
    let mut out: Vec<PooledClient<T>> = Vec::new();
    let mut i: usize = 0;
    proof {
        reveal(Seq::filter);
        assert(all.subrange(0, 0).filter(keep) =~= Seq::<PooledClient<T>>::empty());
    }
    while rev.len() > 0
        invariant
            i + rev@.len() == all.len(),
            n0 == all.len(),
            forall|x: PooledClient<T>| #[trigger] keep(x) == (ms_since(x.last_used_ms, now_ms) <= max_idle_ms),
            forall|k: int| 0 <= k < rev@.len() ==> rev@[k] == all[all.len() - 1 - k],
            out@ == all.subrange(0, i as int).filter(keep),
        decreases rev@.len(),
    {
        let c = rev.pop().unwrap();
        proof {
            assert(c == all[i as int]);
            assert(all.subrange(0, i + 1).drop_last() =~= all.subrange(0, i as int));
            assert(all.subrange(0, i + 1).last() == c);
        }
        let ghost prev = out@;
        let ghost cg = c;
        let idle = c.idle_time(now_ms);
        if idle <= max_idle_ms {
            out.push(c);
        }
        proof {
            let s1 = all.subrange(0, i + 1);
            reveal(Seq::filter);
            assert(s1.drop_last() =~= all.subrange(0, i as int));
            assert(s1.last() == cg);
            assert(keep(cg) == (idle <= max_idle_ms));
            assert(s1.filter(keep) == (if keep(s1.last()) { s1.drop_last().filter(keep).push(s1.last()) } else { s1.drop_last().filter(keep) }));
        }
        i = i + 1;
    }
    proof {
        assert(all.subrange(0, all.len() as int) =~= all);
    }
    out
}

} // verus!
