//! The totals that the scheduler reports.

use vstd::prelude::*;

use crate::dist::{elapsed_since, SchedulerStatusResult};
use crate::scheduler::{
    dead, lemma_pruned_wf, total_cpus, Scheduler, SchedulerState, ServerState,
};

verus! {

broadcast use vstd::std_specs::btree::group_btree_axioms;

/// Adding one server adds its cores.
proof fn lemma_total_cpus_push<A>(servers: Seq<ServerState<A>>, server: ServerState<A>)
    ensures
        total_cpus(servers.push(server)) == total_cpus(servers) + server.num_cpus,
{
    assert(servers.push(server).drop_last() =~= servers);
}

impl<A> SchedulerState<A> {
    /// The cores at `now` of all servers that have not been silent for longer than `timeout`,
    /// if that number fits.
    pub open spec fn live_total(self, now: u64, timeout: u64) -> Option<usize> {
        let total = total_cpus(self.pruned(now, timeout).servers);
        if total <= usize::MAX {
            Some(total as usize)
        } else {
            None
        }
    }

    /// The totals at `now`, without the servers that have been silent for longer than
    /// `timeout`.
    pub open spec fn status_at(self, now: u64, timeout: u64) -> SchedulerStatusResult {
        let left = self.pruned(now, timeout);
        SchedulerStatusResult {
            num_servers: left.servers.len() as usize,
            num_cpus: total_cpus(left.servers) as usize,
            in_progress: left.jobs.len() as usize,
        }
    }
}

impl<A> Scheduler<A> {
    /// The cores of all servers that have not been silent for longer than `timeout`,
    /// if that number fits.
    pub fn live_cpus(&self, now: u64, timeout: u64) -> (r: Option<usize>)
        ensures
            r == self@.live_total(now, timeout),
            ({
                let total = total_cpus(self@.pruned(now, timeout).servers);
                if total <= usize::MAX {
                    r == Some(total as usize)
                } else {
                    r is None
                }
            }),
    {
        let ghost s = self@.servers;
        let ghost alive = |x: ServerState<A>| !dead(x, now, timeout);
        let mut sum: u128 = 0;
        let mut k: usize = 0;
        proof {
            assert(s.take(0) =~= Seq::<ServerState<A>>::empty());
            reveal_with_fuel(Seq::filter, 1);
        }
        while k < self.servers.len()
            invariant
                s == self@.servers,
                alive == (|x: ServerState<A>| !dead(x, now, timeout)),
                k <= self.servers.len(),
                sum == total_cpus(s.take(k as int).filter(alive)),
                sum <= k * 0xffff_ffff_ffff_ffff,
            decreases self.servers.len() - k,
        {
            proof {
                assert(s[k as int] == self.servers[k as int]@);
                assert(s.take(k + 1) =~= s.take(k as int).push(s[k as int]));
                s.take(k as int).lemma_filter_push(s[k as int], alive);
                lemma_total_cpus_push(s.take(k as int).filter(alive), s[k as int]);
            }
            if elapsed_since(now, self.servers[k].last_seen) <= timeout {
                sum = sum + self.servers[k].num_cpus as u128;
            }
            k += 1;
        }
        proof {
            assert(s.take(k as int) =~= s);
        }
        if sum <= usize::MAX as u128 {
            Some(sum as usize)
        } else {
            None
        }
    }

    /// The totals, after the servers that have been silent for longer than `timeout`
    /// were dropped.
    pub fn handle_status(&mut self, now: u64, timeout: u64) -> (r: SchedulerStatusResult)
        requires
            old(self)@.wf(),
            total_cpus(old(self)@.pruned(now, timeout).servers) <= usize::MAX,
        ensures
            final(self)@.wf(),
            final(self)@ == old(self)@.pruned(now, timeout),
            r.num_servers == final(self)@.servers.len(),
            r.num_cpus == total_cpus(final(self)@.servers),
            r.in_progress == final(self)@.jobs.len(),
            r == old(self)@.status_at(now, timeout),
    {
        proof {
            lemma_pruned_wf(self@, now, timeout);
        }
        let num_cpus: usize = self.live_cpus(now, timeout).unwrap();
        self.prune_servers(now, timeout);
        SchedulerStatusResult {
            num_servers: self.servers.len(),
            num_cpus,
            in_progress: self.jobs.len(),
        }
    }
}

} // verus!
