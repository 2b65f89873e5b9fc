//! A worker's record of the jobs it was given.
//!
//! A job stays in the ledger from its assignment to its completion. What leaves
//! the ledger is remembered for a while, so that a late or repeated assignment
//! of the same number is turned down. The memory is bounded: once it is full the
//! lowest numbers are forgotten, and a floor takes their place.

use std::collections::{BTreeMap, BTreeSet};
use vstd::prelude::*;
use vstd::std_specs::cmp::OrdSpec;
use vstd::std_specs::iter::IteratorSpec;

use crate::dist::{
    elapsed, elapsed_since, JobId, Toolchain, UNCLAIMED_PENDING_TIMEOUT, UNCLAIMED_READY_TIMEOUT,
};

verus! {

broadcast use {vstd::std_specs::btree::group_btree_axioms, vstd::laws_cmp::group_laws_cmp};

/// A job on a worker. The toolchain is kept from assignment to start.
#[derive(Clone, Debug, PartialEq, Eq)]
pub enum WorkerJob {
    Pending { toolchain: Toolchain, assigned_at: u64 },
    Ready { toolchain: Toolchain, ready_at: u64 },
    Started,
    Complete,
}

/// A job together with whether a toolchain upload for it is under way.
#[derive(Clone, Debug, PartialEq, Eq)]
pub struct WorkerJobEntry {
    pub job: WorkerJob,
    pub busy: bool,
}

/// The jobs of a worker and the numbers it will not take again.
#[derive(Debug)]
pub struct WorkerLedger {
    /// The jobs the worker holds, by number.
    pub jobs: BTreeMap<u64, WorkerJobEntry>,
    /// One more than the highest number ever taken.
    pub next_job_id: u64,
    /// The most recent of the numbers that have left.
    pub retired: BTreeSet<u64>,
    /// Numbers up to and with this one are too old to be taken.
    pub retired_through: Option<u64>,
    /// How many jobs, and how many retired numbers, the ledger holds at most.
    pub job_bound: usize,
}

/// What a ledger holds.
#[verifier::ext_equal]
pub struct LedgerState {
    pub jobs: Map<u64, WorkerJobEntry>,
    pub next_job_id: u64,
    pub retired: Set<u64>,
    pub retired_through: Option<u64>,
    pub bound: nat,
}

/// The members of `s` above `x`.
pub open spec fn above(s: Set<u64>, x: u64) -> Set<u64> {
    s.filter(|y: u64| y > x)
}

/// The `n` greatest members of `s`, or all of them if there are fewer.
pub open spec fn newest(s: Set<u64>, n: nat) -> Set<u64> {
    s.filter(|x: u64| above(s, x).len() < n)
}

/// Whether `m` is the greatest member of `s`.
pub open spec fn is_greatest(s: Set<u64>, m: u64) -> bool {
    &&& s.contains(m)
    &&& forall|x: u64| s.contains(x) ==> x <= m
}

/// The least floor that is no lower than `floor` and covers every member of
/// `evicted`.
pub open spec fn raised(floor: Option<u64>, evicted: Set<u64>) -> Option<u64> {
    if evicted == Set::<u64>::empty() {
        floor
    } else {
        let top = choose|m: u64| is_greatest(evicted, m);
        match floor {
            Some(f) => if f > top { Some(f) } else { Some(top) },
            None => Some(top),
        }
    }
}

/// Whether an unclaimed job has waited too long at `now`. A job with an upload
/// under way, a started and a complete job never have.
pub open spec fn expired(entry: WorkerJobEntry, now: u64) -> bool {
    &&& !entry.busy
    &&& match entry.job {
        WorkerJob::Pending { assigned_at, .. } => elapsed(now, assigned_at)
            > UNCLAIMED_PENDING_TIMEOUT,
        WorkerJob::Ready { ready_at, .. } => elapsed(now, ready_at) > UNCLAIMED_READY_TIMEOUT,
        WorkerJob::Started => false,
        WorkerJob::Complete => false,
    }
}

/// Whether an unclaimed job has waited too long at `now`.
fn is_expired(entry: &WorkerJobEntry, now: u64) -> (r: bool)
    ensures
        r == expired(*entry, now),
{
    !entry.busy && match &entry.job {
        WorkerJob::Pending { assigned_at, .. } => elapsed_since(now, *assigned_at)
            > UNCLAIMED_PENDING_TIMEOUT,
        WorkerJob::Ready { ready_at, .. } => elapsed_since(now, *ready_at)
            > UNCLAIMED_READY_TIMEOUT,
        WorkerJob::Started => false,
        WorkerJob::Complete => false,
    }
}

impl LedgerState {
    /// The ledger with no more retired numbers than it may hold.
    pub open spec fn trimmed(self) -> LedgerState {
        let kept = newest(self.retired, self.bound);
        LedgerState {
            retired: kept,
            retired_through: raised(self.retired_through, self.retired.difference(kept)),
            ..self
        }
    }

    /// The ledger after job `id` has left it.
    pub open spec fn retire(self, id: u64) -> LedgerState {
        LedgerState {
            jobs: self.jobs.remove(id),
            retired: self.retired.insert(id),
            ..self
        }.trimmed()
    }

    /// The numbers of the jobs that have waited too long at `now`.
    pub open spec fn overdue(self, now: u64) -> Set<u64> {
        self.jobs.dom().filter(|id: u64| expired(self.jobs[id], now))
    }

    /// The ledger after the jobs that have waited too long have left it.
    pub open spec fn swept(self, now: u64) -> LedgerState {
        LedgerState {
            jobs: self.jobs.remove_keys(self.overdue(now)),
            retired: self.retired.union(self.overdue(now)),
            ..self
        }.trimmed()
    }

    /// The ledger after job `id` was taken in.
    pub open spec fn take_in(self, id: u64, job: WorkerJob) -> LedgerState {
        LedgerState {
            jobs: self.jobs.insert(id, WorkerJobEntry { job, busy: false }),
            next_job_id: if self.next_job_id > id {
                self.next_job_id
            } else {
                (id + 1) as u64
            },
            ..self
        }
    }

    /// The ledger with the entry of job `id` replaced.
    pub open spec fn with_entry(self, id: u64, entry: WorkerJobEntry) -> LedgerState {
        LedgerState { jobs: self.jobs.insert(id, entry), ..self }
    }

    /// Whether `id` is held, or was held and may not be taken again.
    pub open spec fn known(self, id: u64) -> bool {
        ||| self.jobs.contains_key(id)
        ||| self.retired.contains(id)
        ||| (self.retired_through matches Some(floor) && id <= floor)
    }
}

impl View for WorkerLedger {
    type V = LedgerState;

    open spec fn view(&self) -> LedgerState {
        LedgerState {
            jobs: self.jobs@,
            next_job_id: self.next_job_id,
            retired: self.retired@,
            retired_through: self.retired_through,
            bound: self.job_bound as nat,
        }
    }
}

/// The members of a `BTreeSet` are finitely many.
proof fn lemma_set_finite(set: &BTreeSet<u64>)
    ensures
        set@.finite(),
{
    let s = vstd::std_specs::btree::spec_btree_keys_iter(set).remaining();
    assert(s.unref().to_set() == set@);
    vstd::seq_lib::seq_to_set_is_finite(s.unref());
}

/// The least member of a set.
fn least(set: &BTreeSet<u64>) -> (r: Option<u64>)
    ensures
        r is None <==> set@ =~= Set::<u64>::empty(),
        r matches Some(m) ==> set@.contains(m) && forall|x: u64| set@.contains(x) ==> m <= x,
{
    for x in it: set.iter()
        invariant
            it.index() == 0,
            it.seq().unref().to_set() == set@,
            vstd::std_specs::btree::increasing_seq(it.seq()),
    {
        proof {
            let s = it.seq();
            assert(s.unref()[0] == *s[0]);
            assert(s.unref().contains(*s[0]));
            assert(vstd::laws_cmp::obeys_cmp::<u64>());
            assert(vstd::laws_cmp::obeys_cmp::<&u64>());
            assert forall|y: u64| set@.contains(y) implies *x <= y by {
                assert(s.unref().to_set().contains(y));
                let j = choose|j: int| 0 <= j < s.unref().len() && s.unref()[j] == y;
                assert(*s[j] == y);
                if j > 0 {
                    assert(OrdSpec::cmp_spec(&s[0], &s[j]) is Less);
                }
            }
        }
        return Some(*x);
    }
    None
}

/// Cutting the lowest members off until at most `n` are left leaves the `n`
/// greatest.
proof fn lemma_cut_is_newest(s: Set<u64>, cur: Set<u64>, n: nat)
    requires
        s.finite(),
        cur.subset_of(s),
        cur.len() <= n,
        cur == s || cur.len() == n,
        forall|k: u64, e: u64| cur.contains(k) && s.contains(e) && !cur.contains(e) ==> e < k,
    ensures
        cur == newest(s, n),
{
    vstd::set_lib::lemma_set_subset_finite(s, cur);
    assert forall|x: u64| cur.contains(x) == newest(s, n).contains(x) by {
        if cur.contains(x) {
            assert(above(s, x).subset_of(cur.remove(x)));
            vstd::set_lib::lemma_len_subset(above(s, x), cur.remove(x));
        } else if s.contains(x) {
            assert(cur.subset_of(above(s, x)));
            s.lemma_len_filter(|y: u64| y > x);
            vstd::set_lib::lemma_len_subset(cur, above(s, x));
        }
    }
    assert(cur =~= newest(s, n));
}

/// Evicting a number above all that were evicted before raises the floor to at
/// least that number.
proof fn lemma_raised_step(floor: Option<u64>, evicted: Set<u64>, x: u64)
    requires
        evicted.finite(),
        forall|y: u64| evicted.contains(y) ==> y < x,
    ensures
        raised(floor, evicted.insert(x)) == match raised(floor, evicted) {
            Some(f) => if f > x { Some(f) } else { Some(x) },
            None => Some(x),
        },
{
    let e2 = evicted.insert(x);
    assert(is_greatest(e2, x));
    assert(e2.contains(x));
    assert(e2 != Set::<u64>::empty());
    let top2 = choose|m: u64| is_greatest(e2, m);
    assert(top2 == x);
    if evicted != Set::<u64>::empty() {
        lemma_greatest_exists(evicted);
    }
}

/// A finite set that is not empty has a greatest member.
pub(crate) proof fn lemma_greatest_exists(s: Set<u64>)
    requires
        s.finite(),
        s != Set::<u64>::empty(),
    ensures
        exists|m: u64| is_greatest(s, m),
    decreases s.len(),
{
    if s.len() == 0 {
        s.lemma_len0_is_empty();
    }
    let a = s.choose();
    if forall|x: u64| s.contains(x) ==> x <= a {
        assert(is_greatest(s, a));
    } else {
        let b = choose|b: u64| s.contains(b) && b > a;
        let rest = s.remove(a);
        assert(rest.contains(b));
        lemma_greatest_exists(rest);
        let m = choose|m: u64| is_greatest(rest, m);
        assert(rest.contains(m) && b <= m);
        assert forall|x: u64| s.contains(x) implies x <= m by {
            if x != a {
                assert(rest.contains(x));
            }
        }
        assert(is_greatest(s, m));
    }
}

/// A ledger with no jobs, which holds at most `job_bound` of them.
pub open spec fn empty_ledger(job_bound: usize) -> LedgerState {
    LedgerState {
        jobs: Map::empty(),
        next_job_id: 0,
        retired: Set::empty(),
        retired_through: None,
        bound: job_bound as nat,
    }
}

impl WorkerLedger {
    /// A ledger with no jobs, which holds at most `job_bound` of them.
    pub fn new(job_bound: usize) -> (r: WorkerLedger)
        ensures
            r@ == empty_ledger(job_bound),
            r@ == (LedgerState {
                jobs: Map::empty(),
                next_job_id: 0,
                retired: Set::empty(),
                retired_through: None,
                bound: job_bound as nat,
            }),
    {
        WorkerLedger {
            jobs: BTreeMap::new(),
            next_job_id: 0,
            retired: BTreeSet::new(),
            retired_through: None,
            job_bound,
        }
    }

    /// Forgets the lowest retired numbers until no more than the bound are left,
    /// and raises the floor to the highest one forgotten.
    pub fn trim_retired(&mut self)
        ensures
            final(self)@ == old(self)@.trimmed(),
    {
        let ghost s = self.retired@;
        let ghost floor = self.retired_through;
        proof {
            lemma_set_finite(&self.retired);
            assert(s.difference(s) =~= Set::<u64>::empty());
        }
        while self.retired.len() > self.job_bound
            invariant
                s.finite(),
                s == old(self).retired@,
                floor == old(self).retired_through,
                self.jobs == old(self).jobs,
                self.next_job_id == old(self).next_job_id,
                self.job_bound == old(self).job_bound,
                self.retired@.subset_of(s),
                self.retired@ == s || self.retired@.len() >= self.job_bound,
                forall|k: u64, e: u64|
                    self.retired@.contains(k) && s.contains(e) && !self.retired@.contains(e) ==> e
                        < k,
                self.retired_through == raised(floor, s.difference(self.retired@)),
            decreases self.retired@.len(),
        {
            let ghost cur = self.retired@;
            proof {
                vstd::set_lib::lemma_set_subset_finite(s, cur);
            }
            let evicted: u64 = match least(&self.retired) {
                Some(evicted) => evicted,
                None => {
                    return ;
                },
            };
            self.retired.remove(&evicted);
            proof {
                lemma_raised_step(floor, s.difference(cur), evicted);
                assert(s.difference(self.retired@) =~= s.difference(cur).insert(evicted));
            }
            self.retired_through = match self.retired_through {
                Some(floor) => if floor > evicted {
                    Some(floor)
                } else {
                    Some(evicted)
                },
                None => Some(evicted),
            };
        }
        proof {
            lemma_cut_is_newest(s, self.retired@, self.job_bound as nat);
        }
    }

    /// Takes job `id` off the ledger and remembers its number.
    pub fn retire(&mut self, id: JobId)
        ensures
            final(self)@ == old(self)@.retire(id.0),
    {
        self.jobs.remove(&id.0);
        self.retired.insert(id.0);
        self.trim_retired();
    }

    /// The numbers of the jobs that have waited too long at `now`.
    fn find_expired(&self, now: u64) -> (r: Vec<u64>)
        ensures
            r@.to_set() == self@.overdue(now),
    {
        let mut stale: Vec<u64> = Vec::new();
        for (id, entry) in it: self.jobs.iter()
            invariant
                it.seq() == vstd::std_specs::btree::spec_btree_map_iter(&self.jobs).remaining(),
                forall|i: int|
                    0 <= i < stale@.len() ==> self@.overdue(now).contains(#[trigger] stale@[i]),
                forall|j: int|
                    0 <= j < it.index() && expired(*it.seq()[j].1, now) ==> stale@.contains(
                        *(#[trigger] it.seq()[j]).0,
                    ),
        {
            proof {
                assert(self.jobs@.contains_key(*it.seq()[it.index()].0));
            }
            let ghost before = stale@;
            if is_expired(entry, now) {
                stale.push(*id);
                proof {
                    assert(stale@.last() == *id);
                }
            }
            proof {
                assert forall|j: int|
                    0 <= j < it.index() + 1 && expired(*it.seq()[j].1, now) implies stale@.contains(
                    *(#[trigger] it.seq()[j]).0,
                ) by {
                    if j < it.index() {
                        let k = choose|k: int| 0 <= k < before.len() && before[k] == *it.seq()[j].0;
                        assert(stale@[k] == before[k]);
                    }
                }
            }
        }
        proof {
            let v = vstd::std_specs::btree::spec_btree_map_iter(&self.jobs).remaining();
            assert forall|id: u64| self@.overdue(now).contains(id) implies stale@.contains(id) by {
                assert(v.contains((&id, &self.jobs@[id])));
                let j = choose|j: int| 0 <= j < v.len() && v[j] == (&id, &self.jobs@[id]);
                assert(*v[j].0 == id && *v[j].1 == self.jobs@[id]);
            }
            assert(stale@.to_set() =~= self@.overdue(now));
        }
        stale
    }

    /// Takes the jobs off the ledger that have waited too long at `now`, and
    /// remembers their numbers.
    pub fn sweep_expired(&mut self, now: u64)
        ensures
            final(self)@ == old(self)@.swept(now),
    {
        let stale = self.find_expired(now);
        let ghost gone = self@.overdue(now);
        let mut i: usize = 0;
        while i < stale.len()
            invariant
                i <= stale.len(),
                gone == old(self)@.overdue(now),
                stale@.to_set() == gone,
                self.next_job_id == old(self).next_job_id,
                self.job_bound == old(self).job_bound,
                self.retired_through == old(self).retired_through,
                self.jobs@ == old(self).jobs@.remove_keys(stale@.take(i as int).to_set()),
                self.retired@ == old(self).retired@.union(stale@.take(i as int).to_set()),
            decreases stale.len() - i,
        {
            let id: u64 = stale[i];
            self.jobs.remove(&id);
            self.retired.insert(id);
            proof {
                let next = stale@.take(i + 1);
                assert(next =~= stale@.take(i as int).push(id));
                stale@.take(i as int).lemma_push_to_set_commute(id);
                assert(self.jobs@ =~= old(self).jobs@.remove_keys(next.to_set()));
                assert(self.retired@ =~= old(self).retired@.union(next.to_set()));
            }
            i += 1;
        }
        proof {
            assert(stale@.take(i as int) =~= stale@);
        }
        self.trim_retired();
    }
}

} // verus!
