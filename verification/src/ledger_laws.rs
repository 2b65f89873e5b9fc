//! What holds of a worker's ledger over any course of events.

use vstd::prelude::*;

use crate::dist::{Toolchain, WorkerJobSnapshot};
use crate::ledger::{
    above, expired, is_greatest, lemma_greatest_exists, newest, LedgerState, WorkerJob,
    WorkerJobEntry,
};
use crate::server::is_snapshot;

verus! {

/// One thing that can happen to a ledger.
pub enum LedgerEvent {
    /// A job is taken in.
    TakeIn { id: u64, job: WorkerJob },
    /// Jobs that have waited too long leave.
    Sweep { now: u64 },
    /// A job leaves.
    Retire { id: u64 },
    /// An upload is let in, its bytes arrive, it ends.
    UploadBegun { id: u64 },
    UploadArrived { id: u64, toolchain: Toolchain, now: u64 },
    UploadReleased { id: u64, now: u64 },
    /// A run claims the job, and ends.
    RunClaimed { id: u64 },
    RunEnded { id: u64 },
}

impl LedgerState {
    /// Whether a worker lets `event` happen to the ledger as it is. A number is
    /// taken in only if it is not known, there is room and a higher number is
    /// left; whatever else speaks of a job speaks of one that is held.
    pub open spec fn allows(self, event: LedgerEvent) -> bool {
        match event {
            LedgerEvent::TakeIn { id, .. } => {
                &&& !self.known(id)
                &&& self.jobs.len() < self.bound
                &&& id < u64::MAX
            },
            LedgerEvent::Sweep { .. } => true,
            LedgerEvent::Retire { id } => self.jobs.contains_key(id),
            LedgerEvent::UploadBegun { id } => self.jobs.contains_key(id),
            LedgerEvent::UploadArrived { id, .. } => self.jobs.contains_key(id),
            LedgerEvent::UploadReleased { .. } => true,
            LedgerEvent::RunClaimed { id } => self.jobs.contains_key(id),
            LedgerEvent::RunEnded { id } => self.jobs.contains_key(id),
        }
    }

    /// The ledger after `event`.
    pub open spec fn after(self, event: LedgerEvent) -> LedgerState {
        match event {
            LedgerEvent::TakeIn { id, job } => self.take_in(id, job),
            LedgerEvent::Sweep { now } => self.swept(now),
            LedgerEvent::Retire { id } => self.retire(id),
            LedgerEvent::UploadBegun { id } => self.upload_begun(id),
            LedgerEvent::UploadArrived { id, toolchain, now } => self.upload_arrived(
                id,
                toolchain,
                now,
            ),
            LedgerEvent::UploadReleased { id, now } => self.upload_released(id, now),
            LedgerEvent::RunClaimed { id } => self.run_claimed(id),
            LedgerEvent::RunEnded { id } => self.run_ended(id),
        }
    }

    /// Whether a worker lets all of `events` happen, one after the other.
    pub open spec fn allows_all(self, events: Seq<LedgerEvent>) -> bool
        decreases events.len(),
    {
        events.len() == 0 || {
            &&& self.allows(events[0])
            &&& self.after(events[0]).allows_all(events.drop_first())
        }
    }

    /// The ledger after all of `events`, one after the other.
    pub open spec fn after_all(self, events: Seq<LedgerEvent>) -> LedgerState
        decreases events.len(),
    {
        if events.len() == 0 {
            self
        } else {
            self.after(events[0]).after_all(events.drop_first())
        }
    }

    /// What every ledger of a worker satisfies: it holds finitely many jobs and
    /// numbers, no more than the bound of each; no number is both held and
    /// retired; and every number it knows is below the next one.
    pub open spec fn inv(self) -> bool {
        &&& self.jobs.dom().finite()
        &&& self.retired.finite()
        &&& self.jobs.len() <= self.bound
        &&& self.retired.len() <= self.bound
        &&& self.jobs.dom().disjoint(self.retired)
        &&& forall|id: u64| #[trigger] self.known(id) ==> id < self.next_job_id
    }
}

/// The members kept are the greatest, as many as there is room for.
pub(crate) proof fn lemma_newest(s: Set<u64>, n: nat)
    requires
        s.finite(),
    ensures
        newest(s, n).finite(),
        newest(s, n).subset_of(s),
        newest(s, n).len() <= n,
        s.len() <= n ==> newest(s, n) == s,
        forall|k: u64, e: u64|
            newest(s, n).contains(k) && s.contains(e) && !newest(s, n).contains(e) ==> e < k,
    decreases s.len(),
{
    s.lemma_len_filter(|x: u64| above(s, x).len() < n);
    let kept = newest(s, n);
    assert forall|k: u64, e: u64|
        kept.contains(k) && s.contains(e) && !kept.contains(e) implies e < k by {
        if e >= k {
            assert(above(s, e).subset_of(above(s, k)));
            s.lemma_len_filter(|y: u64| y > k);
            s.lemma_len_filter(|y: u64| y > e);
            vstd::set_lib::lemma_len_subset(above(s, e), above(s, k));
        }
    }
    assert(s.len() <= n ==> kept == s) by {
        if s.len() <= n {
            assert forall|x: u64| s.contains(x) implies kept.contains(x) by {
                assert(above(s, x).subset_of(s.remove(x)));
                vstd::set_lib::lemma_len_subset(above(s, x), s.remove(x));
            }
            assert(kept =~= s);
        }
    }
    if kept == Set::<u64>::empty() {
    } else {
        // The least member kept has all the others above it.
        assert(exists|m: u64| kept.contains(m) && forall|x: u64| kept.contains(x) ==> m <= x) by {
            lemma_least_exists(kept);
        }
        let m = choose|m: u64| kept.contains(m) && forall|x: u64| kept.contains(x) ==> m <= x;
        assert(kept.remove(m).subset_of(above(s, m)));
        s.lemma_len_filter(|y: u64| y > m);
        vstd::set_lib::lemma_len_subset(kept.remove(m), above(s, m));
    }
}

/// A finite set that is not empty has a least member.
pub(crate) proof fn lemma_least_exists(s: Set<u64>)
    requires
        s.finite(),
        s != Set::<u64>::empty(),
    ensures
        exists|m: u64| s.contains(m) && forall|x: u64| s.contains(x) ==> m <= x,
    decreases s.len(),
{
    if s.len() == 0 {
        s.lemma_len0_is_empty();
    }
    let a = s.choose();
    if forall|x: u64| s.contains(x) ==> a <= x {
        assert(s.contains(a));
    } else {
        let b = choose|b: u64| s.contains(b) && b < a;
        let rest = s.remove(a);
        assert(rest.contains(b));
        lemma_least_exists(rest);
        let m = choose|m: u64| rest.contains(m) && forall|x: u64| rest.contains(x) ==> m <= x;
        assert(m <= b);
        assert forall|x: u64| s.contains(x) implies m <= x by {
            if x != a {
                assert(rest.contains(x));
            }
        }
        assert(s.contains(m));
    }
}

/// What trimming does to the memory of a ledger.
proof fn lemma_trimmed(s: LedgerState, id: u64)
    requires
        s.retired.finite(),
    ensures
        s.trimmed().retired.finite(),
        s.trimmed().retired.len() <= s.bound,
        s.trimmed().retired.subset_of(s.retired),
        s.known(id) ==> s.trimmed().known(id),
        s.retired_through matches Some(f) ==> s.trimmed().retired_through matches Some(g) && f <= g,
        s.trimmed().known(id) && !s.known(id) ==> exists|e: u64|
            id < e && s.retired.contains(e) && !s.trimmed().retired.contains(e),
        s.retired.len() <= s.bound ==> s.trimmed() == s,
{
    lemma_newest(s.retired, s.bound);
    let kept = newest(s.retired, s.bound);
    let evicted = s.retired.difference(kept);
    if evicted != Set::<u64>::empty() {
        lemma_greatest_exists(evicted);
        let top = choose|m: u64| is_greatest(evicted, m);
        assert(is_greatest(evicted, top));
        assert(evicted.contains(top));
        if s.retired.contains(id) && !kept.contains(id) {
            assert(evicted.contains(id));
        }
        if s.trimmed().known(id) && !s.known(id) {
            assert(id <= top);
            assert(id != top);
        }
    }
    if s.retired.contains(id) && !kept.contains(id) {
        assert(evicted.contains(id));
    }
    if s.retired.len() <= s.bound {
        assert(evicted =~= Set::<u64>::empty());
        assert(s.trimmed() =~= s);
    }
}

/// A number that a ledger knows stays known, whatever happens.
pub proof fn law_known_numbers_stay_known(s: LedgerState, event: LedgerEvent, id: u64)
    requires
        s.jobs.dom().finite(),
        s.retired.finite(),
        s.known(id),
    ensures
        s.after(event).known(id),
        s.after(event).jobs.dom().finite(),
        s.after(event).retired.finite(),
{
    match event {
        LedgerEvent::Sweep { now } => {
            let gone = s.overdue(now);
            s.jobs.dom().lemma_len_filter(|i: u64| expired(s.jobs[i], now));
            let mid = LedgerState {
                jobs: s.jobs.remove_keys(gone),
                retired: s.retired.union(gone),
                ..s
            };
            assert(mid.known(id));
            assert(mid.jobs.dom() =~= s.jobs.dom().difference(gone));
            lemma_trimmed(mid, id);
        },
        LedgerEvent::Retire { id: gone } => {
            let mid = LedgerState {
                jobs: s.jobs.remove(gone),
                retired: s.retired.insert(gone),
                ..s
            };
            assert(mid.known(id));
            lemma_trimmed(mid, id);
        },
        _ => {},
    }
}

/// A number that a ledger knows stays known over any course of events.
pub proof fn law_known_numbers_stay_known_forever(
    s: LedgerState,
    events: Seq<LedgerEvent>,
    id: u64,
)
    requires
        s.jobs.dom().finite(),
        s.retired.finite(),
        s.known(id),
    ensures
        s.after_all(events).known(id),
        s.after_all(events).jobs.dom().finite(),
        s.after_all(events).retired.finite(),
    decreases events.len(),
{
    if events.len() > 0 {
        law_known_numbers_stay_known(s, events[0], id);
        law_known_numbers_stay_known_forever(s.after(events[0]), events.drop_first(), id);
    }
}

/// A job is taken in at most once: once its number was taken in, then over any
/// course of events a worker that looks at it again, at any time, finds it known
/// and turns it down.
pub proof fn law_a_number_is_taken_in_once(
    s: LedgerState,
    id: u64,
    job: WorkerJob,
    events: Seq<LedgerEvent>,
    now: u64,
)
    requires
        s.jobs.dom().finite(),
        s.retired.finite(),
    ensures
        s.take_in(id, job).after_all(events).swept(now).known(id),
        !s.take_in(id, job).after_all(events).swept(now).allows(
            LedgerEvent::TakeIn { id, job },
        ),
{
    let taken = s.take_in(id, job);
    law_known_numbers_stay_known_forever(taken, events, id);
    law_known_numbers_stay_known(taken.after_all(events), LedgerEvent::Sweep { now }, id);
}

/// A retired number is turned down over any course of events, even when it was
/// retired long after higher numbers were forgotten.
pub proof fn law_a_retired_number_is_never_taken_in(
    s: LedgerState,
    id: u64,
    events: Seq<LedgerEvent>,
    now: u64,
)
    requires
        s.jobs.dom().finite(),
        s.retired.finite(),
    ensures
        s.retire(id).after_all(events).swept(now).known(id),
{
    let mid = LedgerState { jobs: s.jobs.remove(id), retired: s.retired.insert(id), ..s };
    lemma_trimmed(mid, id);
    law_known_numbers_stay_known_forever(s.retire(id), events, id);
    law_known_numbers_stay_known(s.retire(id).after_all(events), LedgerEvent::Sweep { now }, id);
}

/// An empty ledger satisfies the invariant, and everything a worker lets happen
/// keeps it.
pub proof fn law_invariant_is_kept(s: LedgerState, event: LedgerEvent)
    requires
        s.inv(),
        s.allows(event),
    ensures
        s.after(event).inv(),
        s.after(event).bound == s.bound,
        s.next_job_id <= s.after(event).next_job_id,
{
    let t = s.after(event);
    match event {
        LedgerEvent::Sweep { now } => {
            let gone = s.overdue(now);
            s.jobs.dom().lemma_len_filter(|i: u64| expired(s.jobs[i], now));
            let mid = LedgerState {
                jobs: s.jobs.remove_keys(gone),
                retired: s.retired.union(gone),
                ..s
            };
            assert(mid.jobs.dom() =~= s.jobs.dom().difference(gone));
            vstd::set_lib::lemma_len_subset(mid.jobs.dom(), s.jobs.dom());
            lemma_trimmed(mid, 0);
            assert forall|id: u64| #[trigger] t.known(id) implies id < t.next_job_id by {
                lemma_trimmed(mid, id);
                lemma_known_below(s, mid, t, id);
            }
        },
        LedgerEvent::Retire { id: gone } => {
            let mid = LedgerState {
                jobs: s.jobs.remove(gone),
                retired: s.retired.insert(gone),
                ..s
            };
            lemma_trimmed(mid, 0);
            assert forall|id: u64| #[trigger] t.known(id) implies id < t.next_job_id by {
                lemma_trimmed(mid, id);
                lemma_known_below(s, mid, t, id);
            }
        },
        LedgerEvent::TakeIn { id: new, job } => {
            assert forall|id: u64| #[trigger] t.known(id) implies id < t.next_job_id by {
                if id != new {
                    assert(s.known(id));
                }
            }
        },
        LedgerEvent::UploadBegun { id: i } => {
            lemma_entry_replaced(s, t, i);
        },
        LedgerEvent::UploadArrived { id: i, .. } => {
            lemma_entry_replaced(s, t, i);
        },
        LedgerEvent::UploadReleased { id: i, .. } => {
            if s.jobs.contains_key(i) {
                lemma_entry_replaced(s, t, i);
            }
        },
        LedgerEvent::RunClaimed { id: i } => {
            lemma_entry_replaced(s, t, i);
        },
        LedgerEvent::RunEnded { id: i } => {
            lemma_entry_replaced(s, t, i);
        },
    }
}

/// A number that trimming made known lies below one that was known.
proof fn lemma_known_below(s: LedgerState, mid: LedgerState, t: LedgerState, id: u64)
    requires
        s.inv(),
        t == mid.trimmed(),
        mid.next_job_id == s.next_job_id,
        mid.retired_through == s.retired_through,
        mid.retired.finite(),
        forall|x: u64| mid.retired.contains(x) ==> s.known(x),
        forall|x: u64| mid.jobs.contains_key(x) ==> s.known(x),
        t.known(id),
    ensures
        id < t.next_job_id,
{
    lemma_trimmed(mid, id);
    if mid.known(id) {
        assert(s.known(id));
    } else {
        let e = choose|e: u64|
            id < e && mid.retired.contains(e) && !mid.trimmed().retired.contains(e);
        assert(s.known(e));
    }
}

/// Replacing the entry of a job that is held changes no number.
proof fn lemma_entry_replaced(s: LedgerState, t: LedgerState, i: u64)
    requires
        s.inv(),
        s.jobs.contains_key(i),
        t.next_job_id == s.next_job_id,
        t.retired == s.retired,
        t.retired_through == s.retired_through,
        t.bound == s.bound,
        t.jobs.dom() =~= s.jobs.dom(),
    ensures
        t.inv(),
{
    assert forall|id: u64| #[trigger] t.known(id) implies id < t.next_job_id by {
        assert(s.known(id));
    }
}

/// The invariant holds over any course of events, from an empty ledger on.
pub proof fn law_invariant_holds_forever(bound: nat, events: Seq<LedgerEvent>)
    requires
        (LedgerState {
            jobs: Map::empty(),
            next_job_id: 0,
            retired: Set::empty(),
            retired_through: None,
            bound,
        }).allows_all(events),
    ensures
        (LedgerState {
            jobs: Map::empty(),
            next_job_id: 0,
            retired: Set::empty(),
            retired_through: None,
            bound,
        }).after_all(events).inv(),
{
    let empty = LedgerState {
        jobs: Map::empty(),
        next_job_id: 0,
        retired: Set::empty(),
        retired_through: None,
        bound,
    };
    assert(empty.inv());
    lemma_invariant_forever(empty, events);
}

/// The invariant holds over any course of events, from any ledger that has it.
proof fn lemma_invariant_forever(s: LedgerState, events: Seq<LedgerEvent>)
    requires
        s.inv(),
        s.allows_all(events),
    ensures
        s.after_all(events).inv(),
    decreases events.len(),
{
    if events.len() > 0 {
        law_invariant_is_kept(s, events[0]);
        lemma_invariant_forever(s.after(events[0]), events.drop_first());
    }
}

/// Expiry keeps every job that has an upload under way, runs, or is complete, as
/// it is.
pub proof fn law_expiry_keeps_active_work(s: LedgerState, now: u64, id: u64)
    requires
        s.jobs.contains_key(id),
        s.jobs[id].busy || s.jobs[id].job is Started || s.jobs[id].job is Complete,
    ensures
        s.swept(now).jobs.contains_key(id),
        s.swept(now).jobs[id] == s.jobs[id],
{
}

/// Expiry takes off a job that has waited too long, and nothing else: what stays
/// is as it was, and no job is added.
pub proof fn law_expiry_takes_off_just_the_overdue(s: LedgerState, now: u64, id: u64)
    ensures
        s.swept(now).jobs.contains_key(id) <==> s.jobs.contains_key(id) && !expired(
            s.jobs[id],
            now,
        ),
        s.swept(now).jobs.contains_key(id) ==> s.swept(now).jobs[id] == s.jobs[id],
        s.swept(now).next_job_id == s.next_job_id,
{
}

/// The memory of retired numbers never exceeds the bound.
pub proof fn law_memory_is_bounded(s: LedgerState, now: u64, id: u64)
    requires
        s.jobs.dom().finite(),
        s.retired.finite(),
    ensures
        s.retire(id).retired.len() <= s.bound,
        s.swept(now).retired.len() <= s.bound,
{
    let gone = s.overdue(now);
    s.jobs.dom().lemma_len_filter(|i: u64| expired(s.jobs[i], now));
    lemma_trimmed(
        LedgerState { jobs: s.jobs.remove_keys(gone), retired: s.retired.union(gone), ..s },
        0,
    );
    lemma_trimmed(
        LedgerState { jobs: s.jobs.remove(id), retired: s.retired.insert(id), ..s },
        0,
    );
}

/// The floor below which numbers are too old never falls.
pub proof fn law_floor_never_falls(s: LedgerState, event: LedgerEvent)
    requires
        s.jobs.dom().finite(),
        s.retired.finite(),
        s.retired_through is Some,
    ensures
        s.after(event).retired_through matches Some(floor) && s.retired_through->0 <= floor,
{
    match event {
        LedgerEvent::Sweep { now } => {
            let gone = s.overdue(now);
            s.jobs.dom().lemma_len_filter(|i: u64| expired(s.jobs[i], now));
            lemma_trimmed(
                LedgerState { jobs: s.jobs.remove_keys(gone), retired: s.retired.union(gone), ..s },
                0,
            );
        },
        LedgerEvent::Retire { id } => {
            lemma_trimmed(
                LedgerState { jobs: s.jobs.remove(id), retired: s.retired.insert(id), ..s },
                0,
            );
        },
        _ => {},
    }
}

/// As long as the memory has room, a retirement shuts out the retired number and
/// no other, so that numbers may still come in any order.
pub proof fn law_room_left_keeps_other_numbers_open(s: LedgerState, gone: u64, id: u64)
    requires
        s.retired.finite(),
        s.retired.insert(gone).len() <= s.bound,
    ensures
        s.retire(gone).known(id) <==> s.known(id) || id == gone,
{
    let mid = LedgerState { jobs: s.jobs.remove(gone), retired: s.retired.insert(gone), ..s };
    lemma_trimmed(mid, id);
}

/// A number above everything a ledger knows is never shut out by an expiry or by
/// the retirement of a known number.
pub proof fn law_higher_numbers_stay_open(s: LedgerState, gone: u64, now: u64, id: u64)
    requires
        s.inv(),
        s.jobs.contains_key(gone),
        s.next_job_id <= id,
    ensures
        !s.retire(gone).known(id),
        !s.swept(now).known(id),
{
    law_invariant_is_kept(s, LedgerEvent::Retire { id: gone });
    law_invariant_is_kept(s, LedgerEvent::Sweep { now });
}

/// A ledger that keeps its invariant can always be listed.
pub proof fn law_snapshot_never_exceeds_the_bound(s: LedgerState, now: u64)
    requires
        s.inv(),
    ensures
        s.swept(now).jobs.len() <= s.swept(now).bound,
{
    law_invariant_is_kept(s, LedgerEvent::Sweep { now });
}

/// Two snapshots of the same jobs at the same time are the same list.
pub proof fn law_snapshot_is_unique(
    jobs: Map<u64, WorkerJobEntry>,
    now: u64,
    a: Seq<WorkerJobSnapshot>,
    b: Seq<WorkerJobSnapshot>,
)
    requires
        is_snapshot(jobs, now, a),
        is_snapshot(jobs, now, b),
    ensures
        a == b,
    decreases a.len(),
{
    lemma_snapshot_prefix(jobs, now, a, b, a.len() as int);
    lemma_snapshot_prefix(jobs, now, b, a, b.len() as int);
    assert(a =~= b);
}

/// The first `n` records of one snapshot are the first `n` of any other.
proof fn lemma_snapshot_prefix(
    jobs: Map<u64, WorkerJobEntry>,
    now: u64,
    a: Seq<WorkerJobSnapshot>,
    b: Seq<WorkerJobSnapshot>,
    n: int,
)
    requires
        is_snapshot(jobs, now, a),
        is_snapshot(jobs, now, b),
        0 <= n <= a.len(),
    ensures
        n <= b.len(),
        forall|i: int| 0 <= i < n ==> a[i] == b[i],
    decreases n,
{
    if n > 0 {
        lemma_snapshot_prefix(jobs, now, a, b, n - 1);
        let k = n - 1;
        let id = a[k].job_id.0;
        assert(jobs.contains_key(id));
        let j = choose|j: int| 0 <= j < b.len() && (#[trigger] b[j]).job_id.0 == id;
        assert(b[j] == a[k]);
        if j < k {
            assert(a[j].job_id.0 < a[k].job_id.0);
        }
        if j > k {
            let other = b[k].job_id.0;
            assert(other < b[j].job_id.0);
            assert(jobs.contains_key(other));
            let m = choose|m: int| 0 <= m < a.len() && (#[trigger] a[m]).job_id.0 == other;
            if m < k {
                assert(b[m].job_id.0 < b[k].job_id.0);
            } else {
                assert(m == k || a[k].job_id.0 < a[m].job_id.0);
            }
        }
    }
}

/// A run is claimed once: a second request, at any time before the job leaves,
/// finds it started or complete and is turned down.
pub proof fn law_a_run_is_claimed_once(s: LedgerState, id: u64, now: u64)
    requires
        s.jobs.contains_key(id),
    ensures
        s.run_claimed(id).swept(now).jobs.contains_key(id),
        s.run_claimed(id).swept(now).jobs[id].job is Started,
        s.run_claimed(id).run_ended(id).swept(now).jobs.contains_key(id),
        s.run_claimed(id).run_ended(id).swept(now).jobs[id].job is Complete,
{
    law_expiry_keeps_active_work(s.run_claimed(id), now, id);
    law_expiry_keeps_active_work(s.run_claimed(id).run_ended(id), now, id);
}

/// The end of an upload undoes its beginning: a pending job is as it was before,
/// and a ready one waits from now on.
pub proof fn law_release_undoes_the_busy_mark(s: LedgerState, id: u64, now: u64)
    requires
        s.jobs.contains_key(id),
        !s.jobs[id].busy,
    ensures
        s.jobs[id].job is Pending ==> s.upload_begun(id).upload_released(id, now) == s,
        s.jobs[id].job matches WorkerJob::Ready { toolchain, .. } ==> s.upload_begun(
            id,
        ).upload_released(id, now) == s.with_entry(
            id,
            WorkerJobEntry { job: WorkerJob::Ready { toolchain, ready_at: now }, busy: false },
        ),
{
    if s.jobs[id].job is Pending {
        assert(s.upload_begun(id).upload_released(id, now).jobs =~= s.jobs);
    } else if let WorkerJob::Ready { toolchain, .. } = s.jobs[id].job {
        assert(s.upload_begun(id).upload_released(id, now).jobs =~= s.with_entry(
            id,
            WorkerJobEntry { job: WorkerJob::Ready { toolchain, ready_at: now }, busy: false },
        ).jobs);
    }
}

} // verus!
