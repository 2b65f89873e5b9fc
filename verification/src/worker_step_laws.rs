//! What each step of a worker does to its ledger, and what requests are answered.
//!
//! The times in these laws are nanoseconds: a pending job may wait for five minutes, a
//! ready one for one minute.

use vstd::prelude::*;

use crate::dist::{
    AssignJobResult, JobId, JobState, ServerWorkSnapshot, SubmitToolchainResult, Toolchain,
    WorkerJobSnapshot, WorkerJobSnapshotState,
};
use crate::ledger::{
    above, empty_ledger, expired, is_greatest, lemma_greatest_exists, newest, LedgerState,
    WorkerJob, WorkerJobEntry, WorkerLedger,
};
use crate::ledger_laws::{lemma_least_exists, lemma_newest};
use crate::run_job::{RunJobError, RunStart};
use crate::server::{is_snapshot, AssignJobError, Server, SnapshotError};
use crate::upload::{SubmitToolchainError, UploadStart};

verus! {

/// The model of a ledger holds what the ledger holds.
pub proof fn law_a_ledger_is_read_as_it_is(ledger: WorkerLedger)
    ensures
        ledger@.jobs == ledger.jobs@,
        ledger@.next_job_id == ledger.next_job_id,
        ledger@.retired == ledger.retired@,
        ledger@.retired_through == ledger.retired_through,
        ledger@.bound == ledger.job_bound,
{
}

/// A new worker holds no job and knows no number: whatever job it is given first it takes in,
/// unless it may hold none or the number is the last of all.
pub proof fn law_what_a_new_worker_knows(job_bound: usize, id: u64, need_toolchain: bool)
    ensures
        ({
            let s = empty_ledger(job_bound);
            &&& s.jobs.len() == 0
            &&& s.next_job_id == 0
            &&& s.bound == job_bound
            &&& !s.jobs.contains_key(id)
            &&& !s.retired.contains(id)
            &&& s.retired_through is None
            &&& s.assign_answer(id, need_toolchain) is Ok <==> job_bound > 0 && id < u64::MAX
        }),
{
}

/// A worker process is told by its number and the form of its snapshots.
pub proof fn law_a_worker_keeps_its_identity(a: Server, b: Server)
    ensures
        a.same_worker(b) <==> a.server_nonce == b.server_nonce && a.snapshot_version
            == b.snapshot_version,
{
}

/// An assignment is turned down as duplicate or stale exactly if the worker holds the
/// number, remembers it as retired, or has a floor at or above it. Otherwise it is turned
/// down only if the worker is full or the number is the last one there is. So a number
/// that is free is taken in whatever higher numbers came before.
pub proof fn law_what_an_assignment_is_answered(s: LedgerState, id: u64, need_toolchain: bool)
    ensures
        ({
            let r = s.assign_answer(id, need_toolchain);
            let taken = s.jobs.contains_key(id) || s.retired.contains(id) || (s.retired_through
                is Some && id <= s.retired_through->0);
            &&& r == Err::<AssignJobResult, AssignJobError>(
                AssignJobError::DuplicateOrStale { job_id: JobId(id) },
            ) <==> taken
            &&& r == Err::<AssignJobResult, AssignJobError>(AssignJobError::ActiveJobBound)
                <==> !taken && s.jobs.len() >= s.bound
            &&& r == Err::<AssignJobResult, AssignJobError>(AssignJobError::JobIdExhausted)
                <==> !taken && s.jobs.len() < s.bound && id == u64::MAX
            &&& r is Ok <==> !taken && s.jobs.len() < s.bound && id < u64::MAX
            &&& r matches Ok(answer) ==> answer.need_toolchain == need_toolchain && (need_toolchain
                ==> answer.state == JobState::Pending) && (!need_toolchain ==> answer.state
                == JobState::Ready)
        }),
{
}

/// A number is turned down as known exactly if the worker holds it, remembers it as
/// retired, or has a floor at or above it.
pub proof fn law_which_numbers_are_known(s: LedgerState, id: u64)
    ensures
        s.known(id) <==> s.jobs.contains_key(id) || s.retired.contains(id) || (s.retired_through
            is Some && id <= s.retired_through->0),
{
}

/// A job that is taken in is on the ledger from then on, pending or ready since then and
/// not busy; the next number rises above its number if it is not there yet. Nothing else
/// changes. An assignment that is turned down changes nothing at all.
pub proof fn law_what_an_assignment_does(
    s: LedgerState,
    id: u64,
    toolchain: Toolchain,
    need_toolchain: bool,
    at: u64,
)
    ensures
        ({
            let t = s.assigned(id, toolchain, need_toolchain, at);
            let r = s.assign_answer(id, need_toolchain);
            &&& r is Err ==> t == s
            &&& r is Ok ==> {
                &&& t.jobs.contains_key(id)
                &&& !t.jobs[id].busy
                &&& need_toolchain ==> t.jobs[id].job == (WorkerJob::Pending {
                    toolchain,
                    assigned_at: at,
                })
                &&& !need_toolchain ==> t.jobs[id].job == (WorkerJob::Ready {
                    toolchain,
                    ready_at: at,
                })
                &&& t.next_job_id > id
                &&& t.next_job_id >= s.next_job_id
                &&& t.next_job_id == s.next_job_id || t.next_job_id == id + 1
            }
            &&& forall|x: u64|
                x != id ==> (#[trigger] t.jobs.contains_key(x) <==> s.jobs.contains_key(x))
            &&& forall|x: u64|
                x != id && #[trigger] t.jobs.contains_key(x) ==> t.jobs[x] == s.jobs[x]
            &&& t.retired == s.retired
            &&& t.retired_through == s.retired_through
            &&& t.bound == s.bound
        }),
{
}

/// A number that a worker with room has never seen is taken in, whatever numbers it took
/// before and whatever jobs have waited for too long by then.
pub proof fn law_a_free_number_is_taken_in(
    s: LedgerState,
    id: u64,
    toolchain: Toolchain,
    need_toolchain: bool,
    now: u64,
    at: u64,
)
    requires
        s.jobs.dom().finite(),
        s.retired.finite(),
        !s.jobs.contains_key(id),
        !s.retired.contains(id),
        s.retired_through is Some ==> s.retired_through->0 < id,
        s.jobs.len() < s.bound,
        s.jobs.len() + s.retired.len() <= s.bound,
        id < u64::MAX,
    ensures
        s.swept(now).assign_answer(id, need_toolchain) is Ok,
        s.swept(now).assigned(id, toolchain, need_toolchain, at).jobs.contains_key(id),
{
    law_what_a_sweep_does(s, now);
    let t = s.swept(now);
    let gone = s.jobs.dom().filter(|x: u64| !t.jobs.contains_key(x));
    s.jobs.dom().lemma_len_filter(|x: u64| !t.jobs.contains_key(x));
    let all = Set::new(
        |x: u64| s.retired.contains(x) || (s.jobs.contains_key(x) && !t.jobs.contains_key(x)),
    );
    assert(all =~= s.retired.union(gone));
    vstd::set_lib::lemma_len_union(s.retired, gone);
    assert(t.jobs.dom().subset_of(s.jobs.dom()));
    vstd::set_lib::lemma_len_subset(t.jobs.dom(), s.jobs.dom());
    assert(t.retired.subset_of(all));
    vstd::set_lib::lemma_set_subset_finite(all, t.retired);
    if t.retired != all {
        assert(exists|x: u64| all.contains(x) && !t.retired.contains(x)) by {
            if forall|x: u64| all.contains(x) ==> t.retired.contains(x) {
                assert(t.retired =~= all);
            }
        }
        let x = choose|x: u64| all.contains(x) && !t.retired.contains(x);
        assert(t.retired.subset_of(all.remove(x)));
        vstd::set_lib::lemma_len_subset(t.retired, all.remove(x));
    }
}

/// As many of the greatest members are kept as there is room for.
proof fn lemma_newest_len(s: Set<u64>, n: nat)
    requires
        s.finite(),
        s.len() >= n,
    ensures
        newest(s, n).len() == n,
    decreases s.len(),
{
    lemma_newest(s, n);
    if s.len() > n {
        lemma_least_exists_in(s);
        let m = choose|m: u64| s.contains(m) && forall|x: u64| s.contains(x) ==> m <= x;
        let rest = s.remove(m);
        lemma_newest_len(rest, n);
        assert forall|x: u64| newest(s, n).contains(x) == newest(rest, n).contains(x) by {
            if x == m {
                assert(above(s, m) =~= rest);
            } else if s.contains(x) {
                assert(above(s, x) =~= above(rest, x));
            }
        }
        assert(newest(s, n) =~= newest(rest, n));
    }
}

/// A finite set that has a member has a least one.
proof fn lemma_least_exists_in(s: Set<u64>)
    requires
        s.finite(),
        s.len() > 0,
    ensures
        exists|m: u64| s.contains(m) && forall|x: u64| s.contains(x) ==> m <= x,
{
    if s == Set::<u64>::empty() {
        assert(s.len() == 0);
    }
    lemma_least_exists(s);
}

/// Of all retired numbers the greatest are kept, as many as the bound allows, and the floor
/// rises just to the greatest that is not. Nothing else changes.
pub proof fn law_what_trimming_does(s: LedgerState)
    requires
        s.retired.finite(),
    ensures
        ({
            let t = s.trimmed();
            let all = s.retired;
            &&& t.jobs == s.jobs
            &&& t.next_job_id == s.next_job_id
            &&& t.bound == s.bound
            &&& t.retired.len() == if all.len() <= s.bound {
                all.len()
            } else {
                s.bound
            }
            &&& forall|x: u64| #[trigger] t.retired.contains(x) ==> all.contains(x)
            &&& forall|x: u64, y: u64|
                all.contains(x) && !#[trigger] t.retired.contains(x) && #[trigger] t.retired.contains(
                    y,
                ) ==> x < y
            &&& forall|x: u64|
                all.contains(x) && !#[trigger] t.retired.contains(x) ==> t.retired_through is Some
                    && x <= t.retired_through->0
            &&& t.retired_through == s.retired_through || (t.retired_through is Some
                && all.contains(t.retired_through->0) && !t.retired.contains(t.retired_through->0))
            &&& s.retired_through is Some ==> t.retired_through is Some && s.retired_through->0
                <= t.retired_through->0
        }),
{
    lemma_newest(s.retired, s.bound);
    if s.retired.len() > s.bound {
        lemma_newest_len(s.retired, s.bound);
    }
    let kept = newest(s.retired, s.bound);
    let evicted = s.retired.difference(kept);
    assert forall|x: u64| s.retired.contains(x) && !kept.contains(x) implies evicted.contains(x) by {
    }
    if evicted != Set::<u64>::empty() {
        lemma_greatest_exists(evicted);
        let top = choose|m: u64| is_greatest(evicted, m);
        assert(is_greatest(evicted, top));
    }
}

/// A sweep at `now` takes off the pending jobs without an upload under way that were
/// assigned more than five minutes ago and the ready ones that have been ready for more
/// than one minute, and leaves every other job as it is. What leaves is retired: of all
/// retired numbers the greatest are kept, as many as the bound allows, and the floor
/// rises just to the greatest that is not.
pub proof fn law_what_a_sweep_does(s: LedgerState, now: u64)
    requires
        s.jobs.dom().finite(),
        s.retired.finite(),
    ensures
        ({
            let t = s.swept(now);
            let all = Set::new(
                |x: u64|
                    s.retired.contains(x) || (s.jobs.contains_key(x) && !t.jobs.contains_key(x)),
            );
            &&& forall|x: u64| #[trigger]
                t.jobs.contains_key(x) ==> s.jobs.contains_key(x) && t.jobs[x] == s.jobs[x]
            &&& forall|x: u64| #[trigger]
                s.jobs.contains_key(x) ==> (!t.jobs.contains_key(x) <==> !s.jobs[x].busy && match
                s.jobs[x].job {
                    WorkerJob::Pending { assigned_at, .. } => now - assigned_at > 300_000_000_000,
                    WorkerJob::Ready { ready_at, .. } => now - ready_at > 60_000_000_000,
                    WorkerJob::Started => false,
                    WorkerJob::Complete => false,
                })
            &&& t.next_job_id == s.next_job_id
            &&& t.bound == s.bound
            &&& t.retired.len() == if all.len() <= s.bound {
                all.len()
            } else {
                s.bound
            }
            &&& forall|x: u64| #[trigger] t.retired.contains(x) ==> all.contains(x)
            &&& forall|x: u64, y: u64|
                all.contains(x) && !#[trigger] t.retired.contains(x) && #[trigger] t.retired.contains(
                    y,
                ) ==> x < y
            &&& forall|x: u64|
                all.contains(x) && !#[trigger] t.retired.contains(x) ==> t.retired_through is Some
                    && x <= t.retired_through->0
            &&& t.retired_through == s.retired_through || (t.retired_through is Some
                && all.contains(t.retired_through->0) && !t.retired.contains(t.retired_through->0))
            &&& s.retired_through is Some ==> t.retired_through is Some && s.retired_through->0
                <= t.retired_through->0
        }),
{
    let gone = s.overdue(now);
    s.jobs.dom().lemma_len_filter(|i: u64| expired(s.jobs[i], now));
    let mid = LedgerState {
        jobs: s.jobs.remove_keys(gone),
        retired: s.retired.union(gone),
        ..s
    };
    law_what_trimming_does(mid);
    let t = s.swept(now);
    let all = Set::new(
        |x: u64| s.retired.contains(x) || (s.jobs.contains_key(x) && !t.jobs.contains_key(x)),
    );
    assert(all =~= mid.retired);
}

/// A job that is retired is off the ledger, and no other. Of all retired numbers, with
/// its own, the greatest are kept, as many as the bound allows, and the floor rises just
/// to the greatest that is not.
pub proof fn law_what_retiring_does(s: LedgerState, id: u64)
    requires
        s.retired.finite(),
    ensures
        ({
            let t = s.retire(id);
            let all = s.retired.insert(id);
            &&& forall|x: u64| #[trigger]
                t.jobs.contains_key(x) <==> s.jobs.contains_key(x) && x != id
            &&& forall|x: u64| #[trigger] t.jobs.contains_key(x) ==> t.jobs[x] == s.jobs[x]
            &&& t.next_job_id == s.next_job_id
            &&& t.bound == s.bound
            &&& t.retired.len() == if all.len() <= s.bound {
                all.len()
            } else {
                s.bound
            }
            &&& forall|x: u64| #[trigger] t.retired.contains(x) ==> all.contains(x)
            &&& forall|x: u64, y: u64|
                all.contains(x) && !#[trigger] t.retired.contains(x) && #[trigger] t.retired.contains(
                    y,
                ) ==> x < y
            &&& forall|x: u64|
                all.contains(x) && !#[trigger] t.retired.contains(x) ==> t.retired_through is Some
                    && x <= t.retired_through->0
            &&& t.retired_through == s.retired_through || (t.retired_through is Some
                && all.contains(t.retired_through->0) && !t.retired.contains(t.retired_through->0))
            &&& s.retired_through is Some ==> t.retired_through is Some && s.retired_through->0
                <= t.retired_through->0
        }),
{
    law_what_trimming_does(LedgerState { jobs: s.jobs.remove(id), retired: s.retired.insert(id), ..s });
}

/// An upload is let in exactly if the job is pending or ready and has none under way, and
/// it is told the toolchain of the job; one that has one under way is refused; for any
/// other number there is no job. The job of an upload that is let in is busy, and nothing
/// else changes.
pub proof fn law_what_a_request_to_upload_does(s: LedgerState, id: u64)
    ensures
        ({
            let (r, t) = (s.submit_answer(id), s.submitted(id));
            let waits = s.jobs.contains_key(id) && (s.jobs[id].job is Pending || s.jobs[id].job
                is Ready);
            &&& r == Ok::<UploadStart, SubmitToolchainError>(UploadStart::JobNotFound) <==> !waits
            &&& r == Err::<UploadStart, SubmitToolchainError>(
                SubmitToolchainError::ConcurrentUpload { job_id: JobId(id) },
            ) <==> waits && s.jobs[id].busy
            &&& waits && !s.jobs[id].busy ==> match s.jobs[id].job {
                WorkerJob::Pending { toolchain, .. } => r == Ok::<
                    UploadStart,
                    SubmitToolchainError,
                >(UploadStart::Proceed { toolchain }),
                WorkerJob::Ready { toolchain, .. } => r == Ok::<UploadStart, SubmitToolchainError>(
                    UploadStart::Proceed { toolchain },
                ),
                _ => false,
            }
            &&& !(waits && !s.jobs[id].busy) ==> t == s
            &&& waits && !s.jobs[id].busy ==> t.jobs[id].busy && t.jobs[id].job == s.jobs[id].job
            &&& forall|x: u64| #[trigger] t.jobs.contains_key(x) <==> s.jobs.contains_key(x)
            &&& forall|x: u64|
                x != id && #[trigger] t.jobs.contains_key(x) ==> t.jobs[x] == s.jobs[x]
            &&& t.next_job_id == s.next_job_id && t.retired == s.retired && t.retired_through
                == s.retired_through && t.bound == s.bound
        }),
{
}

/// An upload that came through makes a pending job ready, with the toolchain that was
/// sent, and that has to be reported; it changes no other job, and nothing happens if the
/// upload did not come through. A job that has left is an error.
pub proof fn law_what_the_end_of_an_upload_does(
    s: LedgerState,
    id: u64,
    toolchain: Toolchain,
    result: SubmitToolchainResult,
    now: u64,
)
    ensures
        ({
            let (r, t) = (
                s.settle_answer(id, result),
                s.upload_ended(id, toolchain, result, now),
            );
            let came = result == SubmitToolchainResult::Success;
            let pending = s.jobs.contains_key(id) && s.jobs[id].job is Pending;
            &&& r == Ok::<bool, SubmitToolchainError>(true) <==> came && pending
            &&& r == Err::<bool, SubmitToolchainError>(SubmitToolchainError::LostJob) <==> came
                && !s.jobs.contains_key(id)
            &&& r == Ok::<bool, SubmitToolchainError>(false) <==> !came || (s.jobs.contains_key(id)
                && !pending)
            &&& !(came && pending) ==> t == s
            &&& came && pending ==> t.jobs[id].busy == s.jobs[id].busy && t.jobs[id].job == (
            WorkerJob::Ready { toolchain, ready_at: now })
            &&& forall|x: u64| #[trigger] t.jobs.contains_key(x) <==> s.jobs.contains_key(x)
            &&& forall|x: u64|
                x != id && #[trigger] t.jobs.contains_key(x) ==> t.jobs[x] == s.jobs[x]
            &&& t.next_job_id == s.next_job_id && t.retired == s.retired && t.retired_through
                == s.retired_through && t.bound == s.bound
        }),
{
}

/// When an upload is released, its job is not busy any more and, if it is ready, waits
/// from then on; nothing else changes.
pub proof fn law_what_releasing_an_upload_does(s: LedgerState, id: u64, now: u64)
    ensures
        ({
            let t = s.upload_released(id, now);
            &&& !s.jobs.contains_key(id) ==> t == s
            &&& s.jobs.contains_key(id) ==> {
                &&& !t.jobs[id].busy
                &&& s.jobs[id].job matches WorkerJob::Ready { toolchain, .. } ==> t.jobs[id].job == (
                WorkerJob::Ready { toolchain, ready_at: now })
                &&& !(s.jobs[id].job is Ready) ==> t.jobs[id].job == s.jobs[id].job
            }
            &&& forall|x: u64| #[trigger] t.jobs.contains_key(x) <==> s.jobs.contains_key(x)
            &&& forall|x: u64|
                x != id && #[trigger] t.jobs.contains_key(x) ==> t.jobs[x] == s.jobs[x]
            &&& t.next_job_id == s.next_job_id && t.retired == s.retired && t.retired_through
                == s.retired_through && t.bound == s.bound
        }),
{
}

/// A job is claimed by a run exactly if it is ready, and the run is told its toolchain; one
/// that was claimed before is refused; a pending one, or a number that is not held, is no
/// job to run. A job that is claimed is started, and nothing else changes.
pub proof fn law_what_a_request_to_run_does(s: LedgerState, id: u64)
    ensures
        ({
            let (r, t) = (s.run_answer(id), s.run_begun(id));
            let held = s.jobs.contains_key(id);
            &&& r == Ok::<RunStart, RunJobError>(RunStart::JobNotFound) <==> !held
                || s.jobs[id].job is Pending
            &&& r == Err::<RunStart, RunJobError>(RunJobError::DuplicateRun { job_id: JobId(id) })
                <==> held && (s.jobs[id].job is Started || s.jobs[id].job is Complete)
            &&& held && s.jobs[id].job is Ready ==> {
                &&& s.jobs[id].job matches WorkerJob::Ready { toolchain, .. } && r == Ok::<
                    RunStart,
                    RunJobError,
                >(RunStart::Claimed { toolchain })
                &&& t.jobs[id].job == WorkerJob::Started
                &&& t.jobs[id].busy == s.jobs[id].busy
            }
            &&& !(held && s.jobs[id].job is Ready) ==> t == s
            &&& forall|x: u64| #[trigger] t.jobs.contains_key(x) <==> s.jobs.contains_key(x)
            &&& forall|x: u64|
                x != id && #[trigger] t.jobs.contains_key(x) ==> t.jobs[x] == s.jobs[x]
            &&& t.next_job_id == s.next_job_id && t.retired == s.retired && t.retired_through
                == s.retired_through && t.bound == s.bound
        }),
{
}

/// A run that ends leaves its job complete, and nothing else changes.
pub proof fn law_what_the_end_of_a_run_does(s: LedgerState, id: u64)
    requires
        s.jobs.contains_key(id),
    ensures
        ({
            let t = s.run_ended(id);
            &&& t.jobs[id].job == WorkerJob::Complete
            &&& t.jobs[id].busy == s.jobs[id].busy
            &&& forall|x: u64| #[trigger] t.jobs.contains_key(x) <==> s.jobs.contains_key(x)
            &&& forall|x: u64|
                x != id && #[trigger] t.jobs.contains_key(x) ==> t.jobs[x] == s.jobs[x]
            &&& t.next_job_id == s.next_job_id && t.retired == s.retired && t.retired_through
                == s.retired_through && t.bound == s.bound
        }),
{
}

/// A snapshot lists every job that is not complete, once, by rising number, and nothing
/// else. A record says in what state the job is; and it says, in whole milliseconds, how
/// long the job has been waiting since it was assigned or became ready, which is no time
/// at all for one that is started or has an upload under way.
pub proof fn law_what_a_snapshot_lists(
    jobs: Map<u64, WorkerJobEntry>,
    now: u64,
    list: Seq<WorkerJobSnapshot>,
)
    requires
        is_snapshot(jobs, now, list),
    ensures
        forall|id: u64|
            #![trigger jobs.contains_key(id)]
            (jobs.contains_key(id) && !(jobs[id].job is Complete)) <==> exists|i: int|
                0 <= i < list.len() && (#[trigger] list[i]).job_id.0 == id,
        forall|i: int, j: int|
            0 <= i < j < list.len() ==> (#[trigger] list[i]).job_id.0 < (
            #[trigger] list[j]).job_id.0,
        forall|i: int|
            0 <= i < list.len() ==> {
                let record = #[trigger] list[i];
                let entry = jobs[record.job_id.0];
                let age = record.unclaimed_for_ms;
                match entry.job {
                    WorkerJob::Pending { assigned_at, .. } => {
                        &&& record.state == WorkerJobSnapshotState::Pending
                        &&& entry.busy || now < assigned_at ==> age == 0
                        &&& !entry.busy && assigned_at <= now ==> age * 1_000_000 <= now
                            - assigned_at < (age + 1) * 1_000_000
                    },
                    WorkerJob::Ready { ready_at, .. } => {
                        &&& record.state == WorkerJobSnapshotState::Ready
                        &&& entry.busy || now < ready_at ==> age == 0
                        &&& !entry.busy && ready_at <= now ==> age * 1_000_000 <= now - ready_at < (
                        age + 1) * 1_000_000
                    },
                    WorkerJob::Started => record.state == WorkerJobSnapshotState::Started && age
                        == 0,
                    WorkerJob::Complete => false,
                }
            },
{
    assert forall|id: u64|
        #![trigger jobs.contains_key(id)]
        (jobs.contains_key(id) && !(jobs[id].job is Complete)) <==> exists|i: int|
            0 <= i < list.len() && (#[trigger] list[i]).job_id.0 == id by {
        if exists|i: int| 0 <= i < list.len() && (#[trigger] list[i]).job_id.0 == id {
            let i = choose|i: int| 0 <= i < list.len() && (#[trigger] list[i]).job_id.0 == id;
            assert(jobs.contains_key(list[i].job_id.0));
        }
    }
}

/// Of two jobs that wait without an upload under way, the one that has waited for longer
/// is never listed with the smaller age.
pub proof fn law_longer_waits_are_listed_longer(
    jobs: Map<u64, WorkerJobEntry>,
    now: u64,
    list: Seq<WorkerJobSnapshot>,
    i: int,
    since_i: u64,
    j: int,
    since_j: u64,
)
    requires
        is_snapshot(jobs, now, list),
        0 <= i < list.len(),
        0 <= j < list.len(),
        !jobs[list[i].job_id.0].busy,
        !jobs[list[j].job_id.0].busy,
        match jobs[list[i].job_id.0].job {
            WorkerJob::Pending { assigned_at, .. } => since_i == assigned_at,
            WorkerJob::Ready { ready_at, .. } => since_i == ready_at,
            _ => false,
        },
        match jobs[list[j].job_id.0].job {
            WorkerJob::Pending { assigned_at, .. } => since_j == assigned_at,
            WorkerJob::Ready { ready_at, .. } => since_j == ready_at,
            _ => false,
        },
        since_i <= since_j,
    ensures
        list[i].unclaimed_for_ms >= list[j].unclaimed_for_ms,
{
    law_what_a_snapshot_lists(jobs, now, list);
    let (x, y) = (list[i].unclaimed_for_ms, list[j].unclaimed_for_ms);
    assert(x >= y);
}

/// A worker lists its jobs exactly if they are no more than it may hold, under the number
/// that tells its process, the form of its snapshots and its next number.
pub proof fn law_what_a_worker_lists(
    server: Server,
    now: u64,
    r: Result<ServerWorkSnapshot, SnapshotError>,
)
    requires
        server.lists(now, r),
    ensures
        r is Ok <==> server.jobs.jobs@.len() <= server.jobs.job_bound,
        r matches Ok(snapshot) ==> {
            &&& snapshot.version == server.snapshot_version
            &&& snapshot.server_nonce == server.server_nonce
            &&& snapshot.next_job_id == server.jobs.next_job_id
            &&& is_snapshot(server.jobs.jobs@, now, snapshot.jobs@)
        },
{
}

} // verus!
