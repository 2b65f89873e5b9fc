//! What a worker does with the requests it gets.
//!
//! Requests that need outside work come in several calls. Each call is told what
//! came of the work before, changes the ledger, and says what to do next.

use vstd::prelude::*;
use vstd::std_specs::cmp::OrdSpec;
use vstd::std_specs::iter::IteratorSpec;

use crate::dist::{
    elapsed, unclaimed_ms, AssignJobResult, JobId, JobState, ServerNonce, ServerWorkSnapshot,
    Toolchain, WorkerJobSnapshot, WorkerJobSnapshotState, NANOS_PER_MILLI,
};
use crate::ledger::{empty_ledger, LedgerState, WorkerJob, WorkerJobEntry, WorkerLedger};

verus! {

broadcast use {vstd::std_specs::btree::group_btree_axioms, vstd::laws_cmp::group_laws_cmp};

/// A worker: its ledger and what it tells of itself.
#[derive(Debug)]
pub struct Server {
    pub jobs: WorkerLedger,
    pub server_nonce: ServerNonce,
    pub snapshot_version: u32,
}

/// Why a worker turns an assignment down.
#[derive(Clone, Copy, Debug, PartialEq, Eq, Structural)]
pub enum AssignJobError {
    /// The number is held, or was held, or is too old.
    DuplicateOrStale { job_id: JobId },
    /// The worker holds as many jobs as it may.
    ActiveJobBound,
    /// No number would be left for the next job.
    JobIdExhausted,
}

/// Why a worker cannot describe its work.
#[derive(Clone, Copy, Debug, PartialEq, Eq, Structural)]
pub enum SnapshotError {
    /// The worker holds more jobs than a snapshot may list.
    JobBound,
}

/// The part of a job that a snapshot lists: its state and how long it has been
/// unclaimed. Complete jobs are not listed.
pub open spec fn snapshot_record(id: u64, entry: WorkerJobEntry, now: u64) -> Option<
    WorkerJobSnapshot,
> {
    match entry.job {
        WorkerJob::Pending { assigned_at, .. } => Some(
            WorkerJobSnapshot {
                job_id: JobId(id),
                state: WorkerJobSnapshotState::Pending,
                unclaimed_for_ms: if entry.busy {
                    0
                } else {
                    (elapsed(now, assigned_at) / (NANOS_PER_MILLI as int)) as u64
                },
            },
        ),
        WorkerJob::Ready { ready_at, .. } => Some(
            WorkerJobSnapshot {
                job_id: JobId(id),
                state: WorkerJobSnapshotState::Ready,
                unclaimed_for_ms: if entry.busy {
                    0
                } else {
                    (elapsed(now, ready_at) / (NANOS_PER_MILLI as int)) as u64
                },
            },
        ),
        WorkerJob::Started => Some(
            WorkerJobSnapshot {
                job_id: JobId(id),
                state: WorkerJobSnapshotState::Started,
                unclaimed_for_ms: 0,
            },
        ),
        WorkerJob::Complete => None,
    }
}

/// Whether `list` holds the record of every job that has one, by rising number,
/// and nothing else.
pub open spec fn is_snapshot(
    jobs: Map<u64, WorkerJobEntry>,
    now: u64,
    list: Seq<WorkerJobSnapshot>,
) -> bool {
    &&& forall|i: int, j: int|
        0 <= i < j < list.len() ==> (#[trigger] list[i]).job_id.0 < (#[trigger] list[j]).job_id.0
    &&& forall|i: int|
        0 <= i < list.len() ==> jobs.contains_key((#[trigger] list[i]).job_id.0) && snapshot_record(
            list[i].job_id.0,
            jobs[list[i].job_id.0],
            now,
        ) == Some(list[i])
    &&& forall|id: u64| #[trigger]
        jobs.contains_key(id) && snapshot_record(id, jobs[id], now) is Some ==> exists|i: int|
            0 <= i < list.len() && (#[trigger] list[i]).job_id.0 == id
}

/// The record that a snapshot holds of a job.
fn describe(id: u64, entry: &WorkerJobEntry, now: u64) -> (r: Option<WorkerJobSnapshot>)
    ensures
        r == snapshot_record(id, *entry, now),
{
    let (state, age): (WorkerJobSnapshotState, u64) = match &entry.job {
        WorkerJob::Pending { assigned_at, .. } => (
            WorkerJobSnapshotState::Pending,
            unclaimed_ms(now, *assigned_at),
        ),
        WorkerJob::Ready { ready_at, .. } => (
            WorkerJobSnapshotState::Ready,
            unclaimed_ms(now, *ready_at),
        ),
        WorkerJob::Started => (WorkerJobSnapshotState::Started, 0),
        WorkerJob::Complete => {
            return None;
        },
    };
    Some(
        WorkerJobSnapshot {
            job_id: JobId(id),
            state,
            unclaimed_for_ms: if entry.busy {
                0
            } else {
                age
            },
        },
    )
}

/// A new job on a worker, which waits for its toolchain or is ready at once.
pub open spec fn new_job(toolchain: Toolchain, need_toolchain: bool, at: u64) -> WorkerJob {
    if need_toolchain {
        WorkerJob::Pending { toolchain, assigned_at: at }
    } else {
        WorkerJob::Ready { toolchain, ready_at: at }
    }
}

impl LedgerState {
    /// What an assignment of job `id` is answered, once overdue jobs are off the ledger.
    pub open spec fn assign_answer(self, id: u64, need_toolchain: bool) -> Result<
        AssignJobResult,
        AssignJobError,
    > {
        if self.known(id) {
            Err(AssignJobError::DuplicateOrStale { job_id: JobId(id) })
        } else if self.jobs.len() >= self.bound {
            Err(AssignJobError::ActiveJobBound)
        } else if id == u64::MAX {
            Err(AssignJobError::JobIdExhausted)
        } else {
            Ok(
                AssignJobResult {
                    state: if need_toolchain {
                        JobState::Pending
                    } else {
                        JobState::Ready
                    },
                    need_toolchain,
                },
            )
        }
    }

    /// The ledger after an assignment of job `id` was answered.
    pub open spec fn assigned(
        self,
        id: u64,
        toolchain: Toolchain,
        need_toolchain: bool,
        at: u64,
    ) -> LedgerState {
        if self.assign_answer(id, need_toolchain) is Ok {
            self.take_in(id, new_job(toolchain, need_toolchain, at))
        } else {
            self
        }
    }
}

impl Server {
    /// A worker without jobs. It takes at most `job_bound` of them at a time.
    pub fn new(server_nonce: ServerNonce, job_bound: usize, snapshot_version: u32) -> (r: Server)
        ensures
            r.jobs@ == empty_ledger(job_bound),
            r.jobs@ == (LedgerState {
                jobs: Map::empty(),
                next_job_id: 0,
                retired: Set::empty(),
                retired_through: None,
                bound: job_bound as nat,
            }),
            r.server_nonce == server_nonce,
            r.snapshot_version == snapshot_version,
    {
        Server { jobs: WorkerLedger::new(job_bound), server_nonce, snapshot_version }
    }

    /// Whether two states belong to the same worker process.
    pub open spec fn same_worker(self, other: Server) -> bool {
        &&& self.server_nonce == other.server_nonce
        &&& self.snapshot_version == other.snapshot_version
    }

    /// Whether `r` is what the worker answers at `now` to a request to list its jobs:
    /// all of them, unless they are more than a snapshot may list.
    pub open spec fn lists(self, now: u64, r: Result<ServerWorkSnapshot, SnapshotError>) -> bool {
        match r {
            Ok(snapshot) => {
                &&& self.jobs@.jobs.len() <= self.jobs@.bound
                &&& snapshot.version == self.snapshot_version
                &&& snapshot.server_nonce == self.server_nonce
                &&& snapshot.next_job_id == self.jobs.next_job_id
                &&& is_snapshot(self.jobs@.jobs, now, snapshot.jobs@)
            },
            Err(SnapshotError::JobBound) => self.jobs@.jobs.len() > self.jobs@.bound,
        }
    }

    /// Lists the jobs the worker holds, after taking off those that have waited
    /// too long at `now`.
    pub fn work_snapshot(&mut self, now: u64) -> (r: Result<ServerWorkSnapshot, SnapshotError>)
        ensures
            final(self).same_worker(*old(self)),
            final(self).jobs@ == old(self).jobs@.swept(now),
            final(self).lists(now, r),
    {
        self.jobs.sweep_expired(now);
        if self.jobs.jobs.len() > self.jobs.job_bound {
            return Err(SnapshotError::JobBound);
        }
        let list = self.list_jobs(now);
        Ok(
            ServerWorkSnapshot {
                version: self.snapshot_version,
                server_nonce: self.server_nonce,
                next_job_id: self.jobs.next_job_id,
                jobs: list,
            },
        )
    }

    /// The records of the jobs the worker holds, by rising number.
    fn list_jobs(&self, now: u64) -> (r: Vec<WorkerJobSnapshot>)
        ensures
            is_snapshot(self.jobs@.jobs, now, r@),
    {
        let mut list: Vec<WorkerJobSnapshot> = Vec::new();
        let ghost jobs = self.jobs@.jobs;
        for (id, entry) in it: self.jobs.jobs.iter()
            invariant
                jobs == self.jobs.jobs@,
                it.seq() == vstd::std_specs::btree::spec_btree_map_iter(&self.jobs.jobs).remaining(),
                vstd::std_specs::btree::increasing_seq(
                    it.seq().map_values(|kv: (&u64, &WorkerJobEntry)| *kv.0),
                ),
                forall|i: int, j: int|
                    0 <= i < j < list@.len() ==> (#[trigger] list@[i]).job_id.0 < (
                    #[trigger] list@[j]).job_id.0,
                forall|i: int|
                    0 <= i < list@.len() ==> jobs.contains_key((#[trigger] list@[i]).job_id.0)
                        && snapshot_record(
                        list@[i].job_id.0,
                        jobs[list@[i].job_id.0],
                        now,
                    ) == Some(list@[i]),
                forall|i: int|
                    0 <= i < list@.len() ==> exists|k: int|
                        0 <= k < it.index() && *(#[trigger] it.seq()[k]).0 == (
                        #[trigger] list@[i]).job_id.0,
                forall|k: int|
                    0 <= k < it.index() && snapshot_record(
                        *(#[trigger] it.seq()[k]).0,
                        *it.seq()[k].1,
                        now,
                    ) is Some ==> exists|i: int|
                        0 <= i < list@.len() && (#[trigger] list@[i]).job_id.0 == *it.seq()[k].0,
        {
            let ghost before = list@;
            proof {
                assert(jobs.contains_key(*it.seq()[it.index()].0));
                assert(vstd::laws_cmp::obeys_cmp::<u64>());
                let keys = it.seq().map_values(|kv: (&u64, &WorkerJobEntry)| *kv.0);
                assert forall|k: int| 0 <= k < it.index() implies *(#[trigger] it.seq()[k]).0
                    < *id by {
                    assert(keys[k] == *it.seq()[k].0);
                    assert(keys[it.index()] == *id);
                    assert(keys[k].cmp_spec(&keys[it.index()]) is Less);
                }
            }
            if let Some(record) = describe(*id, entry, now) {
                list.push(record);
            }
            proof {
                assert forall|k: int|
                    0 <= k < it.index() + 1 && snapshot_record(
                        *(#[trigger] it.seq()[k]).0,
                        *it.seq()[k].1,
                        now,
                    ) is Some implies exists|i: int|
                    0 <= i < list@.len() && (#[trigger] list@[i]).job_id.0 == *it.seq()[k].0 by {
                    if k < it.index() {
                        let i = choose|i: int|
                            0 <= i < before.len() && (#[trigger] before[i]).job_id.0
                                == *it.seq()[k].0;
                        assert(list@[i] == before[i]);
                    } else {
                        assert(list@.last().job_id.0 == *it.seq()[k].0);
                    }
                }
                assert forall|i: int| 0 <= i < list@.len() implies exists|k: int|
                    0 <= k < it.index() + 1 && *(#[trigger] it.seq()[k]).0 == (
                    #[trigger] list@[i]).job_id.0 by {
                    if i < before.len() {
                        assert(list@[i] == before[i]);
                        let k = choose|k: int|
                            0 <= k < it.index() && *(#[trigger] it.seq()[k]).0
                                == before[i].job_id.0;
                        assert(*it.seq()[k].0 == list@[i].job_id.0);
                    } else {
                        assert(*it.seq()[it.index()].0 == list@[i].job_id.0);
                    }
                }
            }
        }
        proof {
            let v = vstd::std_specs::btree::spec_btree_map_iter(&self.jobs.jobs).remaining();
            assert forall|id: u64| #[trigger]
                jobs.contains_key(id) && snapshot_record(id, jobs[id], now) is Some implies exists|
                i: int,
            | 0 <= i < list@.len() && (#[trigger] list@[i]).job_id.0 == id by {
                assert(v.contains((&id, &jobs[id])));
                let j = choose|j: int| 0 <= j < v.len() && v[j] == (&id, &jobs[id]);
                assert(*v[j].0 == id && *v[j].1 == jobs[id]);
            }
        }
        list
    }

    /// The same list as `work_snapshot`, on a scheduler's request.
    pub fn handle_work_snapshot(&mut self, now: u64) -> (r: Result<
        ServerWorkSnapshot,
        SnapshotError,
    >)
        ensures
            final(self).same_worker(*old(self)),
            final(self).jobs@ == old(self).jobs@.swept(now),
            final(self).lists(now, r),
    {
        self.work_snapshot(now)
    }

    /// Takes job `job_id` in, unless its number is known or the worker is full.
    ///
    /// `need_toolchain` says whether the toolchain is missing from the cache.
    /// `swept_at` and `assigned_at` are clock readings at the start of the call
    /// and at the moment the job is entered.
    pub fn handle_assign_job(
        &mut self,
        job_id: JobId,
        tc: Toolchain,
        need_toolchain: bool,
        swept_at: u64,
        assigned_at: u64,
    ) -> (r: Result<AssignJobResult, AssignJobError>)
        ensures
            final(self).same_worker(*old(self)),
            r == old(self).jobs@.swept(swept_at).assign_answer(job_id.0, need_toolchain),
            final(self).jobs@ == old(self).jobs@.swept(swept_at).assigned(
                job_id.0,
                tc,
                need_toolchain,
                assigned_at,
            ),
            ({
                let swept = old(self).jobs@.swept(swept_at);
                match r {
                    Ok(result) => {
                        &&& !swept.known(job_id.0)
                        &&& swept.jobs.len() < swept.bound
                        &&& job_id.0 < u64::MAX
                        &&& final(self).jobs@ == swept.take_in(
                            job_id.0,
                            new_job(tc, need_toolchain, assigned_at),
                        )
                        &&& result == (AssignJobResult {
                            state: if need_toolchain {
                                JobState::Pending
                            } else {
                                JobState::Ready
                            },
                            need_toolchain,
                        })
                    },
                    Err(AssignJobError::DuplicateOrStale { job_id: id }) => {
                        &&& id == job_id
                        &&& swept.known(job_id.0)
                        &&& final(self).jobs@ == swept
                    },
                    Err(AssignJobError::ActiveJobBound) => {
                        &&& !swept.known(job_id.0)
                        &&& swept.jobs.len() >= swept.bound
                        &&& final(self).jobs@ == swept
                    },
                    Err(AssignJobError::JobIdExhausted) => {
                        &&& !swept.known(job_id.0)
                        &&& swept.jobs.len() < swept.bound
                        &&& job_id.0 == u64::MAX
                        &&& final(self).jobs@ == swept
                    },
                }
            }),
    {
        self.jobs.sweep_expired(swept_at);
        let too_old: bool = match self.jobs.retired_through {
            Some(floor) => job_id.0 <= floor,
            None => false,
        };
        if self.jobs.jobs.contains_key(&job_id.0) || self.jobs.retired.contains(&job_id.0)
            || too_old {
            return Err(AssignJobError::DuplicateOrStale { job_id });
        }
        if self.jobs.jobs.len() >= self.jobs.job_bound {
            return Err(AssignJobError::ActiveJobBound);
        }
        let next: u64 = match job_id.0.checked_add(1) {
            Some(next) => next,
            None => {
                return Err(AssignJobError::JobIdExhausted);
            },
        };
        let job = if need_toolchain {
            WorkerJob::Pending { toolchain: tc, assigned_at }
        } else {
            WorkerJob::Ready { toolchain: tc, ready_at: assigned_at }
        };
        self.jobs.jobs.insert(job_id.0, WorkerJobEntry { job, busy: false });
        if next > self.jobs.next_job_id {
            self.jobs.next_job_id = next;
        }
        Ok(
            AssignJobResult {
                state: if need_toolchain {
                    JobState::Pending
                } else {
                    JobState::Ready
                },
                need_toolchain,
            },
        )
    }
}

} // verus!
