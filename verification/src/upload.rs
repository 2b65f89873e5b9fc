//! A toolchain upload, from the request to the release of the job.
//!
//! 1. `Server::handle_submit_toolchain` lets the upload in and marks the job busy.
//! 2. The caller asks its cache for the toolchain; `upload_route` says whether to
//!    store what is sent or to read past it, and `UploadRoute::outcome` says what
//!    the attempt amounts to.
//! 3. `Server::upload_settled` makes a pending job ready.
//! 4. If it did, the caller reports the job ready; `upload_answer` says what the
//!    request is answered.
//! 5. `Server::release_upload` ends the busy mark, whatever came before.

use vstd::prelude::*;

use crate::dist::{JobId, SubmitToolchainResult, Toolchain};
use crate::ledger::{LedgerState, WorkerJob, WorkerJobEntry};
use crate::run_job::reply_to;
use crate::server::Server;

verus! {

broadcast use {vstd::std_specs::btree::group_btree_axioms, vstd::laws_cmp::group_laws_cmp};

/// Why an upload fails as a request.
#[derive(Clone, Copy, Debug, PartialEq, Eq, Structural)]
pub enum SubmitToolchainError {
    /// Another upload for the same job is under way.
    ConcurrentUpload { job_id: JobId },
    /// A toolchain that is already cached could not be read past.
    DrainFailed,
    /// The job left the ledger during the upload.
    LostJob,
}

/// What to do with a request to upload.
#[derive(Debug, PartialEq, Eq)]
pub enum UploadStart {
    /// No job waits for a toolchain: answer at once.
    JobNotFound,
    /// Take the upload of this toolchain.
    Proceed { toolchain: Toolchain },
}

/// What to do with the bytes of an upload.
#[derive(Clone, Copy, Debug, PartialEq, Eq, Structural)]
pub enum UploadRoute {
    /// The toolchain is cached: read the bytes and drop them.
    Drain,
    /// Put the bytes into the cache.
    Store,
}

/// The toolchain that an unclaimed job holds.
pub open spec fn held_toolchain(job: WorkerJob) -> Option<Toolchain> {
    match job {
        WorkerJob::Pending { toolchain, .. } => Some(toolchain),
        WorkerJob::Ready { toolchain, .. } => Some(toolchain),
        WorkerJob::Started => None,
        WorkerJob::Complete => None,
    }
}

/// The toolchain that an unclaimed job holds.
fn toolchain_of(job: &WorkerJob) -> (r: Option<Toolchain>)
    ensures
        r == held_toolchain(*job),
{
    match job {
        WorkerJob::Pending { toolchain, .. } => Some(toolchain.duplicate()),
        WorkerJob::Ready { toolchain, .. } => Some(toolchain.duplicate()),
        WorkerJob::Started => None,
        WorkerJob::Complete => None,
    }
}

/// Whether an upload is stored or read past, given whether the cache has the
/// toolchain.
pub open spec fn route_of(cached: bool) -> UploadRoute {
    if cached {
        UploadRoute::Drain
    } else {
        UploadRoute::Store
    }
}

/// What an upload amounts to, given whether the cache has the toolchain and whether reading
/// past the bytes or storing them went well: it came through if that went well. A failure to
/// store is an answer, a failure to read past the bytes is an error.
pub proof fn law_what_an_upload_amounts_to(cached: bool, ok: bool)
    ensures
        ok ==> route_of(cached).result(ok) == Ok::<SubmitToolchainResult, SubmitToolchainError>(
            SubmitToolchainResult::Success,
        ),
        !ok && cached ==> route_of(cached).result(ok) == Err::<
            SubmitToolchainResult,
            SubmitToolchainError,
        >(SubmitToolchainError::DrainFailed),
        !ok && !cached ==> route_of(cached).result(ok) == Ok::<
            SubmitToolchainResult,
            SubmitToolchainError,
        >(SubmitToolchainResult::CannotCache),
        route_of(cached) is Drain <==> cached,
{
}

/// Whether an upload is stored or read past, given whether the cache has the
/// toolchain.
pub fn upload_route(cached: bool) -> (r: UploadRoute)
    ensures
        r == route_of(cached),
        r == if cached {
            UploadRoute::Drain
        } else {
            UploadRoute::Store
        },
{
    if cached {
        UploadRoute::Drain
    } else {
        UploadRoute::Store
    }
}

impl UploadRoute {
    /// What an attempt amounts to, given whether it went well.
    pub open spec fn result(self, ok: bool) -> Result<SubmitToolchainResult, SubmitToolchainError> {
        match (self, ok) {
            (UploadRoute::Drain, false) => Err(SubmitToolchainError::DrainFailed),
            (UploadRoute::Store, false) => Ok(SubmitToolchainResult::CannotCache),
            _ => Ok(SubmitToolchainResult::Success),
        }
    }

    /// What an attempt amounts to, given whether it went well. A failure to store
    /// is an answer; a failure to read past the bytes is an error.
    pub fn outcome(self, ok: bool) -> (r: Result<SubmitToolchainResult, SubmitToolchainError>)
        ensures
            r == self.result(ok),
            r == match (self, ok) {
                (UploadRoute::Drain, true) => Ok(SubmitToolchainResult::Success),
                (UploadRoute::Drain, false) => Err(SubmitToolchainError::DrainFailed),
                (UploadRoute::Store, true) => Ok(SubmitToolchainResult::Success),
                (UploadRoute::Store, false) => Ok(SubmitToolchainResult::CannotCache),
            },
    {
        match self {
            UploadRoute::Drain => if ok {
                Ok(SubmitToolchainResult::Success)
            } else {
                Err(SubmitToolchainError::DrainFailed)
            },
            UploadRoute::Store => if ok {
                Ok(SubmitToolchainResult::Success)
            } else {
                Ok(SubmitToolchainResult::CannotCache)
            },
        }
    }
}

/// What an upload is answered whose outcome is `result`, once the job was reported ready
/// if it had to be: the error of that report, or else the outcome. `report` is fine where
/// there was nothing to report.
pub fn upload_answer<E>(result: SubmitToolchainResult, report: Result<(), E>) -> (r: Result<
    SubmitToolchainResult,
    E,
>)
    ensures
        r == reply_to(Ok::<SubmitToolchainResult, E>(result), report),
        r == match report {
            Ok(_) => Ok(result),
            Err(e) => Err(e),
        },
{
    match report {
        Ok(_) => Ok(result),
        Err(e) => Err(e),
    }
}

impl LedgerState {
    /// What a request to upload the toolchain of job `id` is answered, once overdue jobs
    /// are off the ledger.
    pub open spec fn submit_answer(self, id: u64) -> Result<UploadStart, SubmitToolchainError> {
        if !self.jobs.contains_key(id) || held_toolchain(self.jobs[id].job) is None {
            Ok(UploadStart::JobNotFound)
        } else if self.jobs[id].busy {
            Err(SubmitToolchainError::ConcurrentUpload { job_id: JobId(id) })
        } else {
            Ok(UploadStart::Proceed { toolchain: held_toolchain(self.jobs[id].job)->0 })
        }
    }

    /// The ledger after a request to upload the toolchain of job `id` was answered.
    pub open spec fn submitted(self, id: u64) -> LedgerState {
        if self.submit_answer(id) matches Ok(UploadStart::Proceed { .. }) {
            self.upload_begun(id)
        } else {
            self
        }
    }

    /// Whether job `id` goes from pending to ready by an upload that came to `result`.
    pub open spec fn settle_answer(self, id: u64, result: SubmitToolchainResult) -> Result<
        bool,
        SubmitToolchainError,
    > {
        if !(result is Success) {
            Ok(false)
        } else if !self.jobs.contains_key(id) {
            Err(SubmitToolchainError::LostJob)
        } else {
            Ok(self.jobs[id].job is Pending)
        }
    }

    /// The ledger after an upload for job `id` came to `result`.
    pub open spec fn upload_ended(
        self,
        id: u64,
        toolchain: Toolchain,
        result: SubmitToolchainResult,
        now: u64,
    ) -> LedgerState {
        if self.settle_answer(id, result) == Ok::<bool, SubmitToolchainError>(true) {
            self.upload_arrived(id, toolchain, now)
        } else {
            self
        }
    }

    /// The ledger after an upload for job `id` was let in: the job is busy.
    pub open spec fn upload_begun(self, id: u64) -> LedgerState {
        self.with_entry(id, WorkerJobEntry { busy: true, ..self.jobs[id] })
    }

    /// The ledger after the toolchain of job `id` arrived: a pending job is ready,
    /// any other is as it was.
    pub open spec fn upload_arrived(self, id: u64, toolchain: Toolchain, now: u64) -> LedgerState {
        if self.jobs[id].job is Pending {
            self.with_entry(
                id,
                WorkerJobEntry { job: WorkerJob::Ready { toolchain, ready_at: now }, ..self.jobs[id] },
            )
        } else {
            self
        }
    }

    /// The ledger after the upload for job `id` ended. A ready job starts to wait
    /// from now on. Nothing happens if the job has left.
    pub open spec fn upload_released(self, id: u64, now: u64) -> LedgerState {
        if self.jobs.contains_key(id) {
            self.with_entry(
                id,
                WorkerJobEntry {
                    job: match self.jobs[id].job {
                        WorkerJob::Ready { toolchain, .. } => WorkerJob::Ready {
                            toolchain,
                            ready_at: now,
                        },
                        other => other,
                    },
                    busy: false,
                },
            )
        } else {
            self
        }
    }
}

impl Server {
    /// Lets a toolchain upload for job `job_id` in, if the job is unclaimed and
    /// has no upload under way.
    pub fn handle_submit_toolchain(&mut self, job_id: JobId, now: u64) -> (r: Result<
        UploadStart,
        SubmitToolchainError,
    >)
        ensures
            final(self).same_worker(*old(self)),
            r == old(self).jobs@.swept(now).submit_answer(job_id.0),
            final(self).jobs@ == old(self).jobs@.swept(now).submitted(job_id.0),
            ({
                let swept = old(self).jobs@.swept(now);
                let toolchain = if swept.jobs.contains_key(job_id.0) {
                    held_toolchain(swept.jobs[job_id.0].job)
                } else {
                    None
                };
                match r {
                    Ok(UploadStart::JobNotFound) => {
                        &&& toolchain is None
                        &&& final(self).jobs@ == swept
                    },
                    Ok(UploadStart::Proceed { toolchain: tc }) => {
                        &&& toolchain == Some(tc)
                        &&& !swept.jobs[job_id.0].busy
                        &&& final(self).jobs@ == swept.upload_begun(job_id.0)
                    },
                    Err(e) => {
                        &&& e == (SubmitToolchainError::ConcurrentUpload { job_id })
                        &&& toolchain is Some
                        &&& swept.jobs[job_id.0].busy
                        &&& final(self).jobs@ == swept
                    },
                }
            }),
    {
        self.jobs.sweep_expired(now);
        let ghost swept = self.jobs@;
        let toolchain = match self.jobs.jobs.get(&job_id.0) {
            None => {
                return Ok(UploadStart::JobNotFound);
            },
            Some(entry) => match toolchain_of(&entry.job) {
                None => {
                    return Ok(UploadStart::JobNotFound);
                },
                Some(toolchain) => {
                    if entry.busy {
                        return Err(SubmitToolchainError::ConcurrentUpload { job_id });
                    }
                    toolchain
                },
            },
        };
        if let Some(entry) = self.jobs.jobs.remove(&job_id.0) {
            self.jobs.jobs.insert(job_id.0, WorkerJobEntry { job: entry.job, busy: true });
        }
        proof {
            assert(self.jobs@ =~= swept.upload_begun(job_id.0));
        }
        Ok(UploadStart::Proceed { toolchain })
    }

    /// Notes what became of an upload. Returns whether the job went from pending
    /// to ready, which the caller then has to report.
    pub fn upload_settled(
        &mut self,
        job_id: JobId,
        toolchain: Toolchain,
        result: SubmitToolchainResult,
        now: u64,
    ) -> (r: Result<bool, SubmitToolchainError>)
        ensures
            final(self).same_worker(*old(self)),
            r == old(self).jobs@.settle_answer(job_id.0, result),
            final(self).jobs@ == old(self).jobs@.upload_ended(job_id.0, toolchain, result, now),
            ({
                let before = old(self).jobs@;
                if result != SubmitToolchainResult::Success {
                    r == Ok::<bool, SubmitToolchainError>(false) && final(self).jobs@ == before
                } else if !before.jobs.contains_key(job_id.0) {
                    r == Err::<bool, SubmitToolchainError>(SubmitToolchainError::LostJob)
                        && final(self).jobs@ == before
                } else {
                    &&& r == Ok::<bool, SubmitToolchainError>(
                        before.jobs[job_id.0].job is Pending,
                    )
                    &&& final(self).jobs@ == before.upload_arrived(job_id.0, toolchain, now)
                }
            }),
    {
        if result != SubmitToolchainResult::Success {
            return Ok(false);
        }
        let pending = match self.jobs.jobs.get(&job_id.0) {
            None => {
                return Err(SubmitToolchainError::LostJob);
            },
            Some(entry) => match entry.job {
                WorkerJob::Pending { .. } => true,
                _ => false,
            },
        };
        if pending {
            if let Some(entry) = self.jobs.jobs.remove(&job_id.0) {
                self.jobs.jobs.insert(
                    job_id.0,
                    WorkerJobEntry {
                        job: WorkerJob::Ready { toolchain, ready_at: now },
                        busy: entry.busy,
                    },
                );
            }
            proof {
                assert(self.jobs@ =~= old(self).jobs@.upload_arrived(job_id.0, toolchain, now));
            }
        }
        Ok(pending)
    }

    /// Ends the upload for job `job_id`, on success and on failure alike.
    pub fn release_upload(&mut self, job_id: JobId, now: u64)
        ensures
            final(self).same_worker(*old(self)),
            final(self).jobs@ == old(self).jobs@.upload_released(job_id.0, now),
    {
        if let Some(entry) = self.jobs.jobs.remove(&job_id.0) {
            let job = match entry.job {
                WorkerJob::Ready { toolchain, .. } => WorkerJob::Ready { toolchain, ready_at: now },
                other => other,
            };
            self.jobs.jobs.insert(job_id.0, WorkerJobEntry { job, busy: false });
        }
        proof {
            assert(self.jobs@ =~= old(self).jobs@.upload_released(job_id.0, now));
        }
    }
}

} // verus!
