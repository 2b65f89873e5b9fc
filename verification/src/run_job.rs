//! One compile on a worker, from the request to the retirement of the job.
//!
//! 1. `Server::handle_run_job` claims the job: it is started in the ledger before
//!    anyone else hears of it.
//! 2. The caller reports the job started; `Server::started_reported` says whether
//!    to build.
//! 3. The caller builds, if it is to; `Server::build_finished` takes the outcome.
//! 4. The caller reports the job complete; `Server::complete_reported` retires it
//!    and hands back what the request is answered.
//!
//! A report that fails is never mended by building again.

use vstd::prelude::*;

use crate::dist::{JobId, Toolchain};
use crate::ledger::{LedgerState, WorkerJob, WorkerJobEntry};
use crate::server::Server;

verus! {

broadcast use {vstd::std_specs::btree::group_btree_axioms, vstd::laws_cmp::group_laws_cmp};

/// Why a request to run a job fails before or between its steps.
#[derive(Clone, Copy, Debug, PartialEq, Eq, Structural)]
pub enum RunJobError {
    /// The job was claimed before.
    DuplicateRun { job_id: JobId },
    /// The job left the ledger while it ran.
    Disappeared,
}

/// What to do with a request to run a job.
#[derive(Debug, PartialEq, Eq)]
pub enum RunStart {
    /// No job is ready under that number: answer at once.
    JobNotFound,
    /// The job is claimed: report it started, then see `Server::started_reported`.
    Claimed { toolchain: Toolchain },
}

/// What to do once the start of a job was reported.
#[derive(Debug, PartialEq, Eq)]
pub enum AfterStart<T, E> {
    /// The scheduler knows: build with this toolchain.
    Build { toolchain: Toolchain },
    /// The report failed: do not build, report the job complete.
    ReportComplete { run: FinishedRun<T, E> },
}

/// A compile that is over, and what came of it.
#[derive(Debug, PartialEq, Eq)]
pub struct FinishedRun<T, E> {
    pub job_id: JobId,
    pub result: Result<T, E>,
}

impl LedgerState {
    /// What a request to run job `id` is answered, once overdue jobs are off the ledger.
    pub open spec fn run_answer(self, id: u64) -> Result<RunStart, RunJobError> {
        if !self.jobs.contains_key(id) {
            Ok(RunStart::JobNotFound)
        } else {
            match self.jobs[id].job {
                WorkerJob::Pending { .. } => Ok(RunStart::JobNotFound),
                WorkerJob::Ready { toolchain, .. } => Ok(RunStart::Claimed { toolchain }),
                _ => Err(RunJobError::DuplicateRun { job_id: JobId(id) }),
            }
        }
    }

    /// The ledger after a request to run job `id` was answered.
    pub open spec fn run_begun(self, id: u64) -> LedgerState {
        if self.run_answer(id) matches Ok(RunStart::Claimed { .. }) {
            self.run_claimed(id)
        } else {
            self
        }
    }

    /// The ledger after job `id` was claimed by a run.
    pub open spec fn run_claimed(self, id: u64) -> LedgerState {
        self.with_entry(id, WorkerJobEntry { job: WorkerJob::Started, ..self.jobs[id] })
    }

    /// The ledger after the run of job `id` ended.
    pub open spec fn run_ended(self, id: u64) -> LedgerState {
        self.with_entry(id, WorkerJobEntry { job: WorkerJob::Complete, ..self.jobs[id] })
    }
}

/// What a request is answered whose outcome is `result`, once the job was reported: the
/// error of that report, or else the outcome.
pub open spec fn reply_to<T, E>(result: Result<T, E>, report: Result<(), E>) -> Result<T, E> {
    match report {
        Ok(_) => result,
        Err(e) => Err(e),
    }
}

impl LedgerState {
    /// What to do once the start of job `id` was reported.
    pub open spec fn start_answer<T, E>(
        self,
        id: u64,
        toolchain: Toolchain,
        report: Result<(), E>,
    ) -> Result<AfterStart<T, E>, RunJobError> {
        match report {
            Ok(_) => Ok(AfterStart::Build { toolchain }),
            Err(e) => if self.jobs.contains_key(id) {
                Ok(
                    AfterStart::ReportComplete {
                        run: FinishedRun { job_id: JobId(id), result: Err(e) },
                    },
                )
            } else {
                Err(RunJobError::Disappeared)
            },
        }
    }
}

impl LedgerState {
    /// What comes of job `id` once it was built.
    pub open spec fn build_answer<T, E>(self, id: u64, built: Result<T, E>) -> Result<
        FinishedRun<T, E>,
        RunJobError,
    > {
        if self.jobs.contains_key(id) {
            Ok(FinishedRun { job_id: JobId(id), result: built })
        } else {
            Err(RunJobError::Disappeared)
        }
    }
}

/// A job that was built is over with what came of that, unless it has left meanwhile.
pub proof fn law_what_comes_of_a_build<T, E>(s: LedgerState, id: u64, built: Result<T, E>)
    ensures
        s.jobs.contains_key(id) ==> (s.build_answer(id, built) matches Ok(run) && run.job_id.0 == id
            && run.result == built),
        !s.jobs.contains_key(id) ==> s.build_answer(id, built) == Err::<
            FinishedRun<T, E>,
            RunJobError,
        >(RunJobError::Disappeared),
{
}

/// A job is built exactly if its start was reported, with the toolchain it was claimed with.
/// Otherwise it is over with the error of the report, or an error if it has left meanwhile.
pub proof fn law_only_a_reported_start_is_built<T, E>(
    s: LedgerState,
    id: u64,
    toolchain: Toolchain,
    report: Result<(), E>,
)
    ensures
        ({
            let r = s.start_answer::<T, E>(id, toolchain, report);
            &&& report is Ok ==> r == Ok::<AfterStart<T, E>, RunJobError>(
                AfterStart::Build { toolchain },
            )
            &&& report matches Err(e) ==> {
                &&& s.jobs.contains_key(id) ==> (r matches Ok(AfterStart::ReportComplete { run })
                    && run.job_id.0 == id && run.result == Err::<T, E>(e))
                &&& !s.jobs.contains_key(id) ==> r == Err::<AfterStart<T, E>, RunJobError>(
                    RunJobError::Disappeared,
                )
            }
        }),
{
}

/// A request is answered with its outcome only if the job was reported, and with the error of
/// that report otherwise.
pub proof fn law_a_failed_report_is_the_answer<T, E>(result: Result<T, E>, report: Result<(), E>)
    ensures
        report is Ok ==> reply_to(result, report) == result,
        report matches Err(e) ==> reply_to(result, report) == Err::<T, E>(e),
{
}

impl Server {
    /// Claims job `job_id` for a run, if it is ready.
    pub fn handle_run_job(&mut self, job_id: JobId, now: u64) -> (r: Result<RunStart, RunJobError>)
        ensures
            final(self).same_worker(*old(self)),
            r == old(self).jobs@.swept(now).run_answer(job_id.0),
            final(self).jobs@ == old(self).jobs@.swept(now).run_begun(job_id.0),
            ({
                let swept = old(self).jobs@.swept(now);
                if !swept.jobs.contains_key(job_id.0) {
                    r == Ok::<RunStart, RunJobError>(RunStart::JobNotFound) && final(self).jobs@
                        == swept
                } else {
                    match swept.jobs[job_id.0].job {
                        WorkerJob::Pending { .. } => {
                            &&& r == Ok::<RunStart, RunJobError>(RunStart::JobNotFound)
                            &&& final(self).jobs@ == swept
                        },
                        WorkerJob::Ready { toolchain, .. } => {
                            &&& r == Ok::<RunStart, RunJobError>(RunStart::Claimed { toolchain })
                            &&& final(self).jobs@ == swept.run_claimed(job_id.0)
                        },
                        _ => {
                            &&& r == Err::<RunStart, RunJobError>(
                                RunJobError::DuplicateRun { job_id },
                            )
                            &&& final(self).jobs@ == swept
                        },
                    }
                }
            }),
    {
        self.jobs.sweep_expired(now);
        let ghost swept = self.jobs@;
        match self.jobs.jobs.get(&job_id.0) {
            None => {
                return Ok(RunStart::JobNotFound);
            },
            Some(entry) => match entry.job {
                WorkerJob::Started | WorkerJob::Complete => {
                    return Err(RunJobError::DuplicateRun { job_id });
                },
                WorkerJob::Pending { .. } => {
                    return Ok(RunStart::JobNotFound);
                },
                WorkerJob::Ready { .. } => {},
            },
        }
        if let Some(entry) = self.jobs.jobs.remove(&job_id.0) {
            if let WorkerJob::Ready { toolchain, .. } = entry.job {
                self.jobs.jobs.insert(
                    job_id.0,
                    WorkerJobEntry { job: WorkerJob::Started, busy: entry.busy },
                );
                proof {
                    assert(self.jobs@ =~= swept.run_claimed(job_id.0));
                }
                return Ok(RunStart::Claimed { toolchain });
            }
        }
        proof {
            assert(false);
        }
        Ok(RunStart::JobNotFound)
    }

    /// Marks job `job_id` complete, if it is still there.
    fn end_run(&mut self, job_id: JobId) -> (r: Result<(), RunJobError>)
        ensures
            final(self).same_worker(*old(self)),
            if old(self).jobs@.jobs.contains_key(job_id.0) {
                &&& r is Ok
                &&& final(self).jobs@ == old(self).jobs@.run_ended(job_id.0)
            } else {
                &&& r == Err::<(), RunJobError>(RunJobError::Disappeared)
                &&& final(self).jobs@ == old(self).jobs@
            },
    {
        match self.jobs.jobs.remove(&job_id.0) {
            None => {
                proof {
                    assert(self.jobs@ =~= old(self).jobs@);
                }
                Err(RunJobError::Disappeared)
            },
            Some(entry) => {
                self.jobs.jobs.insert(
                    job_id.0,
                    WorkerJobEntry { job: WorkerJob::Complete, busy: entry.busy },
                );
                proof {
                    assert(self.jobs@ =~= old(self).jobs@.run_ended(job_id.0));
                }
                Ok(())
            },
        }
    }

    /// Goes on after the start of job `job_id` was reported: to the build if the
    /// report went well, else past it.
    pub fn started_reported<T, E>(
        &mut self,
        job_id: JobId,
        toolchain: Toolchain,
        report: Result<(), E>,
    ) -> (r: Result<AfterStart<T, E>, RunJobError>)
        ensures
            final(self).same_worker(*old(self)),
            r == old(self).jobs@.start_answer::<T, E>(job_id.0, toolchain, report),
            match report {
                Ok(_) => {
                    &&& r == Ok::<AfterStart<T, E>, RunJobError>(AfterStart::Build { toolchain })
                    &&& final(self).jobs@ == old(self).jobs@
                },
                Err(e) => if old(self).jobs@.jobs.contains_key(job_id.0) {
                    &&& r == Ok::<AfterStart<T, E>, RunJobError>(
                        AfterStart::ReportComplete { run: FinishedRun { job_id, result: Err(e) } },
                    )
                    &&& final(self).jobs@ == old(self).jobs@.run_ended(job_id.0)
                } else {
                    &&& r == Err::<AfterStart<T, E>, RunJobError>(RunJobError::Disappeared)
                    &&& final(self).jobs@ == old(self).jobs@
                },
            },
    {
        match report {
            Ok(_) => Ok(AfterStart::Build { toolchain }),
            Err(e) => match self.end_run(job_id) {
                Ok(_) => Ok(
                    AfterStart::ReportComplete { run: FinishedRun { job_id, result: Err(e) } },
                ),
                Err(gone) => Err(gone),
            },
        }
    }

    /// Goes on after the build of job `job_id`: to the report that it is complete.
    pub fn build_finished<T, E>(&mut self, job_id: JobId, built: Result<T, E>) -> (r: Result<
        FinishedRun<T, E>,
        RunJobError,
    >)
        ensures
            final(self).same_worker(*old(self)),
            r == old(self).jobs@.build_answer(job_id.0, built),
            if old(self).jobs@.jobs.contains_key(job_id.0) {
                &&& r == Ok::<FinishedRun<T, E>, RunJobError>(FinishedRun { job_id, result: built })
                &&& final(self).jobs@ == old(self).jobs@.run_ended(job_id.0)
            } else {
                &&& r == Err::<FinishedRun<T, E>, RunJobError>(RunJobError::Disappeared)
                &&& final(self).jobs@ == old(self).jobs@
            },
    {
        match self.end_run(job_id) {
            Ok(_) => Ok(FinishedRun { job_id, result: built }),
            Err(gone) => Err(gone),
        }
    }

    /// Retires a job whose completion was reported. The request is answered with
    /// the error of that report, or else with what came of the run.
    pub fn complete_reported<T, E>(&mut self, run: FinishedRun<T, E>, report: Result<(), E>) -> (r:
        Result<T, E>)
        ensures
            final(self).same_worker(*old(self)),
            final(self).jobs@ == old(self).jobs@.retire(run.job_id.0),
            r == reply_to(run.result, report),
            r == match report {
                Ok(_) => run.result,
                Err(e) => Err(e),
            },
    {
        self.jobs.retire(run.job_id);
        match report {
            Ok(_) => run.result,
            Err(e) => Err(e),
        }
    }
}

} // verus!
