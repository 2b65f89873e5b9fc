//! How long a worker keeps trying to report a job to the scheduler.

use vstd::prelude::*;

use crate::dist::{elapsed, elapsed_since, UpdateJobStateResult, SERVER_REMEMBER_ERROR_TIMEOUT};

verus! {

/// How long a worker tries to report one state of a job, in nanoseconds.
pub const JOB_STATE_REPORT_DEADLINE: u64 = SERVER_REMEMBER_ERROR_TIMEOUT;

/// How long a worker waits before it tries again, in nanoseconds.
pub const JOB_STATE_REPORT_RETRY_SLEEP: u64 = 5_000_000_000;

/// How long one attempt may take, in nanoseconds.
pub const JOB_STATE_REPORT_ATTEMPT: u64 = 10_000_000_000;

/// A report in progress.
#[derive(Clone, Copy, Debug, PartialEq, Eq, Structural)]
pub struct StateReport {
    /// The time at which every attempt has to be over.
    pub deadline: u64,
}

/// What to do after an attempt. `E` is what an attempt fails with.
#[derive(Debug, PartialEq, Eq)]
pub enum ReportStep<E> {
    /// The scheduler has noted the report.
    Done,
    /// The scheduler has turned the report down.
    Rejected { msg: String },
    /// The attempt failed, and there is no time for another.
    DeadlineElapsed { error: E },
    /// The attempt failed. Another is due after this many nanoseconds.
    RetryAfter { sleep: u64 },
}

impl StateReport {
    /// Whether an attempt that failed by `now` is followed by another: more time has
    /// to be left than a wait and an attempt take.
    pub open spec fn retries(self, now: u64) -> bool {
        elapsed(self.deadline, now) > JOB_STATE_REPORT_RETRY_SLEEP + JOB_STATE_REPORT_ATTEMPT
    }

    /// What to do after an attempt that was answered with `reply`, or that failed, by
    /// `now`.
    pub open spec fn step<E>(self, reply: Result<UpdateJobStateResult, E>, now: u64) -> ReportStep<
        E,
    > {
        match reply {
            Ok(UpdateJobStateResult::Success) => ReportStep::Done,
            Ok(UpdateJobStateResult::Fail { msg }) => ReportStep::Rejected { msg },
            Err(error) => if self.retries(now) {
                ReportStep::RetryAfter { sleep: JOB_STATE_REPORT_RETRY_SLEEP }
            } else {
                ReportStep::DeadlineElapsed { error }
            },
        }
    }

    /// A report that starts at `now`.
    pub fn new(now: u64) -> (r: StateReport)
        requires
            now + JOB_STATE_REPORT_DEADLINE <= u64::MAX,
        ensures
            r.deadline == now + JOB_STATE_REPORT_DEADLINE,
            r.deadline == now + 300_000_000_000,
    {
        StateReport { deadline: now + JOB_STATE_REPORT_DEADLINE }
    }

    /// What to do after an attempt that was answered with `reply`, or that failed,
    /// by `now`.
    pub fn answered<E>(&self, reply: Result<UpdateJobStateResult, E>, now: u64) -> (r: ReportStep<
        E,
    >)
        ensures
            r == self.step(reply, now),
            r == (match reply {
                Ok(UpdateJobStateResult::Success) => ReportStep::<E>::Done,
                Ok(UpdateJobStateResult::Fail { msg }) => ReportStep::Rejected { msg },
                Err(error) => if self.retries(now) {
                    ReportStep::RetryAfter { sleep: JOB_STATE_REPORT_RETRY_SLEEP }
                } else {
                    ReportStep::DeadlineElapsed { error }
                },
            }),
    {
        match reply {
            Ok(UpdateJobStateResult::Success) => ReportStep::Done,
            Ok(UpdateJobStateResult::Fail { msg }) => ReportStep::Rejected { msg },
            Err(error) => {
                let left: u64 = elapsed_since(self.deadline, now);
                if left <= JOB_STATE_REPORT_RETRY_SLEEP + JOB_STATE_REPORT_ATTEMPT {
                    ReportStep::DeadlineElapsed { error }
                } else {
                    ReportStep::RetryAfter { sleep: JOB_STATE_REPORT_RETRY_SLEEP }
                }
            },
        }
    }
}

/// A reply ends a report: it is noted, or it was turned down for the reason given. A failure
/// is followed by another attempt after five seconds exactly if more than fifteen are left,
/// and is the end of it otherwise.
pub proof fn law_what_follows_an_attempt_to_report<E>(
    report: StateReport,
    reply: Result<UpdateJobStateResult, E>,
    now: u64,
)
    ensures
        ({
            let r = report.step(reply, now);
            &&& r is Done <==> (reply is Ok && reply->Ok_0 is Success)
            &&& reply matches Ok(UpdateJobStateResult::Fail { msg }) ==> r == (
            ReportStep::<E>::Rejected { msg })
            &&& reply matches Err(error) ==> {
                &&& report.deadline - now > 15_000_000_000 ==> r == (ReportStep::<E>::RetryAfter {
                    sleep: 5_000_000_000,
                })
                &&& report.deadline - now <= 15_000_000_000 ==> r == (ReportStep::DeadlineElapsed {
                    error,
                })
            }
        }),
{
}

/// No attempt is made that cannot be over before the deadline: one that starts right
/// after the wait, and takes as long as it may, ends before it.
pub proof fn law_retries_end_before_the_deadline(report: StateReport, now: u64)
    requires
        report.retries(now),
    ensures
        now + JOB_STATE_REPORT_RETRY_SLEEP + JOB_STATE_REPORT_ATTEMPT < report.deadline,
{
}

/// A report is retried at most fifty-seven times: `times` are the times at which
/// attempts of a report that started at `start` failed and were followed by another.
pub proof fn law_retries_are_bounded(report: StateReport, start: u64, times: Seq<u64>)
    requires
        report.deadline == start + JOB_STATE_REPORT_DEADLINE,
        forall|i: int|
            0 <= i < times.len() ==> start <= #[trigger] times[i] && report.retries(times[i]),
        forall|i: int, j: int|
            0 <= i && j == i + 1 && j < times.len() ==> #[trigger] times[j] >= #[trigger] times[i]
                + JOB_STATE_REPORT_RETRY_SLEEP,
    ensures
        times.len() <= 57,
{
    if times.len() > 0 {
        lemma_times_add_up(start, times, times.len() - 1);
        assert(report.retries(times[times.len() - 1]));
    }
}

/// Every wait adds to the time that has passed.
proof fn lemma_times_add_up(start: u64, times: Seq<u64>, n: int)
    requires
        0 <= n < times.len(),
        forall|i: int| 0 <= i < times.len() ==> start <= #[trigger] times[i],
        forall|i: int, j: int|
            0 <= i && j == i + 1 && j < times.len() ==> #[trigger] times[j] >= #[trigger] times[i]
                + JOB_STATE_REPORT_RETRY_SLEEP,
    ensures
        times[n] >= start + n * JOB_STATE_REPORT_RETRY_SLEEP,
    decreases n,
{
    if n > 0 {
        lemma_times_add_up(start, times, n - 1);
        assert(times[n] >= times[n - 1] + JOB_STATE_REPORT_RETRY_SLEEP);
    }
}

} // verus!
