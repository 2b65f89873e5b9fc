use sccache_dist::dist::{
    elapsed_since, unclaimed_ms, AssignJobResult, JobId, JobState, ServerNonce,
    SubmitToolchainResult, Toolchain, WorkerJobSnapshot, WorkerJobSnapshotState,
    UNCLAIMED_PENDING_TIMEOUT, UNCLAIMED_READY_TIMEOUT,
};
use sccache_dist::ledger::{WorkerJob, WorkerJobEntry, WorkerLedger};
use sccache_dist::run_job::{AfterStart, FinishedRun, RunJobError, RunStart};
use sccache_dist::server::{AssignJobError, Server, SnapshotError};
use sccache_dist::upload::{
    upload_answer, upload_route, SubmitToolchainError, UploadRoute, UploadStart,
};

const MAX_WORK_SNAPSHOT_JOBS: usize = 4096;
const NOW: u64 = 1_000_000_000_000;

fn secs(n: u64) -> u64 {
    n * 1_000_000_000
}

fn worker() -> Server {
    Server::new(ServerNonce(77), MAX_WORK_SNAPSHOT_JOBS, 1)
}

fn toolchain() -> Toolchain {
    Toolchain { archive_id: "recovery-fixture".to_owned() }
}

fn assign(server: &mut Server, id: u64) -> Result<AssignJobResult, AssignJobError> {
    server.handle_assign_job(JobId(id), toolchain(), true, NOW, NOW)
}

fn pending_since(at: u64) -> WorkerJob {
    WorkerJob::Pending { toolchain: toolchain(), assigned_at: at }
}

fn ready_since(at: u64) -> WorkerJob {
    WorkerJob::Ready { toolchain: toolchain(), ready_at: at }
}

fn listed(jobs: &[WorkerJobSnapshot]) -> Vec<JobId> {
    jobs.iter().map(|job| job.job_id).collect::<Vec<_>>()
}

fn known(ledger: &WorkerLedger, id: u64) -> bool {
    ledger.jobs.contains_key(&id)
        || ledger.retired.contains(&id)
        || ledger.retired_through.is_some_and(|floor| id <= floor)
}

#[test]
fn expiry_preserves_active_uploads_and_running_work() {
    let mut server = worker();
    for id in 0..4 {
        assign(&mut server, id).unwrap();
    }
    let old = NOW - secs(301);
    {
        let ledger = &mut server.jobs;
        for id in [0, 2] {
            ledger.jobs.get_mut(&id).unwrap().job = pending_since(old);
        }
        ledger.jobs.get_mut(&1).unwrap().job = ready_since(old);
        ledger.jobs.get_mut(&2).unwrap().busy = true;
        ledger.jobs.get_mut(&3).unwrap().job = WorkerJob::Started;
    }
    let snapshot = server.work_snapshot(NOW).unwrap();
    assert_eq!(listed(&snapshot.jobs), vec![JobId(2), JobId(3)]);
    assert!(snapshot.jobs.iter().all(|job| job.unclaimed_for_ms == 0));
    server.jobs.jobs.get_mut(&2).unwrap().busy = false;
    let snapshot = server.work_snapshot(NOW).unwrap();
    assert_eq!(listed(&snapshot.jobs), vec![JobId(3)]);
    assert_eq!(snapshot.next_job_id, 4);
    assert!(assign(&mut server, 0).is_err());
}

#[test]
fn completed_work_cannot_reexecute_and_out_of_order_ids_remain_valid() {
    let mut server = worker();
    assign(&mut server, 2).unwrap();
    assign(&mut server, 1).unwrap();
    server.jobs.jobs.get_mut(&2).unwrap().job = WorkerJob::Complete;
    let snapshot = server.work_snapshot(NOW).unwrap();
    assert_eq!(listed(&snapshot.jobs), vec![JobId(1)]);
    assert_eq!(snapshot.next_job_id, 3);
    server.jobs.retire(JobId(2));
    assert!(assign(&mut server, 2).is_err());
    assert!(assign(&mut server, 1).is_err());
    assert_eq!(server.work_snapshot(NOW).unwrap().next_job_id, 3);
}

#[test]
fn late_retirement_cannot_reopen_an_evicted_replay_window() {
    let mut server = worker();
    {
        let ledger = &mut server.jobs;
        for id in 1..=(MAX_WORK_SNAPSHOT_JOBS as u64 + 5) {
            ledger.retire(JobId(id));
        }
        // A very old compile can finish after newer tombstones expired.
        ledger.retire(JobId(0));
        assert!(ledger.retired.len() <= MAX_WORK_SNAPSHOT_JOBS);
    }
    assert!(assign(&mut server, 1).is_err());
    assign(&mut server, MAX_WORK_SNAPSHOT_JOBS as u64 + 10).unwrap();
}

#[test]
fn assignment_overflow_and_capacity_fail_without_partial_admission() {
    let mut server = worker();
    assert!(assign(&mut server, u64::MAX).is_err());
    assert_eq!(server.work_snapshot(NOW).unwrap().next_job_id, 0);
    for id in 0..MAX_WORK_SNAPSHOT_JOBS as u64 {
        assign(&mut server, id).unwrap();
    }
    assert!(assign(&mut server, MAX_WORK_SNAPSHOT_JOBS as u64).is_err());
    let snapshot = server.work_snapshot(NOW).unwrap();
    assert_eq!(snapshot.jobs.len(), MAX_WORK_SNAPSHOT_JOBS);
    assert_eq!(snapshot.next_job_id, MAX_WORK_SNAPSHOT_JOBS as u64);
    assert_eq!(snapshot.jobs.first().unwrap().job_id, JobId(0));
    assert_eq!(
        snapshot.jobs.last().unwrap().job_id,
        JobId(MAX_WORK_SNAPSHOT_JOBS as u64 - 1)
    );
}

#[test]
fn each_refused_assignment_says_why() {
    let mut server = Server::new(ServerNonce(1), 2, 1);
    assert_eq!(assign(&mut server, u64::MAX), Err(AssignJobError::JobIdExhausted));
    assign(&mut server, 5).unwrap();
    assert_eq!(
        assign(&mut server, 5),
        Err(AssignJobError::DuplicateOrStale { job_id: JobId(5) })
    );
    assign(&mut server, 6).unwrap();
    assert_eq!(assign(&mut server, 7), Err(AssignJobError::ActiveJobBound));
    // A known number is turned down as such even when the worker is full.
    assert_eq!(
        assign(&mut server, 6),
        Err(AssignJobError::DuplicateOrStale { job_id: JobId(6) })
    );
    assert_eq!(server.jobs.jobs.len(), 2);
    assert_eq!(server.jobs.next_job_id, 7);
}

#[test]
fn a_job_is_pending_or_ready_by_the_cache() {
    let mut server = worker();
    assert_eq!(
        server.handle_assign_job(JobId(0), toolchain(), true, NOW, NOW + 3),
        Ok(AssignJobResult { state: JobState::Pending, need_toolchain: true })
    );
    assert_eq!(
        server.handle_assign_job(JobId(1), toolchain(), false, NOW, NOW + 4),
        Ok(AssignJobResult { state: JobState::Ready, need_toolchain: false })
    );
    assert_eq!(
        server.jobs.jobs[&0],
        WorkerJobEntry { job: pending_since(NOW + 3), busy: false }
    );
    assert_eq!(
        server.jobs.jobs[&1],
        WorkerJobEntry { job: ready_since(NOW + 4), busy: false }
    );
}

#[test]
fn expiry_starts_just_after_the_timeout() {
    let mut ledger = WorkerLedger::new(8);
    let pending = WorkerJobEntry { job: pending_since(0), busy: false };
    let ready = WorkerJobEntry { job: ready_since(0), busy: false };
    ledger.jobs.insert(1, pending);
    ledger.jobs.insert(2, ready);
    ledger.sweep_expired(UNCLAIMED_READY_TIMEOUT);
    assert_eq!(ledger.jobs.len(), 2);
    ledger.sweep_expired(UNCLAIMED_READY_TIMEOUT + 1);
    assert_eq!(ledger.jobs.keys().copied().collect::<Vec<_>>(), vec![1]);
    ledger.sweep_expired(UNCLAIMED_PENDING_TIMEOUT);
    assert_eq!(ledger.jobs.len(), 1);
    ledger.sweep_expired(UNCLAIMED_PENDING_TIMEOUT + 1);
    assert!(ledger.jobs.is_empty());
    assert_eq!(ledger.retired.iter().copied().collect::<Vec<_>>(), vec![1, 2]);
    assert_eq!(ledger.retired_through, None);
}

#[test]
fn a_clock_that_goes_back_expires_nothing() {
    let mut ledger = WorkerLedger::new(8);
    ledger.jobs.insert(1, WorkerJobEntry { job: ready_since(secs(500)), busy: false });
    ledger.sweep_expired(secs(1));
    assert_eq!(ledger.jobs.len(), 1);
    assert_eq!(elapsed_since(secs(1), secs(500)), 0);
    assert_eq!(unclaimed_ms(secs(1), secs(500)), 0);
    assert_eq!(unclaimed_ms(secs(500) + 1_999_999, secs(499)), 1_001);
}

#[test]
fn trimming_keeps_the_highest_numbers_and_raises_the_floor() {
    let mut ledger = WorkerLedger::new(3);
    for id in [10, 4, 30, 20, 7] {
        ledger.retired.insert(id);
    }
    ledger.trim_retired();
    assert_eq!(ledger.retired.iter().copied().collect::<Vec<_>>(), vec![10, 20, 30]);
    assert_eq!(ledger.retired_through, Some(7));
    // A late, low number is evicted at once and does not lower the floor.
    ledger.retire(JobId(2));
    assert_eq!(ledger.retired_through, Some(7));
    assert_eq!(ledger.retired.len(), 3);
    ledger.retire(JobId(40));
    assert_eq!(ledger.retired_through, Some(10));
}

#[test]
fn a_bound_of_zero_remembers_by_the_floor_alone() {
    let mut ledger = WorkerLedger::new(0);
    ledger.retire(JobId(9));
    assert!(ledger.retired.is_empty());
    assert_eq!(ledger.retired_through, Some(9));
}

#[test]
fn known_numbers_stay_known_through_a_life() {
    let mut server = Server::new(ServerNonce(1), 2, 1);
    assign(&mut server, 3).unwrap();
    server.handle_submit_toolchain(JobId(3), NOW).unwrap();
    server.upload_settled(JobId(3), toolchain(), SubmitToolchainResult::Success, NOW).unwrap();
    server.release_upload(JobId(3), NOW);
    server.handle_run_job(JobId(3), NOW).unwrap();
    let run = server.build_finished::<u8, u8>(JobId(3), Ok(1)).unwrap();
    server.complete_reported(run, Ok(())).unwrap();
    for id in [8, 9, 10] {
        server.jobs.retire(JobId(id));
    }
    assert!(known(&server.jobs, 3));
    assert_eq!(server.jobs.retired_through, Some(8));
    assert!(assign(&mut server, 3).is_err());
    assert!(assign(&mut server, 11).is_ok());
}

#[test]
fn retirement_with_room_shuts_out_one_number() {
    let mut server = Server::new(ServerNonce(1), 4, 1);
    server.jobs.retire(JobId(5));
    assert!(!known(&server.jobs, 4));
    assert!(!known(&server.jobs, 6));
    assert!(assign(&mut server, 4).is_ok());
    assert!(assign(&mut server, 6).is_ok());
    assert!(assign(&mut server, 5).is_err());
}

#[test]
fn a_snapshot_tells_what_is_going_on() {
    let mut server = worker();
    server.jobs.jobs.insert(9, WorkerJobEntry { job: pending_since(NOW - secs(2)), busy: false });
    server.jobs.jobs.insert(4, WorkerJobEntry { job: ready_since(NOW - secs(3)), busy: false });
    server.jobs.jobs.insert(5, WorkerJobEntry { job: ready_since(NOW - secs(3)), busy: true });
    server.jobs.jobs.insert(6, WorkerJobEntry { job: WorkerJob::Started, busy: false });
    server.jobs.jobs.insert(7, WorkerJobEntry { job: WorkerJob::Complete, busy: false });
    let snapshot = server.handle_work_snapshot(NOW).unwrap();
    assert_eq!(snapshot.version, 1);
    assert_eq!(snapshot.server_nonce, ServerNonce(77));
    let record = |id: u64, state, ms| WorkerJobSnapshot {
        job_id: JobId(id),
        state,
        unclaimed_for_ms: ms,
    };
    assert_eq!(
        snapshot.jobs,
        vec![
            record(4, WorkerJobSnapshotState::Ready, 3_000),
            record(5, WorkerJobSnapshotState::Ready, 0),
            record(6, WorkerJobSnapshotState::Started, 0),
            record(9, WorkerJobSnapshotState::Pending, 2_000),
        ]
    );
    assert_eq!(snapshot, server.work_snapshot(NOW).unwrap());
}

#[test]
fn a_snapshot_of_too_many_jobs_is_refused() {
    let mut server = Server::new(ServerNonce(1), 1, 1);
    server.jobs.jobs.insert(1, WorkerJobEntry { job: WorkerJob::Started, busy: false });
    assert!(server.work_snapshot(NOW).is_ok());
    server.jobs.jobs.insert(2, WorkerJobEntry { job: WorkerJob::Started, busy: false });
    assert_eq!(server.work_snapshot(NOW), Err(SnapshotError::JobBound));
}

#[test]
fn an_upload_makes_a_pending_job_ready() {
    let mut server = worker();
    assign(&mut server, 1).unwrap();
    assert_eq!(
        server.handle_submit_toolchain(JobId(1), NOW),
        Ok(UploadStart::Proceed { toolchain: toolchain() })
    );
    assert!(server.jobs.jobs[&1].busy);
    assert_eq!(
        server.handle_submit_toolchain(JobId(1), NOW),
        Err(SubmitToolchainError::ConcurrentUpload { job_id: JobId(1) })
    );
    let result = SubmitToolchainResult::Success;
    assert_eq!(server.upload_settled(JobId(1), toolchain(), result, NOW + 5), Ok(true));
    assert_eq!(server.jobs.jobs[&1], WorkerJobEntry { job: ready_since(NOW + 5), busy: true });
    server.release_upload(JobId(1), NOW + 9);
    assert_eq!(server.jobs.jobs[&1], WorkerJobEntry { job: ready_since(NOW + 9), busy: false });
    // A second upload of the same toolchain changes nothing that has to be reported.
    server.handle_submit_toolchain(JobId(1), NOW).unwrap();
    assert_eq!(server.upload_settled(JobId(1), toolchain(), result, NOW + 11), Ok(false));
    assert_eq!(server.jobs.jobs[&1], WorkerJobEntry { job: ready_since(NOW + 9), busy: true });
}

#[test]
fn a_failed_upload_leaves_the_job_pending() {
    let mut server = worker();
    assign(&mut server, 1).unwrap();
    server.handle_submit_toolchain(JobId(1), NOW).unwrap();
    let result = SubmitToolchainResult::CannotCache;
    assert_eq!(server.upload_settled(JobId(1), toolchain(), result, NOW + 5), Ok(false));
    server.release_upload(JobId(1), NOW + 9);
    assert_eq!(server.jobs.jobs[&1], WorkerJobEntry { job: pending_since(NOW), busy: false });
}

#[test]
fn uploads_need_an_unclaimed_job() {
    let mut server = worker();
    assert_eq!(server.handle_submit_toolchain(JobId(1), NOW), Ok(UploadStart::JobNotFound));
    for job in [WorkerJob::Started, WorkerJob::Complete] {
        server.jobs.jobs.insert(1, WorkerJobEntry { job, busy: false });
        assert_eq!(server.handle_submit_toolchain(JobId(1), NOW), Ok(UploadStart::JobNotFound));
    }
    let result = SubmitToolchainResult::Success;
    assert_eq!(
        server.upload_settled(JobId(2), toolchain(), result, NOW),
        Err(SubmitToolchainError::LostJob)
    );
    server.release_upload(JobId(2), NOW);
    assert!(!server.jobs.jobs.contains_key(&2));
}

#[test]
fn uploads_are_stored_or_drained() {
    assert_eq!(upload_route(true), UploadRoute::Drain);
    assert_eq!(upload_route(false), UploadRoute::Store);
    assert_eq!(UploadRoute::Drain.outcome(true), Ok(SubmitToolchainResult::Success));
    assert_eq!(UploadRoute::Drain.outcome(false), Err(SubmitToolchainError::DrainFailed));
    assert_eq!(UploadRoute::Store.outcome(true), Ok(SubmitToolchainResult::Success));
    assert_eq!(UploadRoute::Store.outcome(false), Ok(SubmitToolchainResult::CannotCache));
}

#[test]
fn a_failed_ready_report_is_the_answer_to_an_upload() {
    for result in [SubmitToolchainResult::Success, SubmitToolchainResult::CannotCache] {
        assert_eq!(upload_answer::<&str>(result, Ok(())), Ok(result));
        assert_eq!(upload_answer(result, Err("down")), Err("down"));
    }
}

#[test]
fn a_run_goes_from_claim_to_retirement() {
    let mut server = worker();
    server.handle_assign_job(JobId(1), toolchain(), false, NOW, NOW).unwrap();
    assert_eq!(
        server.handle_run_job(JobId(1), NOW),
        Ok(RunStart::Claimed { toolchain: toolchain() })
    );
    assert_eq!(server.jobs.jobs[&1].job, WorkerJob::Started);
    assert_eq!(
        server.handle_run_job(JobId(1), NOW),
        Err(RunJobError::DuplicateRun { job_id: JobId(1) })
    );
    assert_eq!(
        server.started_reported::<u8, &str>(JobId(1), toolchain(), Ok(())),
        Ok(AfterStart::Build { toolchain: toolchain() })
    );
    let run = server.build_finished::<u8, &str>(JobId(1), Ok(42)).unwrap();
    assert_eq!(run, FinishedRun { job_id: JobId(1), result: Ok(42) });
    assert_eq!(server.jobs.jobs[&1].job, WorkerJob::Complete);
    assert_eq!(
        server.handle_run_job(JobId(1), NOW),
        Err(RunJobError::DuplicateRun { job_id: JobId(1) })
    );
    assert_eq!(server.complete_reported(run, Ok(())), Ok(42));
    assert!(server.jobs.jobs.is_empty());
    assert!(server.jobs.retired.contains(&1));
    assert_eq!(server.handle_run_job(JobId(1), NOW), Ok(RunStart::JobNotFound));
}

#[test]
fn a_failed_start_report_skips_the_build() {
    let mut server = worker();
    server.handle_assign_job(JobId(1), toolchain(), false, NOW, NOW).unwrap();
    server.handle_run_job(JobId(1), NOW).unwrap();
    let after = server.started_reported::<u8, &str>(JobId(1), toolchain(), Err("down")).unwrap();
    let run = FinishedRun { job_id: JobId(1), result: Err("down") };
    assert_eq!(after, AfterStart::ReportComplete { run });
    let run = FinishedRun { job_id: JobId(1), result: Err("down") };
    assert_eq!(server.complete_reported::<u8, &str>(run, Ok(())), Err("down"));
    assert!(server.jobs.jobs.is_empty());
}

#[test]
fn the_error_of_the_last_report_wins() {
    let mut server = worker();
    let run = FinishedRun { job_id: JobId(1), result: Ok::<u8, &str>(42) };
    assert_eq!(server.complete_reported(run, Err("late")), Err("late"));
    assert!(server.jobs.retired.contains(&1));
}

#[test]
fn a_job_that_is_gone_cannot_end() {
    let mut server = worker();
    assert_eq!(
        server.build_finished::<u8, &str>(JobId(1), Ok(42)),
        Err(RunJobError::Disappeared)
    );
    assert_eq!(
        server.started_reported::<u8, &str>(JobId(1), toolchain(), Err("down")),
        Err(RunJobError::Disappeared)
    );
}

#[test]
fn only_ready_jobs_run() {
    let mut server = worker();
    assert_eq!(server.handle_run_job(JobId(1), NOW), Ok(RunStart::JobNotFound));
    assign(&mut server, 1).unwrap();
    assert_eq!(server.handle_run_job(JobId(1), NOW), Ok(RunStart::JobNotFound));
    assert_eq!(server.jobs.jobs[&1].job, pending_since(NOW));
    // A job that has waited for too long is gone by the time it is to run.
    server.jobs.jobs.insert(2, WorkerJobEntry { job: ready_since(NOW - secs(61)), busy: false });
    assert_eq!(server.handle_run_job(JobId(2), NOW), Ok(RunStart::JobNotFound));
    assert!(server.jobs.retired.contains(&2));
}
