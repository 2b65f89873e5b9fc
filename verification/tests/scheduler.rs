use sccache_dist::dist::{
    HeartbeatServerResult, JobId, JobState, SchedulerStatusResult, ServerId, ServerNonce,
    UpdateJobStateResult, SERVER_REMEMBER_ERROR_TIMEOUT, UNCLAIMED_PENDING_TIMEOUT,
    UNCLAIMED_READY_TIMEOUT,
};
use sccache_dist::load::{load_weight, LoadWeight};
use sccache_dist::scheduler::allocation::{Allocation, AssignFailure};
use sccache_dist::scheduler::job_state::UpdateJobStateError;
use sccache_dist::scheduler::{HeartbeatError, JobDetail, Scheduler, ServerDetails};

const TIMEOUT: u64 = 90_000_000_000;
const START: u64 = 1_000_000_000_000;

fn server(port: u16) -> ServerId {
    ServerId::V4 { ip: 0x7f00_0001, port }
}

fn heartbeat(s: &mut Scheduler<u32>, port: u16, nonce: u64, cpus: usize, now: u64) -> bool {
    let (id, nonce) = (server(port), ServerNonce(nonce));
    let r = s.handle_heartbeat_server(id, nonce, cpus, port as u32, now, now, TIMEOUT);
    r.unwrap().is_new
}

/// A sign of life of a server that is known, however long it has been silent.
fn still_alive(s: &mut Scheduler<u32>, port: u16, now: u64) {
    let r = s.handle_heartbeat_server(server(port), ServerNonce(1), 1, 0, now, now, u64::MAX);
    assert_eq!(r, Ok(HeartbeatServerResult { is_new: false }));
}

fn details(s: &Scheduler<u32>, port: u16) -> &ServerDetails<u32> {
    s.server(server(port)).unwrap()
}

/// Makes the scheduler remember a failure of a server.
fn fail(s: &mut Scheduler<u32>, port: u16, at: u64) {
    let r = s.assignment_failed(JobId(u64::MAX), server(port), at);
    assert_eq!(r, AssignFailure::JobNotKnown);
}

fn with_servers(cpus: &[usize]) -> Scheduler<u32> {
    let mut s = Scheduler::new();
    for (i, n) in cpus.iter().enumerate() {
        assert!(heartbeat(&mut s, i as u16, 1, *n, START));
    }
    s
}

fn place(s: &mut Scheduler<u32>, now: u64) -> (u64, ServerId) {
    match s.handle_alloc_job(now, now) {
        Allocation::Assigned { job_id, server_id } => (job_id.0, server_id),
        Allocation::Fail { msg } => panic!("{msg}"),
    }
}

fn accepted(s: &mut Scheduler<u32>, now: u64, state: JobState) -> (u64, ServerId) {
    let (job, id) = place(s, now);
    assert!(!s.has_job(JobId(job)));
    s.assignment_accepted(JobId(job), id, state);
    assert!(s.has_job(JobId(job)));
    (job, id)
}

fn report(
    s: &mut Scheduler<u32>,
    job: u64,
    id: ServerId,
    to: JobState,
    now: u64,
) -> Result<UpdateJobStateResult, UpdateJobStateError> {
    assert!(!s.is_stray_report(JobId(job), id, to));
    s.handle_update_job_state(JobId(job), id, to, now)
}

#[test]
fn loads_are_exact_fractions() {
    assert_eq!(load_weight(3, 4), LoadWeight { jobs: 3, cores: 4 });
    assert!(load_weight(1, 3).is_lighter_than(&load_weight(2, 5)));
    assert!(!load_weight(2, 4).is_lighter_than(&load_weight(1, 2)));
    assert!(load_weight(0, 7).is_zero());
}

#[test]
fn a_server_takes_slightly_more_jobs_than_it_has_cores() {
    for (cores, limit) in [(1, 2), (4, 5), (8, 10), (16, 19), (64, 73)] {
        assert!(load_weight(limit - 1, cores).is_lighter_than(&LoadWeight::max()));
        assert!(!load_weight(limit, cores).is_lighter_than(&LoadWeight::max()));
    }
    assert_eq!(load_weight(2, 1), LoadWeight { jobs: 3, cores: 1 });
}

#[test]
fn fewer_jobs_are_lighter_and_order_carries_over() {
    let (a, b, c) = (load_weight(1, 4), load_weight(2, 4), load_weight(3, 5));
    assert!(a.is_lighter_than(&b));
    assert!(b.is_lighter_than(&c));
    assert!(a.is_lighter_than(&c));
    assert!(load_weight(usize::MAX - 1, usize::MAX).is_lighter_than(&LoadWeight::max()));
}

#[test]
fn a_new_scheduler_has_nothing() {
    let mut s: Scheduler<u32> = Scheduler::default();
    assert_eq!(s.live_cpus(START, TIMEOUT), Some(0));
    assert_eq!(
        s.handle_status(START, TIMEOUT),
        SchedulerStatusResult { num_servers: 0, num_cpus: 0, in_progress: 0 }
    );
    match s.handle_alloc_job(START, START) {
        Allocation::Fail { msg } => {
            assert_eq!(msg, "Insufficient capacity across 0 available servers")
        }
        other => panic!("{other:?}"),
    }
    assert_eq!(s.job_count(), 0);
}

#[test]
fn jobs_go_to_the_lightest_server() {
    let mut s = with_servers(&[2, 4]);
    assert_eq!(place(&mut s, START), (0, server(0)));
    // The first server has load 1/2 now, the second none.
    assert_eq!(place(&mut s, START), (1, server(1)));
    assert_eq!(place(&mut s, START), (2, server(1)));
    // Both have load 1/2: the first in order is kept.
    assert_eq!(place(&mut s, START), (3, server(0)));
    assert_eq!(place(&mut s, START), (4, server(1)));
    assert_eq!(s.job_count(), 5);
    assert!(details(&s, 1).jobs_assigned.contains(&4));
    assert_eq!(details(&s, 1).jobs_unclaimed.get(&4), Some(&START));
}

#[test]
fn a_job_fails_exactly_when_no_server_has_room() {
    let mut s = with_servers(&[1, 2]);
    for n in 0..5 {
        assert_eq!(place(&mut s, START).0, n);
    }
    assert_eq!(details(&s, 0).jobs_assigned.len(), 2);
    assert_eq!(details(&s, 1).jobs_assigned.len(), 3);
    assert_eq!(
        s.handle_alloc_job(START, START),
        Allocation::Fail { msg: "Insufficient capacity across 2 available servers".to_owned() }
    );
    assert_eq!(s.job_count(), 5);
}

#[test]
fn a_server_that_failed_is_passed_over() {
    let mut s = with_servers(&[8, 1]);
    let (job, id) = place(&mut s, START);
    assert_eq!(id, server(0));
    assert_eq!(s.assignment_failed(JobId(job), id, START), AssignFailure::Unassigned);
    assert_eq!(details(&s, 0).last_error, Some(START));
    assert!(details(&s, 0).jobs_assigned.is_empty());
    assert!(details(&s, 0).jobs_unclaimed.is_empty());
    assert_eq!(place(&mut s, START).1, server(1));
    assert_eq!(place(&mut s, START).1, server(1));
    // Only the server that failed has room.
    assert_eq!(place(&mut s, START).1, server(0));
    assert_eq!(details(&s, 0).last_error, Some(START));
}

#[test]
fn a_failure_is_forgotten_after_a_while() {
    let mut s = with_servers(&[8, 1]);
    fail(&mut s, 0, START);
    let late = START + SERVER_REMEMBER_ERROR_TIMEOUT + 1;
    let (first, _) = accepted(&mut s, late - 1, JobState::Started);
    assert_eq!(s.job(JobId(first)).unwrap().server_id, server(1));
    // That server has a job already, but the failure of the other still counts.
    assert_eq!(place(&mut s, late - 1).1, server(1));
    assert_eq!(details(&s, 0).last_error, Some(START));
    // The failure is forgotten on the way, and does not count any more.
    assert_eq!(place(&mut s, late).1, server(0));
    assert_eq!(details(&s, 0).last_error, None);
    report(&mut s, first, server(1), JobState::Complete, late).unwrap();
    assert_eq!(place(&mut s, late).1, server(0));
}

#[test]
fn the_fallback_failed_the_longest_ago() {
    let mut s = with_servers(&[4, 4, 4]);
    for (port, ago) in [(0, 20), (1, 30), (2, 10)] {
        fail(&mut s, port, START - ago);
    }
    assert_eq!(place(&mut s, START).1, server(1));
    // Of two that failed at the same time, the first.
    fail(&mut s, 0, START - 30);
    assert_eq!(place(&mut s, START).1, server(0));
    // A forgiven one is chosen only if no faulty one follows.
    let now = START + SERVER_REMEMBER_ERROR_TIMEOUT;
    for (port, at) in [(0, START - 1), (1, START + 7), (2, START + 9)] {
        fail(&mut s, port, at);
    }
    assert_eq!(place(&mut s, now).1, server(1));
    assert_eq!(details(&s, 0).last_error, None);
}

#[test]
fn an_idle_server_ends_the_walk() {
    let mut s = with_servers(&[4, 4, 4]);
    fail(&mut s, 0, START);
    fail(&mut s, 2, START);
    let now = START + SERVER_REMEMBER_ERROR_TIMEOUT + 1;
    assert_eq!(place(&mut s, now).1, server(1));
    assert_eq!(details(&s, 0).last_error, None);
    assert_eq!(details(&s, 2).last_error, Some(START));
}

#[test]
fn each_failed_assignment_says_how() {
    let mut s = with_servers(&[4]);
    let (job, id) = place(&mut s, START);
    assert_eq!(
        s.assignment_failed(JobId(job), server(9), START),
        AssignFailure::ServerNotKnown
    );
    assert_eq!(details(&s, 0).last_error, None);
    assert_eq!(s.assignment_failed(JobId(job), id, START), AssignFailure::Unassigned);
    assert_eq!(s.assignment_failed(JobId(job), id, START + 1), AssignFailure::JobNotKnown);
    assert_eq!(details(&s, 0).last_error, Some(START + 1));
    assert_eq!(
        AssignFailure::ServerNotKnown.message(),
        "assign job failed and server not known"
    );
    assert_eq!(
        AssignFailure::JobNotKnown.message(),
        "assign job failed and job not known to the server"
    );
    assert_eq!(
        AssignFailure::Unassigned.message(),
        "assign job failed, job un-assigned from the server"
    );
}

#[test]
fn numbers_are_never_given_out_twice() {
    let mut s = with_servers(&[4]);
    let (first, id) = place(&mut s, START);
    s.assignment_failed(JobId(first), id, START);
    let (second, _) = place(&mut s, START);
    heartbeat(&mut s, 0, 2, 4, START);
    let (third, _) = place(&mut s, START);
    assert_eq!((first, second, third), (0, 1, 2));
    // One number was used up by each request that picked a server, and by nothing else.
    s.prune_servers(START + TIMEOUT + 1, TIMEOUT);
    assert!(matches!(s.handle_alloc_job(START, START), Allocation::Fail { .. }));
    assert_eq!(s.job_count(), 3);
}

#[test]
fn a_server_keeps_its_authorizer() {
    let mut s = with_servers(&[4, 4]);
    assert_eq!(s.authorizer(server(1)), Some(&1));
    assert_eq!(s.authorizer(server(2)), None);
    // A heartbeat of a known server changes neither its authorizer nor its cores.
    let r = s.handle_heartbeat_server(server(1), ServerNonce(1), 99, 55, START, START, TIMEOUT);
    assert_eq!(r, Ok(HeartbeatServerResult { is_new: false }));
    assert_eq!(s.authorizer(server(1)), Some(&1));
    assert_eq!(details(&s, 1).num_cpus, 4);
}

#[test]
fn a_heartbeat_without_cores_is_refused() {
    let mut s: Scheduler<u32> = Scheduler::new();
    let r = s.handle_heartbeat_server(server(1), ServerNonce(1), 0, 0, START, START, TIMEOUT);
    assert_eq!(r, Err(HeartbeatError::NoCpus));
    assert!(s.server(server(1)).is_none());
}

#[test]
fn silent_servers_are_dropped_with_their_jobs() {
    let mut s = with_servers(&[4, 4]);
    let (a, id) = accepted(&mut s, START, JobState::Ready);
    assert_eq!(id, server(0));
    let (b, _) = accepted(&mut s, START, JobState::Ready);
    still_alive(&mut s, 1, START + 1);
    let later = START + TIMEOUT + 1;
    assert_eq!(s.live_cpus(later, TIMEOUT), Some(4));
    let totals = SchedulerStatusResult { num_servers: 1, num_cpus: 4, in_progress: 1 };
    assert_eq!(s.handle_status(later, TIMEOUT), totals);
    assert!(!s.has_job(JobId(a)));
    assert!(s.has_job(JobId(b)));
    assert!(s.server(server(0)).is_none());
    // A second call at the same time gives the same totals.
    assert_eq!(s.handle_status(later, TIMEOUT), totals);
    s.prune_servers(later, TIMEOUT);
    assert!(s.server(server(1)).is_some());
    // A server may come back, as a new one.
    assert!(heartbeat(&mut s, 0, 1, 4, later));
    assert_eq!(s.handle_status(later, TIMEOUT).num_servers, 2);
}

#[test]
fn a_restarted_server_has_no_jobs() {
    let mut s = with_servers(&[4]);
    let (job, _) = accepted(&mut s, START, JobState::Ready);
    assert!(!heartbeat(&mut s, 0, 1, 4, START));
    assert!(s.has_job(JobId(job)));
    assert!(heartbeat(&mut s, 0, 2, 6, START + 5));
    assert!(!s.has_job(JobId(job)));
    assert_eq!(s.handle_status(START + 5, TIMEOUT).num_servers, 1);
    assert!(details(&s, 0).jobs_assigned.is_empty());
    assert_eq!(details(&s, 0).num_cpus, 6);
    assert_eq!(details(&s, 0).last_seen, START + 5);
}

#[test]
fn jobs_that_wait_too_long_are_given_up() {
    let mut s = with_servers(&[16]);
    let (ready, id) = accepted(&mut s, START, JobState::Ready);
    let (pending, _) = accepted(&mut s, START, JobState::Pending);
    let (unknown, _) = place(&mut s, START);
    let (started, _) = accepted(&mut s, START, JobState::Ready);
    report(&mut s, started, id, JobState::Started, START).unwrap();

    still_alive(&mut s, 0, START + UNCLAIMED_READY_TIMEOUT - 1);
    assert_eq!(details(&s, 0).jobs_assigned.len(), 4);

    still_alive(&mut s, 0, START + UNCLAIMED_READY_TIMEOUT);
    assert!(!s.has_job(JobId(ready)));
    assert!(!details(&s, 0).jobs_assigned.contains(&ready));
    assert!(!details(&s, 0).jobs_assigned.contains(&unknown));
    assert!(!details(&s, 0).jobs_unclaimed.contains_key(&unknown));
    assert!(s.has_job(JobId(pending)));
    assert!(s.has_job(JobId(started)));

    still_alive(&mut s, 0, START + UNCLAIMED_PENDING_TIMEOUT);
    assert!(s.has_job(JobId(pending)));
    still_alive(&mut s, 0, START + UNCLAIMED_PENDING_TIMEOUT + 1);
    assert!(!s.has_job(JobId(pending)));
    assert!(s.has_job(JobId(started)));
    assert!(details(&s, 0).jobs_assigned.contains(&started));
}

#[test]
fn the_ready_grace_starts_with_the_report() {
    for (wait, kept) in [(UNCLAIMED_READY_TIMEOUT - 1, true), (UNCLAIMED_READY_TIMEOUT, false)] {
        let mut s = with_servers(&[4]);
        let (job, id) = accepted(&mut s, START, JobState::Pending);
        let ready_at = START + UNCLAIMED_PENDING_TIMEOUT;
        report(&mut s, job, id, JobState::Ready, ready_at).unwrap();
        assert!(!heartbeat(&mut s, 0, 1, 4, ready_at + wait));
        assert_eq!(s.has_job(JobId(job)), kept);
        assert_eq!(details(&s, 0).jobs_assigned.contains(&job), kept);
    }
}

#[test]
fn the_ready_grace_ends_for_a_server_that_was_dropped() {
    let mut s = with_servers(&[4]);
    let (job, id) = accepted(&mut s, START, JobState::Pending);
    report(&mut s, job, id, JobState::Ready, START + 5).unwrap();
    // The server is dropped for its silence, and registers anew.
    assert!(heartbeat(&mut s, 0, 1, 4, START + 5 + TIMEOUT + 1));
    assert!(!s.has_job(JobId(job)));
    assert!(details(&s, 0).jobs_assigned.is_empty());
}

#[test]
fn a_second_sign_of_life_takes_nothing_more() {
    let mut s = with_servers(&[16]);
    accepted(&mut s, START, JobState::Ready);
    accepted(&mut s, START, JobState::Pending);
    let now = START + UNCLAIMED_READY_TIMEOUT;
    for _ in 0..2 {
        heartbeat(&mut s, 0, 1, 16, now);
        assert_eq!(s.handle_status(now, TIMEOUT).in_progress, 1);
        assert_eq!(details(&s, 0).jobs_assigned.len(), 1);
    }
}

#[test]
fn a_job_goes_through_its_life() {
    let mut s = with_servers(&[1]);
    let (job, id) = accepted(&mut s, START, JobState::Pending);
    accepted(&mut s, START, JobState::Pending);
    let ok = Ok(UpdateJobStateResult::Success);
    assert_eq!(report(&mut s, job, id, JobState::Ready, START + 5), ok);
    assert_eq!(details(&s, 0).jobs_unclaimed.get(&job), Some(&(START + 5)));
    assert_eq!(details(&s, 0).last_seen, START + 5);
    assert_eq!(report(&mut s, job, id, JobState::Started, START + 6), ok);
    assert_eq!(details(&s, 0).jobs_unclaimed.get(&job), None);
    let detail = JobDetail { server_id: id, state: JobState::Started };
    assert_eq!(s.job(JobId(job)), Some(detail));
    assert_eq!(report(&mut s, job, id, JobState::Complete, START + 7), ok);
    assert_eq!(s.job(JobId(job)), None);
    assert!(!details(&s, 0).jobs_assigned.contains(&job));
    // There is room for one more.
    assert_eq!(place(&mut s, START), (2, id));
    assert_eq!(
        report(&mut s, job, id, JobState::Complete, START + 8),
        Err(UpdateJobStateError::UnknownJob)
    );
}

#[test]
fn reports_of_others_are_turned_down() {
    let mut s = with_servers(&[4, 4]);
    let (job, _) = accepted(&mut s, START, JobState::Pending);
    assert_eq!(
        report(&mut s, job, server(1), JobState::Ready, START + 5),
        Err(UpdateJobStateError::NotRegistered { job_id: JobId(job), server_id: server(1) })
    );
    assert_eq!(details(&s, 1).last_seen, START);
    assert_eq!(s.job(JobId(job)).unwrap().state, JobState::Pending);
}

#[test]
fn states_are_not_skipped() {
    let all = [JobState::Pending, JobState::Ready, JobState::Started, JobState::Complete];
    for (i, from) in all.iter().enumerate() {
        for (j, to) in all.iter().enumerate() {
            let mut s = with_servers(&[4]);
            let (job, id) = accepted(&mut s, START, *from);
            let r = report(&mut s, job, id, *to, START + 5);
            assert_eq!(details(&s, 0).last_seen, START + 5);
            if j == i + 1 {
                assert_eq!(r, Ok(UpdateJobStateResult::Success));
            } else {
                assert_eq!(
                    r,
                    Err(UpdateJobStateError::InvalidTransition { from: *from, to: *to })
                );
                assert_eq!(s.job(JobId(job)).unwrap().state, *from);
                assert!(details(&s, 0).jobs_unclaimed.contains_key(&job));
            }
        }
    }
}

#[test]
fn a_job_can_outlive_its_server() {
    let mut s = with_servers(&[4]);
    let (job, id) = place(&mut s, START);
    // The server falls silent while it is asked to take the job.
    s.prune_servers(START + TIMEOUT + 1, TIMEOUT);
    s.assignment_accepted(JobId(job), id, JobState::Pending);
    let ok = Ok(UpdateJobStateResult::Success);
    assert_eq!(report(&mut s, job, id, JobState::Ready, START), ok);
    assert_eq!(report(&mut s, job, id, JobState::Started, START), ok);
    assert_eq!(
        report(&mut s, job, id, JobState::Complete, START),
        Err(UpdateJobStateError::ServerNotKnown)
    );
    assert!(!s.has_job(JobId(job)));
}

#[test]
fn a_stray_completion_is_recognised() {
    let mut s = with_servers(&[4]);
    let (job, id) = accepted(&mut s, START, JobState::Started);
    assert!(!s.is_stray_report(JobId(job), id, JobState::Complete));
    // The server is started anew while it is asked to take a job.
    let (job, id) = place(&mut s, START);
    heartbeat(&mut s, 0, 2, 4, START);
    s.assignment_accepted(JobId(job), id, JobState::Started);
    assert!(s.is_stray_report(JobId(job), id, JobState::Complete));
    assert!(!s.is_stray_report(JobId(job), id, JobState::Ready));
    assert!(!s.is_stray_report(JobId(job), server(3), JobState::Complete));
}

#[test]
fn records_agree_when_requests_come_in_turn() {
    let mut s = with_servers(&[1, 8]);
    let mut jobs = Vec::new();
    for n in 0..5 {
        let state = if n == 4 { JobState::Pending } else { JobState::Ready };
        let (job, id) = accepted(&mut s, START, state);
        if n % 2 == 0 && n < 4 {
            report(&mut s, job, id, JobState::Started, START).unwrap();
        }
        jobs.push(job);
    }
    place(&mut s, START);
    for job in jobs {
        let detail = s.job(JobId(job)).unwrap();
        assert_ne!(detail.state, JobState::Complete);
        assert!(s.server(detail.server_id).unwrap().jobs_assigned.contains(&job));
        assert!(!s.is_stray_report(JobId(job), detail.server_id, JobState::Complete));
    }
    let mut unclaimed = 0;
    for port in [0, 1] {
        for job in details(&s, port).jobs_unclaimed.keys() {
            unclaimed += 1;
            assert!(details(&s, port).jobs_assigned.contains(job));
            assert!(!details(&s, 1 - port).jobs_assigned.contains(job));
            if let Some(detail) = s.job(JobId(*job)) {
                assert_eq!(detail.server_id, server(port));
                assert!(matches!(detail.state, JobState::Pending | JobState::Ready));
            }
        }
    }
    assert_eq!(unclaimed, 4);
}

#[test]
fn totals_that_do_not_fit_are_recognised() {
    let mut s = with_servers(&[usize::MAX, 1]);
    assert_eq!(s.live_cpus(START, TIMEOUT), None);
    still_alive(&mut s, 0, START + 1);
    let later = START + TIMEOUT + 1;
    assert_eq!(s.live_cpus(later, TIMEOUT), Some(usize::MAX));
    assert_eq!(s.handle_status(later, TIMEOUT).num_cpus, usize::MAX);
}

#[test]
fn addresses_tell_servers_apart() {
    let mut s: Scheduler<u32> = Scheduler::new();
    let v6 = ServerId::V6 { ipv6: 1, port: 4, flowinfo: 0, scope_id: 0 };
    let v4 = ServerId::V4 { ip: 1, port: 4 };
    for id in [v4, v6] {
        let r = s.handle_heartbeat_server(id, ServerNonce(1), 1, 0, START, START, TIMEOUT);
        assert_eq!(r, Ok(HeartbeatServerResult { is_new: true }));
    }
    assert_eq!(s.handle_status(START, TIMEOUT).num_servers, 2);
    assert_eq!(s.authorizer(v6), Some(&0));
    assert_eq!(s.authorizer(server(4)), None);
}
