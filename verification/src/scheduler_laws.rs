//! What holds of the scheduler's records whatever happens to them.

use vstd::prelude::*;

use crate::scheduler::allocation::{
    choice, faulty, has_room, healthy, idle, is_fallback, is_first_idle, is_lightest,
    lemma_fallback_step, lemma_lightest_step, lemma_walked_wf, looked_at, server_load, walked,
};
use crate::dist::{JobState, ServerId, ServerNonce};
use crate::scheduler::job_state::next_state;
use crate::load::{
    job_limit, law_a_server_takes_jobs_up_to_its_limit, law_lighter_is_transitive, lighter,
};
use crate::scheduler::{
    dead, initial, is_at, lemma_heard_from_wf, lemma_pruned_wf, lemma_update_wf, lemma_with_server_wf,
    locate, orphans, registered, stale, total_cpus, SchedulerState, ServerState,
};

verus! {

/// The healthy server with the lightest load among the first `n`, if there is one.
proof fn lemma_lightest_found<A>(servers: Seq<ServerState<A>>, n: int) -> (r: Option<int>)
    requires
        0 <= n <= servers.len(),
        forall|j: int| 0 <= j < servers.len() ==> (#[trigger] servers[j]).num_cpus > 0,
    ensures
        match r {
            Some(b) => is_lightest(servers, n, b),
            None => forall|j: int| 0 <= j < n ==> !healthy(#[trigger] servers[j]),
        },
    decreases n,
{
    if n == 0 {
        None
    } else {
        let best = lemma_lightest_found(servers, n - 1);
        lemma_lightest_step(servers, n - 1, best);
        if is_lightest(servers, n, n - 1) {
            Some(n - 1)
        } else {
            best
        }
    }
}

/// The server to fall back on among the first `n`, if there is one.
proof fn lemma_fallback_found<A>(servers: Seq<ServerState<A>>, n: int, now: u64) -> (r: Option<int>)
    requires
        0 <= n <= servers.len(),
    ensures
        match r {
            Some(b) => is_fallback(servers, n, now, b),
            None => forall|j: int| 0 <= j < n ==> !faulty(#[trigger] servers[j]),
        },
    decreases n,
{
    if n == 0 {
        None
    } else {
        let best = lemma_fallback_found(servers, n - 1, now);
        lemma_fallback_step(servers, n - 1, now, best);
        if is_fallback(servers, n, now, n - 1) {
            Some(n - 1)
        } else {
            best
        }
    }
}

/// The servers that are looked at are some of those known, and all of them unless
/// the last one is idle.
pub(crate) proof fn lemma_looked_at<A>(servers: Seq<ServerState<A>>)
    ensures
        0 <= looked_at(servers) <= servers.len(),
        looked_at(servers) == servers.len() || is_first_idle(servers, looked_at(servers) - 1),
{
}

/// An idle server is healthy, and no load is lighter than its own.
proof fn lemma_idle_is_lightest<A>(server: ServerState<A>, other: ServerState<A>)
    requires
        server.num_cpus > 0,
        idle(server),
    ensures
        healthy(server),
        !lighter(server_load(other), server_load(server)),
{
    law_a_server_takes_jobs_up_to_its_limit(0, server.num_cpus);
    let (jobs, cores) = (server_load(other).jobs as int, server_load(server).cores as int);
    assert(0 <= jobs * cores) by (nonlinear_arith)
        requires
            jobs >= 0,
            cores >= 0,
    ;
    assert(server_load(server).jobs == 0);
    let c = server_load(other).cores as int;
    assert(0 * c == 0);
}

/// A job finds a server exactly if one has room.
pub proof fn law_a_job_finds_a_server_if_one_has_room<A>(s: SchedulerState<A>, now: u64)
    requires
        s.wf(),
    ensures
        choice(s.servers, now) is Some <==> exists|i: int|
            0 <= i < s.servers.len() && has_room(#[trigger] s.servers[i]),
{
    let servers = s.servers;
    let n = looked_at(servers);
    lemma_looked_at(servers);
    assert forall|j: int| 0 <= j < servers.len() implies (#[trigger] servers[j]).num_cpus > 0 by {
        assert(servers[j].wf(s.job_count));
    }
    let best = lemma_lightest_found(servers, n);
    let fallback = lemma_fallback_found(servers, n, now);
    if exists|i: int| 0 <= i < servers.len() && has_room(#[trigger] servers[i]) {
        let i = choose|i: int| 0 <= i < servers.len() && has_room(#[trigger] servers[i]);
        if n < servers.len() {
            lemma_idle_is_lightest(servers[n - 1], servers[n - 1]);
            assert(healthy(servers[n - 1]));
        } else {
            assert(healthy(servers[i]) || faulty(servers[i]));
        }
    } else {
        assert forall|i: int| !is_lightest(servers, n, i) by {
            if 0 <= i < n {
                assert(!has_room(servers[i]));
            }
        }
        assert forall|i: int| !is_fallback(servers, n, now, i) by {
            if 0 <= i < n {
                assert(!has_room(servers[i]));
            }
        }
    }
}

/// The server that gets a job has room for it, and no healthy server is loaded more
/// lightly. A server whose failure is remembered gets a job only where no healthy
/// server has room.
pub proof fn law_the_chosen_server_is_best<A>(s: SchedulerState<A>, now: u64, i: int)
    requires
        s.wf(),
        choice(s.servers, now) == Some(i),
    ensures
        0 <= i < s.servers.len(),
        has_room(s.servers[i]),
        forall|j: int|
            0 <= j < s.servers.len() && healthy(#[trigger] s.servers[j]) ==> healthy(s.servers[i])
                && !lighter(server_load(s.servers[j]), server_load(s.servers[i])),
{
    let servers = s.servers;
    let n = looked_at(servers);
    lemma_looked_at(servers);
    assert forall|j: int| 0 <= j < servers.len() implies (#[trigger] servers[j]).num_cpus > 0 by {
        assert(servers[j].wf(s.job_count));
    }
    let best = lemma_lightest_found(servers, n);
    if let Some(b) = best {
        assert(is_lightest(servers, n, b));
        assert(is_lightest(servers, n, i));
        assert forall|j: int| 0 <= j < servers.len() && healthy(#[trigger] servers[j]) implies
            !lighter(server_load(servers[j]), server_load(servers[i])) by {
            if n <= j {
                let k = n - 1;
                lemma_idle_is_lightest(servers[k], servers[j]);
                assert(!lighter(server_load(servers[k]), server_load(servers[i])));
                if lighter(server_load(servers[j]), server_load(servers[i])) {
                    law_lighter_is_transitive(
                        server_load(servers[j]),
                        server_load(servers[i]),
                        server_load(servers[k]),
                    );
                }
            }
        }
    } else {
        assert forall|j: int| !is_lightest(servers, n, j) by {
            if 0 <= j < n {
                assert(!healthy(servers[j]));
            }
        }
        assert(is_fallback(servers, n, now, i));
        if n < servers.len() {
            lemma_idle_is_lightest(servers[n - 1], servers[n - 1]);
        }
    }
}

/// A new job has a number that no job on record and no job of a server has.
pub proof fn law_a_new_job_has_a_new_number<A>(s: SchedulerState<A>)
    requires
        s.wf(),
    ensures
        !s.jobs.contains_key(s.job_count as u64),
        forall|i: int|
            0 <= i < s.servers.len() ==> !(#[trigger] s.servers[i]).assigned.contains(
                s.job_count as u64,
            ) && !s.servers[i].unclaimed.contains_key(s.job_count as u64),
{
    assert forall|i: int| 0 <= i < s.servers.len() implies !(
    #[trigger] s.servers[i]).assigned.contains(s.job_count as u64)
        && !s.servers[i].unclaimed.contains_key(s.job_count as u64) by {
        assert(s.servers[i].wf(s.job_count));
    }
}

/// A job that a server fails to take leaves no trace but the number it used up and
/// the memory of the failure.
pub proof fn law_a_failed_assignment_is_undone<A>(
    s: SchedulerState<A>,
    now: u64,
    at: u64,
    failed_at: u64,
    i: int,
)
    requires
        s.wf(),
        s.job_count < usize::MAX,
        choice(s.servers, now) == Some(i),
    ensures
        s.allocated(i, now, at).servers[i].failed(s.job_count as u64, failed_at) == (ServerState {
            last_error: Some(failed_at),
            ..s.servers[i]
        }),
        s.allocated(i, now, at).jobs == s.jobs,
{
    law_the_chosen_server_is_best(s, now, i);
    law_a_new_job_has_a_new_number(s);
    let t = s.allocated(i, now, at).servers[i].failed(s.job_count as u64, failed_at);
    assert(t.assigned =~= s.servers[i].assigned);
    assert(t.unclaimed =~= s.servers[i].unclaimed);
}

/// Dropping dead servers keeps every server that is not dead, in its record and its
/// order, and no other; it keeps every job but those given to dead servers.
pub proof fn law_just_the_dead_are_dropped<A>(s: SchedulerState<A>, now: u64, timeout: u64)
    ensures
        forall|server: ServerState<A>|
            s.pruned(now, timeout).servers.contains(server) <==> s.servers.contains(server)
                && !dead(server, now, timeout),
        forall|job: u64|
            s.pruned(now, timeout).jobs.contains_key(job) <==> s.jobs.contains_key(job) && !orphans(
                s.servers,
                now,
                timeout,
            ).contains(job),
        forall|job: u64| #[trigger]
            s.pruned(now, timeout).jobs.contains_key(job) ==> s.pruned(now, timeout).jobs[job]
                == s.jobs[job],
        s.pruned(now, timeout).job_count == s.job_count,
{
    lemma_filter_contains(s.servers, |x: ServerState<A>| !dead(x, now, timeout));
}

/// What a filter keeps.
proof fn lemma_filter_contains<A>(s: Seq<ServerState<A>>, p: spec_fn(ServerState<A>) -> bool)
    ensures
        forall|x: ServerState<A>| s.filter(p).contains(x) <==> s.contains(x) && p(x),
    decreases s.len(),
{
    reveal(Seq::filter);
    if s.len() > 0 {
        let init = s.drop_last();
        lemma_filter_contains(init, p);
        assert(s =~= init.push(s.last()));
        init.lemma_filter_push(s.last(), p);
        assert forall|x: ServerState<A>| s.filter(p).contains(x) <==> s.contains(x) && p(x) by {
            if s.contains(x) && p(x) {
                if init.contains(x) {
                    let k = choose|k: int| 0 <= k < init.filter(p).len() && init.filter(p)[k] == x;
                    assert(s.filter(p)[k] == x);
                } else {
                    assert(x == s.last());
                    assert(s.filter(p).last() == x);
                }
            }
            if s.filter(p).contains(x) {
                let k = choose|k: int| 0 <= k < s.filter(p).len() && s.filter(p)[k] == x;
                if k < init.filter(p).len() {
                    assert(init.filter(p)[k] == x);
                    assert(init.contains(x));
                    let m = choose|m: int| 0 <= m < init.len() && init[m] == x;
                    assert(s[m] == x);
                } else {
                    assert(s[s.len() - 1] == x);
                }
            }
        }
    }
}

/// Dropping dead servers a second time at the same time changes nothing, so that the
/// totals stay what they were.
pub proof fn law_a_second_status_is_the_same<A>(s: SchedulerState<A>, now: u64, timeout: u64)
    ensures
        s.pruned(now, timeout).pruned(now, timeout) == s.pruned(now, timeout),
        total_cpus(s.pruned(now, timeout).pruned(now, timeout).servers) == total_cpus(
            s.pruned(now, timeout).servers,
        ),
{
    let t = s.pruned(now, timeout);
    let alive = |x: ServerState<A>| !dead(x, now, timeout);
    lemma_filter_contains(s.servers, alive);
    assert forall|i: int| 0 <= i < t.servers.len() implies alive(#[trigger] t.servers[i]) by {
        assert(t.servers.contains(t.servers[i]));
    }
    lemma_filter_keeps_all(t.servers, alive);
    assert(orphans(t.servers, now, timeout) =~= Set::<u64>::empty()) by {
        assert forall|i: int| 0 <= i < t.servers.len() implies !dead(
            #[trigger] t.servers[i],
            now,
            timeout,
        ) by {
            assert(alive(t.servers[i]));
        }
    }
    assert(t.pruned(now, timeout).jobs =~= t.jobs);
    assert(t.pruned(now, timeout) =~= t);
}

/// A filter that takes everything changes nothing.
proof fn lemma_filter_keeps_all<A>(s: Seq<ServerState<A>>, p: spec_fn(ServerState<A>) -> bool)
    requires
        forall|i: int| 0 <= i < s.len() ==> p(#[trigger] s[i]),
    ensures
        s.filter(p) == s,
    decreases s.len(),
{
    reveal(Seq::filter);
    if s.len() > 0 {
        let init = s.drop_last();
        assert forall|i: int| 0 <= i < init.len() implies p(#[trigger] init[i]) by {
            assert(init[i] == s[i]);
        }
        lemma_filter_keeps_all(init, p);
        assert(s =~= init.push(s.last()));
    }
}

/// A server that is heard from again at once loses nothing more.
pub proof fn law_a_second_sign_of_life_changes_nothing<A>(s: SchedulerState<A>, i: int, now: u64)
    requires
        0 <= i < s.servers.len(),
    ensures
        s.heard_from(i, now).heard_from(i, now) == s.heard_from(i, now),
{
    let t = s.heard_from(i, now);
    let gone = stale(t.jobs, t.servers[i], now);
    assert(gone =~= Set::<u64>::empty()) by {
        assert forall|job: u64| !gone.contains(job) by {
            if gone.contains(job) {
                assert(!stale(s.jobs, s.servers[i], now).contains(job));
                assert(s.servers[i].unclaimed.contains_key(job));
            }
        }
    }
    assert(t.servers[i].relieved(gone, now) =~= t.servers[i]);
    assert(t.heard_from(i, now).servers =~= t.servers);
    assert(t.heard_from(i, now).jobs =~= t.jobs);
}

/// A job that was started is never taken from its server for having waited.
pub proof fn law_started_jobs_are_not_given_up<A>(s: SchedulerState<A>, i: int, now: u64, job: u64)
    requires
        0 <= i < s.servers.len(),
        s.jobs.contains_key(job),
        s.jobs[job].state is Started,
    ensures
        s.heard_from(i, now).jobs.contains_key(job),
        s.heard_from(i, now).jobs[job] == s.jobs[job],
        s.servers[i].assigned.contains(job) ==> s.heard_from(i, now).servers[i].assigned.contains(
            job,
        ),
{
}

/// A server that registers anew is known from then on, without any job, and the
/// jobs it had before are forgotten.
pub proof fn law_a_restarted_server_has_no_jobs<A>(s: SchedulerState<A>, server: ServerState<A>)
    requires
        s.wf(),
        server.wf(s.job_count),
    ensures
        locate(s.with_server(server).servers, server.id) is Some,
        s.with_server(server).servers[locate(s.with_server(server).servers, server.id)->0]
            == server,
        forall|i: int, job: u64|
            is_at(s.servers, server.id, i) && #[trigger] s.servers[i].assigned.contains(job)
                ==> !s.with_server(server).jobs.contains_key(job),
{
    let t = s.with_server(server);
    lemma_with_server_wf(s, server);
    let k = match locate(s.servers, server.id) {
        Some(k) => k,
        None => s.servers.len() as int,
    };
    if locate(s.servers, server.id) is Some {
        assert(is_at(s.servers, server.id, k));
    }
    assert(is_at(t.servers, server.id, k));
    let c = locate(t.servers, server.id)->0;
    assert(is_at(t.servers, server.id, c));
    assert(t.servers[c].id == t.servers[k].id);
    assert forall|i: int, job: u64|
        is_at(s.servers, server.id, i) && #[trigger] s.servers[i].assigned.contains(
            job,
        ) implies !t.jobs.contains_key(job) by {
        assert(s.servers[i].id == s.servers[k].id);
    }
}

/// A report moves its job by one step or not at all, and touches no other job.
pub proof fn law_a_job_moves_step_by_step<A>(
    s: SchedulerState<A>,
    job: u64,
    id: ServerId,
    to: JobState,
    now: u64,
    other: u64,
)
    ensures
        ({
            let t = s.updated(job, id, to, now);
            &&& t.jobs.contains_key(other) ==> s.jobs.contains_key(other) && (t.jobs[other]
                == s.jobs[other] || (other == job && t.jobs[other].server_id
                == s.jobs[other].server_id && next_state(
                s.jobs[other].state,
                t.jobs[other].state,
            )))
            &&& s.jobs.contains_key(other) && !t.jobs.contains_key(other) ==> other == job
                && s.jobs[other].state is Started && to is Complete
        }),
{
}

/// A report changes no server but the one that sent it, and of that one only the
/// last sign of life unless it is taken.
pub proof fn law_a_report_concerns_its_sender<A>(
    s: SchedulerState<A>,
    job: u64,
    id: ServerId,
    to: JobState,
    now: u64,
    i: int,
)
    requires
        s.wf(),
        0 <= i < s.servers.len(),
    ensures
        ({
            let t = s.updated(job, id, to, now);
            &&& t.servers.len() == s.servers.len()
            &&& s.servers[i].id != id ==> t.servers[i] == s.servers[i]
            &&& s.update_answer(job, id, to) is Err ==> t.servers[i] == s.servers[i]
                || t.servers[i] == (ServerState { last_seen: now, ..s.servers[i] })
        }),
{
    if locate(s.servers, id) is Some {
        assert(is_at(s.servers, id, locate(s.servers, id)->0));
    }
}

/// A report that is turned down leaves the jobs as they are, except that a job which
/// a server finished that is no longer known is forgotten.
pub proof fn law_a_rejected_report_changes_no_job<A>(
    s: SchedulerState<A>,
    job: u64,
    id: ServerId,
    to: JobState,
    now: u64,
)
    ensures
        s.update_answer(job, id, to) is Err ==> {
            let t = s.updated(job, id, to, now);
            ||| t.jobs == s.jobs
            ||| s.update_answer(job, id, to)->Err_0 is ServerNotKnown && t.jobs == s.jobs.remove(
                job,
            )
        },
{
}

/// When a server reports that a job is complete, it has room for one more.
pub proof fn law_a_complete_job_makes_room<A>(
    s: SchedulerState<A>,
    job: u64,
    id: ServerId,
    now: u64,
    i: int,
)
    requires
        s.wf(),
        locate(s.servers, id) == Some(i),
        s.update_answer(job, id, JobState::Complete) is Ok,
        !s.strays(job, id, JobState::Complete),
    ensures
        s.updated(job, id, JobState::Complete, now).servers[i].assigned.len() + 1
            == s.servers[i].assigned.len(),
        s.updated(job, id, JobState::Complete, now).servers[i].assigned.len() < job_limit(
            s.servers[i].num_cpus,
        ),
{
    assert(is_at(s.servers, id, i));
    assert(s.servers[i].wf(s.job_count));
}

/// Something that happens to the scheduler.
pub enum SchedulerEvent<A> {
    /// Silent servers are dropped.
    Prune { now: u64, timeout: u64 },
    /// A job is asked for.
    Request { now: u64, at: u64 },
    /// A server takes a job.
    Accept { job: u64, id: ServerId, state: JobState },
    /// A server fails to take a job.
    Refuse { job: u64, id: ServerId, now: u64 },
    /// A server sends a heartbeat.
    Heartbeat {
        id: ServerId,
        nonce: ServerNonce,
        num_cpus: usize,
        authorizer: A,
        pruned_at: u64,
        now: u64,
        timeout: u64,
    },
    /// A server reports on a job.
    Report { job: u64, id: ServerId, to: JobState, now: u64 },
}

impl<A> SchedulerState<A> {
    /// Whether `event` can happen.
    pub open spec fn allows(self, event: SchedulerEvent<A>) -> bool {
        match event {
            SchedulerEvent::Prune { .. } => true,
            SchedulerEvent::Request { .. } => self.job_count < usize::MAX,
            SchedulerEvent::Accept { job, id, state } => job < self.job_count
                && !self.jobs.contains_key(job),
            SchedulerEvent::Refuse { .. } => true,
            SchedulerEvent::Heartbeat { .. } => true,
            SchedulerEvent::Report { job, id, to, now } => !self.strays(job, id, to),
        }
    }

    /// The records after `event`, as the functions that handle it leave them.
    pub open spec fn after(self, event: SchedulerEvent<A>) -> SchedulerState<A> {
        match event {
            SchedulerEvent::Prune { now, timeout } => self.pruned(now, timeout),
            SchedulerEvent::Request { now, at } => self.requested(now, at),
            SchedulerEvent::Accept { job, id, state } => self.accepted(job, id, state),
            SchedulerEvent::Refuse { job, id, now } => self.refused(job, id, now),
            SchedulerEvent::Heartbeat {
                id,
                nonce,
                num_cpus,
                authorizer,
                pruned_at,
                now,
                timeout,
            } => self.heartbeat(id, nonce, num_cpus, authorizer, pruned_at, now, timeout),
            SchedulerEvent::Report { job, id, to, now } => self.updated(job, id, to, now),
        }
    }

    /// Whether `events` can happen one after the other.
    pub open spec fn allows_all(self, events: Seq<SchedulerEvent<A>>) -> bool
        decreases events.len(),
    {
        events.len() == 0 || (self.allows_all(events.drop_last()) && self.after_all(
            events.drop_last(),
        ).allows(events.last()))
    }

    /// The records after `events`.
    pub open spec fn after_all(self, events: Seq<SchedulerEvent<A>>) -> SchedulerState<A>
        decreases events.len(),
    {
        if events.len() == 0 {
            self
        } else {
            self.after_all(events.drop_last()).after(events.last())
        }
    }
}

/// Sound records stay sound: no server ever has more jobs than it may run.
pub proof fn law_records_stay_sound<A>(s: SchedulerState<A>, event: SchedulerEvent<A>)
    requires
        s.wf(),
        s.allows(event),
    ensures
        s.after(event).wf(),
{
    match event {
        SchedulerEvent::Prune { now, timeout } => {
            lemma_pruned_wf(s, now, timeout);
        },
        SchedulerEvent::Request { now, at } => {
            lemma_walked_wf(s, looked_at(s.servers), now);
            if let Some(i) = choice(s.servers, now) {
                law_the_chosen_server_is_best(s, now, i);
                let was = SchedulerState {
                    servers: walked(s.servers, looked_at(s.servers), now),
                    ..s
                };
                assert(s.servers[i].wf(s.job_count));
                assert(was.servers[i].wf(s.job_count));
                lemma_room_is_under_the_limit(s, i);
                lemma_update_wf(was, s.allocated(i, now, at), i);
            }
        },
        SchedulerEvent::Accept { job, id, state } => {},
        SchedulerEvent::Refuse { job, id, now } => {
            if let Some(i) = locate(s.servers, id) {
                assert(is_at(s.servers, id, i));
                assert(s.servers[i].wf(s.job_count));
                lemma_update_wf(s, s.after(event), i);
            }
        },
        SchedulerEvent::Heartbeat {
            id,
            nonce,
            num_cpus,
            authorizer,
            pruned_at,
            now,
            timeout,
        } => {
            let pruned = s.pruned(pruned_at, timeout);
            lemma_pruned_wf(s, pruned_at, timeout);
            let place = locate(pruned.servers, id);
            if num_cpus == 0 {
            } else if place is Some && pruned.servers[place->0].nonce == nonce {
                assert(is_at(pruned.servers, id, place->0));
                lemma_heard_from_wf(pruned, place->0, now);
            } else {
                lemma_with_server_wf(pruned, registered(id, nonce, num_cpus, authorizer, now));
            }
        },
        SchedulerEvent::Report { job, id, to, now } => {
            if let Some(i) = locate(s.servers, id) {
                assert(is_at(s.servers, id, i));
                assert(s.servers[i].wf(s.job_count));
                let t = s.after(event);
                assert(t.servers =~= s.servers.update(i, t.servers[i]));
                lemma_update_wf(s, t, i);
            }
        },
    }
}

/// A server of sound records that has room has fewer jobs than its limit.
proof fn lemma_room_is_under_the_limit<A>(s: SchedulerState<A>, i: int)
    requires
        s.wf(),
        0 <= i < s.servers.len(),
        has_room(s.servers[i]),
    ensures
        s.servers[i].assigned.len() < job_limit(s.servers[i].num_cpus),
{
}

/// Sound records stay sound however much happens.
pub proof fn law_records_stay_sound_forever<A>(s: SchedulerState<A>, events: Seq<SchedulerEvent<A>>)
    requires
        s.wf(),
        s.allows_all(events),
    ensures
        s.after_all(events).wf(),
    decreases events.len(),
{
    if events.len() > 0 {
        law_records_stay_sound_forever(s, events.drop_last());
        law_records_stay_sound(s.after_all(events.drop_last()), events.last());
    }
}

impl<A> SchedulerState<A> {
    /// Whether `event` is a request that picks a server.
    pub open spec fn places(self, event: SchedulerEvent<A>) -> bool {
        event matches SchedulerEvent::Request { now, at } && choice(self.servers, now) is Some
    }

    /// How many of `events` are requests that picked a server.
    pub open spec fn placed(self, events: Seq<SchedulerEvent<A>>) -> nat
        decreases events.len(),
    {
        if events.len() == 0 {
            0
        } else {
            let before = events.drop_last();
            self.placed(before) + if self.after_all(before).places(events.last()) {
                1nat
            } else {
                0
            }
        }
    }
}

/// Jobs are numbered one by one: every request that picks a server uses up one number,
/// and nothing else does.
pub proof fn law_jobs_are_numbered_one_by_one<A>(
    s: SchedulerState<A>,
    events: Seq<SchedulerEvent<A>>,
)
    requires
        s.allows_all(events),
    ensures
        s.after_all(events).job_count == s.job_count + s.placed(events),
    decreases events.len(),
{
    if events.len() > 0 {
        law_jobs_are_numbered_one_by_one(s, events.drop_last());
    }
}

/// The number of the next job is the number of requests so far that picked a server.
pub proof fn law_the_job_count_counts_jobs<A>(events: Seq<SchedulerEvent<A>>)
    requires
        initial::<A>().allows_all(events),
    ensures
        initial::<A>().after_all(events).job_count == initial::<A>().placed(events),
{
    law_jobs_are_numbered_one_by_one(initial::<A>(), events);
}

/// A number is given out once: whatever happens after a job got its number, the next
/// job gets a higher one.
pub proof fn law_numbers_are_given_out_once<A>(
    s: SchedulerState<A>,
    now: u64,
    at: u64,
    events: Seq<SchedulerEvent<A>>,
)
    requires
        s.job_count < usize::MAX,
        choice(s.servers, now) is Some,
        s.after(SchedulerEvent::Request { now, at }).allows_all(events),
    ensures
        s.after(SchedulerEvent::Request { now, at }).after_all(events).job_count > s.job_count,
{
    law_jobs_are_numbered_one_by_one(s.after(SchedulerEvent::Request { now, at }), events);
}

} // verus!
