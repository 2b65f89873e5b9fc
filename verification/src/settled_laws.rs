//! How the scheduler's records of jobs and of servers agree.
//!
//! They agree as long as servers answer for the jobs that were given to them, see
//! `SchedulerState::as_agreed`. When requests are handled one after the other they
//! always do.

use vstd::prelude::*;

use crate::dist::{elapsed, JobState, ServerId, ServerNonce, UNCLAIMED_READY_TIMEOUT};
use crate::scheduler::allocation::{choice, looked_at, walked};
use crate::scheduler::{
    dead, initial, is_at, lemma_pruned_wf, locate, orphans, registered, stale, SchedulerState,
    ServerState,
};
use crate::scheduler_laws::{
    law_a_new_job_has_a_new_number, law_just_the_dead_are_dropped, law_records_stay_sound,
    law_the_chosen_server_is_best, SchedulerEvent,
};

verus! {

/// Whether the server at place `i` is `id` and was given `job`.
pub open spec fn holds<A>(servers: Seq<ServerState<A>>, id: ServerId, job: u64, i: int) -> bool {
    is_at(servers, id, i) && servers[i].assigned.contains(job)
}

/// Whether an unclaimed job of the server at place `i` is one that was given to it, and
/// one that waits: it is pending or ready, or the server has not taken it yet.
pub open spec fn waits<A>(s: SchedulerState<A>, i: int, job: u64) -> bool {
    &&& s.servers[i].assigned.contains(job)
    &&& s.jobs.contains_key(job) ==> {
        &&& s.jobs[job].server_id == s.servers[i].id
        &&& s.jobs[job].state is Pending || s.jobs[job].state is Ready
    }
}

impl<A> SchedulerState<A> {
    /// Whether no job on record is complete.
    pub open spec fn all_unfinished(self) -> bool {
        forall|job: u64| #[trigger]
            self.jobs.contains_key(job) ==> !(self.jobs[job].state is Complete)
    }

    /// Whether every unclaimed job of a server was given to it, and waits.
    pub open spec fn unclaimed_wait(self) -> bool {
        forall|i: int, job: u64|
            0 <= i < self.servers.len() && #[trigger] self.servers[i].unclaimed.contains_key(job)
                ==> waits(self, i, job)
    }

    /// Whether every job on record names a known server that it was given to.
    pub open spec fn all_held(self) -> bool {
        forall|job: u64| #[trigger]
            self.jobs.contains_key(job) ==> exists|i: int|
                holds(self.servers, self.jobs[job].server_id, job, i)
    }

    /// Whether no job was given to two servers.
    pub open spec fn exclusive(self) -> bool {
        forall|i: int, k: int, job: u64|
            0 <= i < self.servers.len() && 0 <= k < self.servers.len()
                && #[trigger] self.servers[i].assigned.contains(job)
                && #[trigger] self.servers[k].assigned.contains(job) ==> i == k
    }

    /// Whether the records of jobs and of servers agree.
    pub open spec fn settled(self) -> bool {
        &&& self.all_unfinished()
        &&& self.unclaimed_wait()
        &&& self.all_held()
        &&& self.exclusive()
    }

    /// Whether an answer to an assignment is about a job that is not on record yet, and
    /// one that takes the job comes from a known server that it was given to and says
    /// that it is pending or ready.
    pub open spec fn as_agreed(self, event: SchedulerEvent<A>) -> bool {
        match event {
            SchedulerEvent::Request { .. } => self.job_count < usize::MAX,
            SchedulerEvent::Accept { job, id, state } => {
                &&& !self.jobs.contains_key(job)
                &&& state is Pending || state is Ready
                &&& exists|i: int| holds(self.servers, id, job, i)
            },
            SchedulerEvent::Refuse { job, .. } => !self.jobs.contains_key(job),
            _ => true,
        }
    }

    /// Whether that holds of each of `events` when it happens.
    pub open spec fn all_as_agreed(self, events: Seq<SchedulerEvent<A>>) -> bool
        decreases events.len(),
    {
        events.len() == 0 || (self.all_as_agreed(events.drop_last()) && self.after_all(
            events.drop_last(),
        ).as_agreed(events.last()))
    }

    /// Whether the last of `events` was a request for which `job` was given to server
    /// `id`.
    pub open spec fn just_given(
        self,
        events: Seq<SchedulerEvent<A>>,
        job: u64,
        id: ServerId,
    ) -> bool {
        events.len() > 0 && match events.last() {
            SchedulerEvent::Request { now, at } => {
                let before = self.after_all(events.drop_last());
                &&& choice(before.servers, now) is Some
                &&& job == before.job_count
                &&& id == before.servers[choice(before.servers, now)->0].id
            },
            _ => false,
        }
    }

    /// Whether `events` are those of requests that are handled one after the other: an
    /// answer to an assignment follows the request that led to it, and servers take
    /// jobs as pending or ready.
    pub open spec fn in_turn(self, events: Seq<SchedulerEvent<A>>) -> bool
        decreases events.len(),
    {
        events.len() == 0 || {
            let before = events.drop_last();
            &&& self.in_turn(before)
            &&& match events.last() {
                SchedulerEvent::Request { .. } => self.after_all(before).job_count < usize::MAX,
                SchedulerEvent::Accept { job, id, state } => self.just_given(before, job, id) && (
                state is Pending || state is Ready),
                SchedulerEvent::Refuse { job, id, .. } => self.just_given(before, job, id),
                _ => true,
            }
        }
    }
}

/// Where the records agree, every report of a server can be taken: none finishes a job
/// that its server was not given.
pub proof fn law_no_report_strays<A>(s: SchedulerState<A>, job: u64, id: ServerId, to: JobState)
    requires
        s.wf(),
        s.settled(),
    ensures
        !s.strays(job, id, to),
{
    if s.jobs.contains_key(job) && s.jobs[job].server_id == id {
        let i = choose|i: int| holds(s.servers, id, job, i);
        let k = locate(s.servers, id)->0;
        assert(is_at(s.servers, id, i));
        assert(is_at(s.servers, id, k));
        assert(s.servers[i].id == s.servers[k].id);
    }
}

/// Where the records agree, whatever is as agreed can happen.
proof fn lemma_as_agreed_is_allowed<A>(s: SchedulerState<A>, event: SchedulerEvent<A>)
    requires
        s.wf(),
        s.settled(),
        s.as_agreed(event),
    ensures
        s.allows(event),
{
    match event {
        SchedulerEvent::Accept { job, id, state } => {
            let i = choose|i: int| holds(s.servers, id, job, i);
            assert(s.servers[i].wf(s.job_count));
        },
        SchedulerEvent::Report { job, id, to, now } => {
            law_no_report_strays(s, job, id, to);
        },
        _ => {},
    }
}

/// Dropping servers keeps the records in agreement.
proof fn lemma_pruned_settled<A>(s: SchedulerState<A>, now: u64, timeout: u64)
    requires
        s.wf(),
        s.settled(),
    ensures
        s.pruned(now, timeout).settled(),
{
    let t = s.pruned(now, timeout);
    law_just_the_dead_are_dropped(s, now, timeout);
    lemma_pruned_wf(s, now, timeout);
    assert forall|i: int, job: u64|
        0 <= i < t.servers.len() && #[trigger] t.servers[i].unclaimed.contains_key(
            job,
        ) implies waits(t, i, job) by {
        let k = lemma_kept_server(s, now, timeout, i);
        assert(s.servers[k].unclaimed.contains_key(job));
        assert(waits(s, k, job));
    }
    assert forall|job: u64| #[trigger] t.jobs.contains_key(job) implies exists|i: int|
        holds(t.servers, t.jobs[job].server_id, job, i) by {
        let k = choose|k: int| holds(s.servers, s.jobs[job].server_id, job, k);
        assert(!dead(s.servers[k], now, timeout)) by {
            if dead(s.servers[k], now, timeout) {
                assert(orphans(s.servers, now, timeout).contains(job));
            }
        }
        assert(s.servers.contains(s.servers[k]));
        assert(t.servers.contains(s.servers[k]));
        let i = choose|i: int| 0 <= i < t.servers.len() && t.servers[i] == s.servers[k];
        assert(holds(t.servers, t.jobs[job].server_id, job, i));
    }
    assert forall|i: int, k: int, job: u64|
        0 <= i < t.servers.len() && 0 <= k < t.servers.len()
            && #[trigger] t.servers[i].assigned.contains(job)
            && #[trigger] t.servers[k].assigned.contains(job) implies i == k by {
        let a = lemma_kept_server(s, now, timeout, i);
        let b = lemma_kept_server(s, now, timeout, k);
        assert(s.servers[a].assigned.contains(job) && s.servers[b].assigned.contains(job));
        assert(t.servers[i].id == t.servers[k].id);
    }
}

/// Where a server that was kept stood before.
proof fn lemma_kept_server<A>(s: SchedulerState<A>, now: u64, timeout: u64, i: int) -> (k: int)
    requires
        0 <= i < s.pruned(now, timeout).servers.len(),
    ensures
        0 <= k < s.servers.len(),
        s.servers[k] == s.pruned(now, timeout).servers[i],
{
    let t = s.pruned(now, timeout);
    law_just_the_dead_are_dropped(s, now, timeout);
    assert(t.servers.contains(t.servers[i]));
    choose|k: int| 0 <= k < s.servers.len() && s.servers[k] == t.servers[i]
}

/// Records agree after a step that keeps every server in its place and takes jobs from
/// servers only together with their records.
proof fn lemma_shrunk_settled<A>(s: SchedulerState<A>, t: SchedulerState<A>)
    requires
        s.settled(),
        t.servers.len() == s.servers.len(),
        forall|i: int| 0 <= i < s.servers.len() ==> (#[trigger] t.servers[i]).id == s.servers[i].id,
        forall|i: int, job: u64|
            0 <= i < s.servers.len() && #[trigger] t.servers[i].assigned.contains(job)
                ==> s.servers[i].assigned.contains(job),
        forall|i: int, job: u64|
            0 <= i < s.servers.len() && #[trigger] t.servers[i].unclaimed.contains_key(job)
                ==> t.servers[i].assigned.contains(job) && s.servers[i].unclaimed.contains_key(job),
        forall|job: u64| #[trigger]
            t.jobs.contains_key(job) ==> s.jobs.contains_key(job) && t.jobs[job] == s.jobs[job],
        forall|i: int, job: u64|
            #![trigger s.servers[i].assigned.contains(job)]
            0 <= i < s.servers.len() && s.servers[i].assigned.contains(job) && t.jobs.contains_key(
                job,
            ) ==> t.servers[i].assigned.contains(job),
    ensures
        t.settled(),
{
    assert forall|i: int, job: u64|
        0 <= i < t.servers.len() && #[trigger] t.servers[i].unclaimed.contains_key(
            job,
        ) implies waits(t, i, job) by {
        assert(s.servers[i].unclaimed.contains_key(job));
        assert(waits(s, i, job));
    }
    assert forall|job: u64| #[trigger] t.jobs.contains_key(job) implies exists|i: int|
        holds(t.servers, t.jobs[job].server_id, job, i) by {
        let i = choose|i: int| holds(s.servers, s.jobs[job].server_id, job, i);
        assert(s.servers[i].assigned.contains(job));
        assert(holds(t.servers, t.jobs[job].server_id, job, i));
    }
}

/// Relieving a server keeps the records in agreement.
proof fn lemma_heard_from_settled<A>(s: SchedulerState<A>, i: int, now: u64)
    requires
        s.settled(),
        0 <= i < s.servers.len(),
    ensures
        s.heard_from(i, now).settled(),
{
    let t = s.heard_from(i, now);
    assert forall|k: int, job: u64|
        0 <= k < s.servers.len() && #[trigger] t.servers[k].unclaimed.contains_key(
            job,
        ) implies t.servers[k].assigned.contains(job) && s.servers[k].unclaimed.contains_key(
        job,
    ) by {
        assert(s.servers[k].unclaimed.contains_key(job));
        assert(waits(s, k, job));
    }
    lemma_shrunk_settled(s, t);
}

/// Registering a server keeps the records in agreement.
proof fn lemma_with_server_settled<A>(s: SchedulerState<A>, server: ServerState<A>)
    requires
        s.wf(),
        s.settled(),
        server.assigned == Set::<u64>::empty(),
        server.unclaimed == Map::<u64, u64>::empty(),
    ensures
        s.with_server(server).settled(),
{
    let t = s.with_server(server);
    match locate(s.servers, server.id) {
        Some(p) => {
            assert(is_at(s.servers, server.id, p));
            lemma_shrunk_settled(s, t);
        },
        None => {
            assert forall|i: int, job: u64|
                0 <= i < t.servers.len() && #[trigger] t.servers[i].unclaimed.contains_key(
                    job,
                ) implies waits(t, i, job) by {
                assert(s.servers[i].unclaimed.contains_key(job));
                assert(waits(s, i, job));
            }
            assert forall|job: u64| #[trigger] t.jobs.contains_key(job) implies exists|i: int|
                holds(t.servers, t.jobs[job].server_id, job, i) by {
                let i = choose|i: int| holds(s.servers, s.jobs[job].server_id, job, i);
                assert(holds(t.servers, t.jobs[job].server_id, job, i));
            }
            assert forall|i: int, k: int, job: u64|
                0 <= i < t.servers.len() && 0 <= k < t.servers.len()
                    && #[trigger] t.servers[i].assigned.contains(job)
                    && #[trigger] t.servers[k].assigned.contains(job) implies i == k by {
                assert(s.servers[i].assigned.contains(job));
                assert(s.servers[k].assigned.contains(job));
            }
        },
    }
}

/// A request keeps the records in agreement.
proof fn lemma_request_settled<A>(s: SchedulerState<A>, now: u64, at: u64)
    requires
        s.wf(),
        s.settled(),
    ensures
        s.after(SchedulerEvent::Request { now, at }).settled(),
{
    let w = SchedulerState { servers: walked(s.servers, looked_at(s.servers), now), ..s };
    assert forall|k: int, job: u64|
        0 <= k < s.servers.len() && #[trigger] w.servers[k].unclaimed.contains_key(
            job,
        ) implies w.servers[k].assigned.contains(job) && s.servers[k].unclaimed.contains_key(
        job,
    ) by {
        assert(s.servers[k].unclaimed.contains_key(job));
        assert(waits(s, k, job));
    }
    lemma_shrunk_settled(s, w);
    if let Some(c) = choice(s.servers, now) {
        law_the_chosen_server_is_best(s, now, c);
        law_a_new_job_has_a_new_number(s);
        let new = s.job_count as u64;
        let t = s.allocated(c, now, at);
        assert forall|i: int, job: u64|
            0 <= i < t.servers.len() && #[trigger] t.servers[i].unclaimed.contains_key(
                job,
            ) implies waits(t, i, job) by {
            if job != new {
                assert(w.servers[i].unclaimed.contains_key(job));
                assert(waits(w, i, job));
            }
        }
        assert forall|job: u64| #[trigger] t.jobs.contains_key(job) implies exists|i: int|
            holds(t.servers, t.jobs[job].server_id, job, i) by {
            assert(w.jobs.contains_key(job));
            let i = choose|i: int| holds(w.servers, w.jobs[job].server_id, job, i);
            assert(holds(t.servers, t.jobs[job].server_id, job, i));
        }
        assert forall|i: int, k: int, job: u64|
            0 <= i < t.servers.len() && 0 <= k < t.servers.len()
                && #[trigger] t.servers[i].assigned.contains(job)
                && #[trigger] t.servers[k].assigned.contains(job) implies i == k by {
            if job == new {
                assert(!s.servers[i].assigned.contains(new));
                assert(!s.servers[k].assigned.contains(new));
            } else {
                assert(w.servers[i].assigned.contains(job) && w.servers[k].assigned.contains(job));
            }
        }
    }
}

/// The answer of a server keeps the records in agreement.
proof fn lemma_answer_settled<A>(s: SchedulerState<A>, event: SchedulerEvent<A>)
    requires
        s.wf(),
        s.settled(),
        s.as_agreed(event),
        event is Accept || event is Refuse,
    ensures
        s.after(event).settled(),
{
    let t = s.after(event);
    match event {
        SchedulerEvent::Accept { job: new, id, state } => {
            let h = choose|h: int| holds(s.servers, id, new, h);
            assert forall|i: int, job: u64|
                0 <= i < t.servers.len() && #[trigger] t.servers[i].unclaimed.contains_key(
                    job,
                ) implies waits(t, i, job) by {
                assert(s.servers[i].unclaimed.contains_key(job));
                assert(waits(s, i, job));
                if job == new {
                    assert(s.servers[i].assigned.contains(job));
                    assert(s.servers[h].assigned.contains(job));
                }
            }
            assert forall|job: u64| #[trigger] t.jobs.contains_key(job) implies exists|i: int|
                holds(t.servers, t.jobs[job].server_id, job, i) by {
                if job == new {
                    assert(holds(t.servers, t.jobs[job].server_id, job, h));
                } else {
                    assert(s.jobs.contains_key(job));
                    let i = choose|i: int| holds(s.servers, s.jobs[job].server_id, job, i);
                    assert(holds(t.servers, t.jobs[job].server_id, job, i));
                }
            }
            assert(t.exclusive()) by {
                assert(t.servers == s.servers);
            }
        },
        SchedulerEvent::Refuse { job: gone, id, now } => {
            if let Some(p) = locate(s.servers, id) {
                assert(is_at(s.servers, id, p));
            }
            assert forall|k: int, job: u64|
                0 <= k < s.servers.len() && #[trigger] t.servers[k].unclaimed.contains_key(
                    job,
                ) implies t.servers[k].assigned.contains(job)
                && s.servers[k].unclaimed.contains_key(job) by {
                assert(s.servers[k].unclaimed.contains_key(job));
                assert(waits(s, k, job));
            }
            lemma_shrunk_settled(s, t);
        },
        _ => {},
    }
}

/// A report keeps the records in agreement.
proof fn lemma_report_settled<A>(
    s: SchedulerState<A>,
    job: u64,
    id: ServerId,
    to: JobState,
    now: u64,
)
    requires
        s.wf(),
        s.settled(),
    ensures
        s.updated(job, id, to, now).settled(),
{
    let t = s.updated(job, id, to, now);
    let place = locate(s.servers, id);
    let ours = s.jobs.contains_key(job) && s.jobs[job].server_id == id;
    if place is Some {
        assert(is_at(s.servers, id, place->0));
    }
    assert forall|i: int, j: u64|
        0 <= i < t.servers.len() && #[trigger] t.servers[i].unclaimed.contains_key(
            j,
        ) implies waits(t, i, j) by {
        assert(s.servers[i].unclaimed.contains_key(j));
        assert(waits(s, i, j));
        if j == job && ours {
            assert(is_at(s.servers, id, i));
            assert(s.servers[i].id == s.servers[place->0].id);
        }
    }
    assert forall|j: u64| #[trigger] t.jobs.contains_key(j) implies exists|i: int|
        holds(t.servers, t.jobs[j].server_id, j, i) by {
        assert(s.jobs.contains_key(j));
        let i = choose|i: int| holds(s.servers, s.jobs[j].server_id, j, i);
        assert(holds(t.servers, t.jobs[j].server_id, j, i));
    }
    assert forall|i: int, k: int, j: u64|
        0 <= i < t.servers.len() && 0 <= k < t.servers.len()
            && #[trigger] t.servers[i].assigned.contains(j)
            && #[trigger] t.servers[k].assigned.contains(j) implies i == k by {
        assert(s.servers[i].assigned.contains(j) && s.servers[k].assigned.contains(j));
    }
}

/// Records that agree keep to it: no job on record is complete; an unclaimed job of a
/// server was given to it and is pending or ready if it is on record; every job on
/// record names a known server that it was given to; and no job was given to two.
pub proof fn law_records_stay_settled<A>(s: SchedulerState<A>, event: SchedulerEvent<A>)
    requires
        s.wf(),
        s.settled(),
        s.as_agreed(event),
    ensures
        s.allows(event),
        s.after(event).settled(),
{
    lemma_as_agreed_is_allowed(s, event);
    match event {
        SchedulerEvent::Prune { now, timeout } => {
            lemma_pruned_settled(s, now, timeout);
        },
        SchedulerEvent::Request { now, at } => {
            lemma_request_settled(s, now, at);
        },
        SchedulerEvent::Accept { .. } => {
            lemma_answer_settled(s, event);
        },
        SchedulerEvent::Refuse { .. } => {
            lemma_answer_settled(s, event);
        },
        SchedulerEvent::Heartbeat {
            id,
            nonce,
            num_cpus,
            authorizer,
            pruned_at,
            now,
            timeout,
        } => {
            let pruned = s.pruned(pruned_at, timeout);
            lemma_pruned_wf(s, pruned_at, timeout);
            lemma_pruned_settled(s, pruned_at, timeout);
            let place = locate(pruned.servers, id);
            if num_cpus == 0 {
            } else if place is Some && pruned.servers[place->0].nonce == nonce {
                assert(is_at(pruned.servers, id, place->0));
                lemma_heard_from_settled(pruned, place->0, now);
            } else {
                lemma_with_server_settled(
                    pruned,
                    registered(id, nonce, num_cpus, authorizer, now),
                );
            }
        },
        SchedulerEvent::Report { job, id, to, now } => {
            lemma_report_settled(s, job, id, to, now);
        },
    }
}

/// Records that agree keep to it however much happens.
pub proof fn law_records_stay_settled_forever<A>(
    s: SchedulerState<A>,
    events: Seq<SchedulerEvent<A>>,
)
    requires
        s.wf(),
        s.settled(),
        s.all_as_agreed(events),
    ensures
        s.allows_all(events),
        s.after_all(events).wf(),
        s.after_all(events).settled(),
    decreases events.len(),
{
    if events.len() > 0 {
        let before = s.after_all(events.drop_last());
        law_records_stay_settled_forever(s, events.drop_last());
        law_records_stay_settled(before, events.last());
        law_records_stay_sound(before, events.last());
    }
}

/// When requests are handled one after the other, the records of a scheduler that
/// started with none always agree, and nothing happens that it does not take.
pub proof fn law_handling_in_turn_keeps_records_settled<A>(events: Seq<SchedulerEvent<A>>)
    requires
        initial::<A>().in_turn(events),
    ensures
        initial::<A>().allows_all(events),
        initial::<A>().after_all(events).wf(),
        initial::<A>().after_all(events).settled(),
{
    assert(initial::<A>().wf());
    assert(initial::<A>().settled());
    lemma_in_turn_is_as_agreed(initial::<A>(), events);
    law_records_stay_settled_forever(initial::<A>(), events);
}

/// What happens in turn is as agreed.
proof fn lemma_in_turn_is_as_agreed<A>(s: SchedulerState<A>, events: Seq<SchedulerEvent<A>>)
    requires
        s.wf(),
        s.settled(),
        s.in_turn(events),
    ensures
        s.all_as_agreed(events),
    decreases events.len(),
{
    if events.len() > 0 {
        let before = events.drop_last();
        lemma_in_turn_is_as_agreed(s, before);
        match events.last() {
            SchedulerEvent::Accept { job, id, state } => {
                lemma_just_given_is_held(s, before, job, id);
            },
            SchedulerEvent::Refuse { job, id, now } => {
                lemma_just_given_is_held(s, before, job, id);
            },
            _ => {},
        }
    }
}

/// A job that was just given to a server is held by it, and not on record yet.
proof fn lemma_just_given_is_held<A>(
    s: SchedulerState<A>,
    events: Seq<SchedulerEvent<A>>,
    job: u64,
    id: ServerId,
)
    requires
        s.wf(),
        s.settled(),
        s.all_as_agreed(events),
        s.just_given(events, job, id),
    ensures
        !s.after_all(events).jobs.contains_key(job),
        exists|i: int| holds(s.after_all(events).servers, id, job, i),
{
    let before = s.after_all(events.drop_last());
    law_records_stay_settled_forever(s, events.drop_last());
    if let SchedulerEvent::Request { now, at } = events.last() {
        let c = choice(before.servers, now)->0;
        law_the_chosen_server_is_best(before, now, c);
        law_a_new_job_has_a_new_number(before);
        assert(holds(s.after_all(events).servers, id, job, c));
    }
}

/// Whether `job` was given to the server at place `i`, and to no other.
pub open spec fn held_alone<A>(servers: Seq<ServerState<A>>, i: int, job: u64) -> bool {
    &&& servers[i].assigned.contains(job)
    &&& forall|k: int|
        0 <= k < servers.len() && k != i ==> !(#[trigger] servers[k]).assigned.contains(job)
}

/// The grace period of a ready job starts with the report that it is ready: when its
/// server is heard from next, the job is taken back exactly if it has been ready for
/// sixty seconds, however long ago it was given out. That is so whether or not the
/// server has been silent for so long that it is dropped and registers anew, as long as
/// it takes sixty seconds at least for that.
pub proof fn law_the_ready_grace_starts_with_the_report<A>(
    s: SchedulerState<A>,
    job: u64,
    id: ServerId,
    ready_at: u64,
    nonce: ServerNonce,
    num_cpus: usize,
    authorizer: A,
    pruned_at: u64,
    now: u64,
    timeout: u64,
)
    requires
        s.wf(),
        s.jobs.contains_key(job),
        s.jobs[job].server_id == id,
        s.jobs[job].state is Pending,
        locate(s.servers, id) is Some,
        s.servers[locate(s.servers, id)->0].unclaimed.contains_key(job),
        s.servers[locate(s.servers, id)->0].nonce == nonce,
        held_alone(s.servers, locate(s.servers, id)->0, job),
        num_cpus > 0,
        elapsed(pruned_at, ready_at) <= timeout || (timeout >= UNCLAIMED_READY_TIMEOUT && pruned_at
            <= now),
    ensures
        s.update_answer(job, id, JobState::Ready) is Ok,
        ({
            let ready = s.updated(job, id, JobState::Ready, ready_at);
            let heard = ready.after(
                SchedulerEvent::Heartbeat {
                    id,
                    nonce,
                    num_cpus,
                    authorizer,
                    pruned_at,
                    now,
                    timeout,
                },
            );
            let over = elapsed(now, ready_at) >= UNCLAIMED_READY_TIMEOUT;
            &&& ready.servers[locate(s.servers, id)->0].unclaimed[job] == ready_at
            &&& !heard.jobs.contains_key(job) <==> over
            &&& over ==> forall|k: int|
                0 <= k < heard.servers.len() ==> !(#[trigger] heard.servers[k]).assigned.contains(
                    job,
                )
            &&& !over ==> exists|k: int| holds(heard.servers, id, job, k)
        }),
{
    let i = locate(s.servers, id)->0;
    assert(is_at(s.servers, id, i));
    let report = SchedulerEvent::<A>::Report { job, id, to: JobState::Ready, now: ready_at };
    let ready = s.after(report);
    law_records_stay_sound(s, report);
    assert(held_alone(ready.servers, i, job));
    let server = ready.servers[i];
    let pruned = ready.pruned(pruned_at, timeout);
    law_just_the_dead_are_dropped(ready, pruned_at, timeout);
    lemma_pruned_wf(ready, pruned_at, timeout);
    let event = SchedulerEvent::Heartbeat {
        id,
        nonce,
        num_cpus,
        authorizer,
        pruned_at,
        now,
        timeout,
    };
    let heard = ready.after(event);
    assert forall|k: int|
        0 <= k < pruned.servers.len() && (#[trigger] pruned.servers[k]).assigned.contains(
            job,
        ) implies pruned.servers[k] == server by {
        let a = lemma_kept_server(ready, pruned_at, timeout, k);
        assert(ready.servers[a].assigned.contains(job));
    }
    if dead(server, pruned_at, timeout) {
        assert(orphans(ready.servers, pruned_at, timeout).contains(job));
        assert forall|k: int| 0 <= k < heard.servers.len() implies !(
        #[trigger] heard.servers[k]).assigned.contains(job) by {
            if k < pruned.servers.len() && pruned.servers[k].assigned.contains(job) {
                assert(pruned.servers.contains(pruned.servers[k]));
            }
        }
    } else {
        assert(!orphans(ready.servers, pruned_at, timeout).contains(job)) by {
            if orphans(ready.servers, pruned_at, timeout).contains(job) {
                let k = choose|k: int|
                    0 <= k < ready.servers.len() && dead(
                        #[trigger] ready.servers[k],
                        pruned_at,
                        timeout,
                    ) && ready.servers[k].assigned.contains(job);
                assert(k == i);
            }
        }
        assert(ready.servers.contains(server));
        assert(pruned.servers.contains(server));
        let p = choose|p: int| 0 <= p < pruned.servers.len() && pruned.servers[p] == server;
        assert(is_at(pruned.servers, id, p));
        let q = locate(pruned.servers, id)->0;
        assert(is_at(pruned.servers, id, q));
        assert(pruned.servers[p].id == pruned.servers[q].id);
        let gone = stale(pruned.jobs, pruned.servers[q], now);
        assert(pruned.jobs.contains_key(job));
        assert(gone.contains(job) <==> elapsed(now, ready_at) >= UNCLAIMED_READY_TIMEOUT);
        assert(heard == pruned.heard_from(q, now));
        assert forall|k: int|
            0 <= k < heard.servers.len() && gone.contains(job) implies !(
        #[trigger] heard.servers[k]).assigned.contains(job) by {
            if k != q && pruned.servers[k].assigned.contains(job) {
                assert(pruned.servers[k].id == pruned.servers[q].id);
            }
        }
        if !gone.contains(job) {
            assert(holds(heard.servers, id, job, q));
        }
    }
}

/// When requests are handled one after the other, the grace period of a ready job always
/// starts with the report that it is ready.
pub proof fn law_the_ready_grace_holds_in_turn<A>(
    events: Seq<SchedulerEvent<A>>,
    job: u64,
    id: ServerId,
    ready_at: u64,
    nonce: ServerNonce,
    num_cpus: usize,
    authorizer: A,
    pruned_at: u64,
    now: u64,
    timeout: u64,
)
    requires
        initial::<A>().in_turn(events),
        ({
            let s = initial::<A>().after_all(events);
            &&& s.jobs.contains_key(job)
            &&& s.jobs[job].server_id == id
            &&& s.jobs[job].state is Pending
            &&& locate(s.servers, id) is Some
            &&& s.servers[locate(s.servers, id)->0].unclaimed.contains_key(job)
            &&& s.servers[locate(s.servers, id)->0].nonce == nonce
        }),
        num_cpus > 0,
        elapsed(pruned_at, ready_at) <= timeout || (timeout >= UNCLAIMED_READY_TIMEOUT && pruned_at
            <= now),
    ensures
        ({
            let s = initial::<A>().after_all(events);
            let ready = SchedulerEvent::Report { job, id, to: JobState::Ready, now: ready_at };
            let heard = SchedulerEvent::Heartbeat {
                id,
                nonce,
                num_cpus,
                authorizer,
                pruned_at,
                now,
                timeout,
            };
            &&& s.update_answer(job, id, JobState::Ready) is Ok
            &&& !s.after(ready).after(heard).jobs.contains_key(job) <==> elapsed(now, ready_at)
                >= UNCLAIMED_READY_TIMEOUT
        }),
{
    let s = initial::<A>().after_all(events);
    law_handling_in_turn_keeps_records_settled(events);
    let i = locate(s.servers, id)->0;
    assert(is_at(s.servers, id, i));
    assert(waits(s, i, job));
    law_the_ready_grace_starts_with_the_report(
        s,
        job,
        id,
        ready_at,
        nonce,
        num_cpus,
        authorizer,
        pruned_at,
        now,
        timeout,
    );
}

} // verus!
