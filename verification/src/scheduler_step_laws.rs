//! What each step of the scheduler does to its records, and what requests are answered.
//!
//! The times in these laws are nanoseconds. A server with `n` cores has room for fewer
//! than `n + 1 + n / 8` jobs.

use vstd::prelude::*;

use crate::dist::{
    HeartbeatServerResult, JobId, JobState, ServerId, ServerNonce, UpdateJobStateResult,
};
use crate::load::{lighter, load_of};
use crate::scheduler::allocation::{
    capacity_text, choice, faulty, forgiven, has_room, healthy, idle, is_fallback, is_first_idle,
    is_lightest, looked_at, none_forgiven, server_load, walked, AssignFailure,
};
use crate::scheduler::job_state::UpdateJobStateError;
use crate::scheduler::{
    dead, initial, is_at, lemma_pruned_wf, locate, orphans, registered, stale, total_cpus,
    HeartbeatError, SchedulerState, ServerDetails, ServerState,
};
use crate::scheduler_laws::{
    law_a_job_finds_a_server_if_one_has_room, law_just_the_dead_are_dropped,
    law_the_chosen_server_is_best, lemma_looked_at,
};
use crate::text::decimal_text;

verus! {

/// The model of a server's record holds what the record holds.
pub proof fn law_a_server_is_read_as_it_is<A>(details: ServerDetails<A>)
    ensures
        details@.id == details.server_id,
        details@.assigned == details.jobs_assigned@,
        details@.unclaimed == details.jobs_unclaimed@,
        details@.last_seen == details.last_seen,
        details@.last_error == details.last_error,
        details@.num_cpus == details.num_cpus,
        details@.nonce == details.server_nonce,
        details@.authorizer == details.job_authorizer,
{
}

/// A new scheduler knows no server and no job, and has given out no number.
pub proof fn law_what_a_new_scheduler_knows<A>()
    ensures
        initial::<A>().job_count == 0,
        initial::<A>().servers.len() == 0,
        forall|job: u64| !(#[trigger] initial::<A>().jobs.contains_key(job)),
        initial::<A>().wf(),
{
}

/// Records are sound exactly if no two servers have the same name, every job on record or
/// given to a server has a number that was given out, and every server has a core and no more
/// than `n + 1 + n / 8` jobs on its `n` cores.
pub proof fn law_which_records_are_sound<A>(s: SchedulerState<A>)
    ensures
        s.wf() <==> {
            &&& forall|i: int, j: int|
                0 <= i < j < s.servers.len() ==> (#[trigger] s.servers[i]).id != (
                #[trigger] s.servers[j]).id
            &&& forall|job: u64| #[trigger] s.jobs.contains_key(job) ==> job < s.job_count
            &&& forall|i: int|
                #![trigger s.servers[i]]
                0 <= i < s.servers.len() ==> {
                    let x = s.servers[i];
                    &&& x.num_cpus >= 1
                    &&& x.assigned.finite()
                    &&& x.assigned.len() <= x.num_cpus + 1 + x.num_cpus / 8
                    &&& forall|job: u64| #[trigger] x.assigned.contains(job) ==> job < s.job_count
                    &&& forall|job: u64| #[trigger]
                        x.unclaimed.contains_key(job) ==> job < s.job_count
                }
        },
{
}

/// A job is on record with its details, and a server is known by its name, wherever it stands
/// among the servers.
pub proof fn law_what_is_read_of_the_records<A>(s: SchedulerState<A>, job: u64, id: ServerId)
    requires
        s.wf(),
    ensures
        s.recorded(job) is Some <==> s.jobs.contains_key(job),
        s.jobs.contains_key(job) ==> s.recorded(job) == Some(s.jobs[job]),
        s.server_known(id) is None <==> forall|i: int|
            0 <= i < s.servers.len() ==> (#[trigger] s.servers[i]).id != id,
        forall|i: int|
            0 <= i < s.servers.len() && (#[trigger] s.servers[i]).id == id ==> s.server_known(id)
                == Some(s.servers[i]),
{
    assert forall|i: int| 0 <= i < s.servers.len() && (#[trigger] s.servers[i]).id == id implies
        s.server_known(id) == Some(s.servers[i]) by {
        assert(is_at(s.servers, id, i));
    }
}

/// A failure to hand a job out is told in words.
pub proof fn law_how_failures_are_told(failure: AssignFailure)
    ensures
        failure is ServerNotKnown ==> failure.words() == "assign job failed and server not known"@,
        failure is JobNotKnown ==> failure.words()
            == "assign job failed and job not known to the server"@,
        failure is Unassigned ==> failure.words()
            == "assign job failed, job un-assigned from the server"@,
{
}

/// Silence alone drops a server, whatever jobs it has: after pruning at `now` every server
/// is left, in its order and with its record, that was last seen no more than `timeout`
/// ago, and no other. A job is forgotten exactly if it was given to a server that is
/// dropped.
pub proof fn law_silence_alone_drops_a_server<A>(s: SchedulerState<A>, now: u64, timeout: u64)
    ensures
        ({
            let t = s.pruned(now, timeout);
            &&& t.servers == s.servers.filter(|x: ServerState<A>| now - x.last_seen <= timeout)
            &&& forall|x: ServerState<A>| #[trigger]
                t.servers.contains(x) <==> s.servers.contains(x) && now - x.last_seen <= timeout
            &&& forall|job: u64| #[trigger]
                t.jobs.contains_key(job) <==> s.jobs.contains_key(job) && forall|i: int|
                    0 <= i < s.servers.len() && (#[trigger] s.servers[i]).assigned.contains(job)
                        ==> now - s.servers[i].last_seen <= timeout
            &&& forall|job: u64| #[trigger] t.jobs.contains_key(job) ==> t.jobs[job] == s.jobs[job]
            &&& t.job_count == s.job_count
        }),
{
    let t = s.pruned(now, timeout);
    law_just_the_dead_are_dropped(s, now, timeout);
    assert((|x: ServerState<A>| !dead(x, now, timeout)) =~= (|x: ServerState<A>|
        now - x.last_seen <= timeout));
    assert forall|x: ServerState<A>| #[trigger] t.servers.contains(x) <==> s.servers.contains(x)
        && now - x.last_seen <= timeout by {}
    assert forall|job: u64| #[trigger]
        t.jobs.contains_key(job) <==> s.jobs.contains_key(job) && forall|i: int|
            0 <= i < s.servers.len() && (#[trigger] s.servers[i]).assigned.contains(job) ==> now
                - s.servers[i].last_seen <= timeout by {
        if orphans(s.servers, now, timeout).contains(job) {
            let i = choose|i: int|
                0 <= i < s.servers.len() && dead(#[trigger] s.servers[i], now, timeout)
                    && s.servers[i].assigned.contains(job);
            assert(now - s.servers[i].last_seen > timeout);
        } else {
            assert forall|i: int|
                0 <= i < s.servers.len() && (#[trigger] s.servers[i]).assigned.contains(
                    job,
                ) implies now - s.servers[i].last_seen <= timeout by {
                assert(!dead(s.servers[i], now, timeout));
            }
        }
    }
}

/// The cores of all servers are those of one more server and of the rest, and none where
/// there is no server.
pub proof fn law_the_total_counts_every_server<A>(
    servers: Seq<ServerState<A>>,
    server: ServerState<A>,
)
    ensures
        total_cpus(Seq::<ServerState<A>>::empty()) == 0,
        total_cpus(servers.push(server)) == total_cpus(servers) + server.num_cpus,
{
    assert(servers.push(server).drop_last() =~= servers);
}

/// The totals count the servers that were last seen no more than `timeout` ago, their cores,
/// and the jobs on record that were not given to any other server.
pub proof fn law_what_the_totals_count<A>(s: SchedulerState<A>, now: u64, timeout: u64)
    requires
        s.servers.len() <= usize::MAX,
        s.jobs.dom().finite(),
        s.jobs.len() <= usize::MAX,
        total_cpus(s.servers.filter(|x: ServerState<A>| now - x.last_seen <= timeout))
            <= usize::MAX,
    ensures
        ({
            let r = s.status_at(now, timeout);
            let alive = s.servers.filter(|x: ServerState<A>| now - x.last_seen <= timeout);
            let running = s.jobs.dom().filter(
                |job: u64|
                    forall|i: int|
                        0 <= i < s.servers.len() && (#[trigger] s.servers[i]).assigned.contains(job)
                            ==> now - s.servers[i].last_seen <= timeout,
            );
            &&& r.num_servers == alive.len()
            &&& r.num_cpus == total_cpus(alive)
            &&& r.in_progress == running.len()
        }),
{
    law_silence_alone_drops_a_server(s, now, timeout);
    let t = s.pruned(now, timeout);
    let running = s.jobs.dom().filter(
        |job: u64|
            forall|i: int|
                0 <= i < s.servers.len() && (#[trigger] s.servers[i]).assigned.contains(job) ==> now
                    - s.servers[i].last_seen <= timeout,
    );
    assert(t.jobs.dom() =~= running);
    vstd::set_lib::lemma_len_subset(running, s.jobs.dom());
    s.servers.lemma_filter_len(|x: ServerState<A>| now - x.last_seen <= timeout);
}

/// The cores are told of the servers that were last seen no more than `timeout` ago, if their
/// number fits.
pub proof fn law_whose_cores_are_counted<A>(s: SchedulerState<A>, now: u64, timeout: u64)
    ensures
        ({
            let total = total_cpus(
                s.servers.filter(|x: ServerState<A>| now - x.last_seen <= timeout),
            );
            &&& total <= usize::MAX ==> s.live_total(now, timeout) == Some(total as usize)
            &&& total > usize::MAX ==> s.live_total(now, timeout) is None
        }),
{
    law_silence_alone_drops_a_server(s, now, timeout);
}

/// When a server is heard from at `now`, an unclaimed job is taken back exactly if no server
/// has taken it or it is ready and it has waited for a minute at least, or if it is pending
/// and has waited for more than five. It is then neither on record nor with the server.
/// Nothing else changes but the time at which the server was last seen.
pub proof fn law_what_a_sign_of_life_does<A>(s: SchedulerState<A>, i: int, now: u64)
    requires
        0 <= i < s.servers.len(),
    ensures
        ({
            let t = s.heard_from(i, now);
            let (a, b) = (s.servers[i], t.servers[i]);
            let back = |job: u64|
                a.unclaimed.contains_key(job) && if s.jobs.contains_key(job) {
                    match s.jobs[job].state {
                        JobState::Ready => now - a.unclaimed[job] >= 60_000_000_000,
                        JobState::Pending => now - a.unclaimed[job] > 300_000_000_000,
                        JobState::Started => false,
                        JobState::Complete => false,
                    }
                } else {
                    now - a.unclaimed[job] >= 60_000_000_000
                };
            &&& forall|job: u64| #[trigger]
                b.assigned.contains(job) <==> a.assigned.contains(job) && !back(job)
            &&& forall|job: u64| #[trigger]
                b.unclaimed.contains_key(job) <==> a.unclaimed.contains_key(job) && !back(job)
            &&& forall|job: u64| #[trigger]
                b.unclaimed.contains_key(job) ==> b.unclaimed[job] == a.unclaimed[job]
            &&& forall|job: u64| #[trigger]
                t.jobs.contains_key(job) <==> s.jobs.contains_key(job) && !back(job)
            &&& forall|job: u64| #[trigger] t.jobs.contains_key(job) ==> t.jobs[job] == s.jobs[job]
            &&& b.last_seen == now
            &&& b.id == a.id && b.last_error == a.last_error && b.num_cpus == a.num_cpus && b.nonce
                == a.nonce && b.authorizer == a.authorizer
            &&& t.servers.len() == s.servers.len()
            &&& forall|k: int|
                0 <= k < s.servers.len() && k != i ==> #[trigger] t.servers[k] == s.servers[k]
            &&& t.job_count == s.job_count
        }),
{
    let gone = stale(s.jobs, s.servers[i], now);
    assert forall|job: u64| gone.contains(job) implies s.servers[i].unclaimed.contains_key(job) by {
    }
}

/// A heartbeat is refused exactly if it claims no cores, and then changes nothing. It is
/// the sign of life of a server that is known exactly if a server of that address and
/// process was last seen no more than `timeout` ago.
pub proof fn law_what_a_heartbeat_is_answered<A>(
    s: SchedulerState<A>,
    id: ServerId,
    nonce: ServerNonce,
    num_cpus: usize,
    authorizer: A,
    pruned_at: u64,
    now: u64,
    timeout: u64,
)
    requires
        s.wf(),
    ensures
        ({
            let r = s.heartbeat_answer(id, nonce, num_cpus, pruned_at, timeout);
            let t = s.heartbeat(id, nonce, num_cpus, authorizer, pruned_at, now, timeout);
            let known = exists|i: int|
                0 <= i < s.servers.len() && (#[trigger] s.servers[i]).id == id && s.servers[i].nonce
                    == nonce && pruned_at - s.servers[i].last_seen <= timeout;
            &&& r == Err::<HeartbeatServerResult, HeartbeatError>(HeartbeatError::NoCpus)
                <==> num_cpus == 0
            &&& num_cpus == 0 ==> t == s
            &&& r == Ok::<HeartbeatServerResult, HeartbeatError>(
                HeartbeatServerResult { is_new: false },
            ) <==> num_cpus > 0 && known
            &&& r == Ok::<HeartbeatServerResult, HeartbeatError>(
                HeartbeatServerResult { is_new: true },
            ) <==> num_cpus > 0 && !known
            &&& num_cpus > 0 && known ==> exists|k: int|
                0 <= k < s.pruned(pruned_at, timeout).servers.len() && (
                #[trigger] s.pruned(pruned_at, timeout).servers[k]).id == id && t == s.pruned(
                    pruned_at,
                    timeout,
                ).heard_from(k, now)
        }),
{
    let p = s.pruned(pruned_at, timeout);
    law_silence_alone_drops_a_server(s, pruned_at, timeout);
    lemma_pruned_wf(s, pruned_at, timeout);
    let place = locate(p.servers, id);
    if place is Some {
        let k = place->0;
        assert(is_at(p.servers, id, k));
        assert(p.servers.contains(p.servers[k]));
        let i = choose|i: int| 0 <= i < s.servers.len() && s.servers[i] == p.servers[k];
        assert(s.servers[i].id == id);
    }
    if exists|i: int|
        0 <= i < s.servers.len() && (#[trigger] s.servers[i]).id == id && s.servers[i].nonce
            == nonce && pruned_at - s.servers[i].last_seen <= timeout {
        let i = choose|i: int|
            0 <= i < s.servers.len() && (#[trigger] s.servers[i]).id == id && s.servers[i].nonce
                == nonce && pruned_at - s.servers[i].last_seen <= timeout;
        assert(s.servers.contains(s.servers[i]));
        assert(p.servers.contains(s.servers[i]));
        let k = choose|k: int| 0 <= k < p.servers.len() && p.servers[k] == s.servers[i];
        assert(is_at(p.servers, id, k));
        assert(is_at(p.servers, id, place->0));
        assert(p.servers[k].id == p.servers[place->0].id);
    }
}

/// A server that registers is known from then on, as it says it is, just seen, without a
/// failure and without a job. The jobs that a server at its address had before are
/// forgotten, and those of servers that were silent for longer than `timeout`; every other
/// job and every other server is as it was.
pub proof fn law_what_a_registration_does<A>(
    s: SchedulerState<A>,
    id: ServerId,
    nonce: ServerNonce,
    num_cpus: usize,
    authorizer: A,
    pruned_at: u64,
    now: u64,
    timeout: u64,
)
    requires
        s.wf(),
        num_cpus > 0,
        forall|i: int|
            0 <= i < s.servers.len() && (#[trigger] s.servers[i]).id == id && s.servers[i].nonce
                == nonce ==> pruned_at - s.servers[i].last_seen > timeout,
    ensures
        ({
            let t = s.heartbeat(id, nonce, num_cpus, authorizer, pruned_at, now, timeout);
            &&& exists|k: int|
                0 <= k < t.servers.len() && (#[trigger] t.servers[k]) == (ServerState {
                    id,
                    assigned: Set::empty(),
                    unclaimed: Map::empty(),
                    last_seen: now,
                    last_error: None,
                    num_cpus,
                    nonce,
                    authorizer,
                })
            &&& forall|x: ServerState<A>|
                x.id != id ==> (#[trigger] t.servers.contains(x) <==> s.servers.contains(x)
                    && pruned_at - x.last_seen <= timeout)
            &&& forall|job: u64| #[trigger]
                t.jobs.contains_key(job) <==> s.jobs.contains_key(job) && forall|i: int|
                    0 <= i < s.servers.len() && (#[trigger] s.servers[i]).assigned.contains(job)
                        ==> s.servers[i].id != id && pruned_at - s.servers[i].last_seen <= timeout
            &&& forall|job: u64| #[trigger] t.jobs.contains_key(job) ==> t.jobs[job] == s.jobs[job]
            &&& t.job_count == s.job_count
        }),
{
    let p = s.pruned(pruned_at, timeout);
    law_silence_alone_drops_a_server(s, pruned_at, timeout);
    lemma_pruned_wf(s, pruned_at, timeout);
    let new = registered(id, nonce, num_cpus, authorizer, now);
    let t = s.heartbeat(id, nonce, num_cpus, authorizer, pruned_at, now, timeout);
    let place = locate(p.servers, id);
    if place is Some {
        let k = place->0;
        assert(is_at(p.servers, id, k));
        assert(p.servers.contains(p.servers[k]));
        let i = choose|i: int| 0 <= i < s.servers.len() && s.servers[i] == p.servers[k];
        assert(s.servers[i].id == id);
    }
    assert(t == p.with_server(new));
    let at = if place is Some {
        place->0
    } else {
        p.servers.len() as int
    };
    assert(t.servers[at] == new);
    assert forall|x: ServerState<A>| x.id != id implies (#[trigger] t.servers.contains(x)
        <==> s.servers.contains(x) && pruned_at - x.last_seen <= timeout) by {
        if t.servers.contains(x) {
            let k = choose|k: int| 0 <= k < t.servers.len() && t.servers[k] == x;
            assert(k != at);
            assert(p.servers[k] == x);
            assert(p.servers.contains(x));
        }
        if p.servers.contains(x) {
            let k = choose|k: int| 0 <= k < p.servers.len() && p.servers[k] == x;
            assert(k != at);
            assert(t.servers[k] == x);
        }
    }
    assert forall|job: u64| #[trigger]
        t.jobs.contains_key(job) <==> s.jobs.contains_key(job) && forall|i: int|
            0 <= i < s.servers.len() && (#[trigger] s.servers[i]).assigned.contains(job)
                ==> s.servers[i].id != id && pruned_at - s.servers[i].last_seen <= timeout by {
        if t.jobs.contains_key(job) {
            assert(p.jobs.contains_key(job));
            assert forall|i: int|
                0 <= i < s.servers.len() && (#[trigger] s.servers[i]).assigned.contains(
                    job,
                ) implies s.servers[i].id != id && pruned_at - s.servers[i].last_seen
                <= timeout by {
                if s.servers[i].id == id {
                    assert(s.servers.contains(s.servers[i]));
                    assert(p.servers.contains(s.servers[i]));
                    let k = choose|k: int| 0 <= k < p.servers.len() && p.servers[k] == s.servers[i];
                    assert(is_at(p.servers, id, k));
                    assert(p.servers[k].id == p.servers[place->0].id);
                }
            }
        }
        if s.jobs.contains_key(job) && !t.jobs.contains_key(job) && p.jobs.contains_key(job) {
            let k = place->0;
            assert(p.servers[k].assigned.contains(job));
            assert(p.servers.contains(p.servers[k]));
            let i = choose|i: int| 0 <= i < s.servers.len() && s.servers[i] == p.servers[k];
            assert(s.servers[i].assigned.contains(job));
        }
    }
}

/// A server has room exactly if it has fewer jobs than cores, one more and an eighth more.
proof fn lemma_room<A>(s: SchedulerState<A>, i: int)
    requires
        s.wf(),
        0 <= i < s.servers.len(),
    ensures
        has_room(s.servers[i]) <==> s.servers[i].assigned.len() < s.servers[i].num_cpus + 1
            + s.servers[i].num_cpus / 8,
        idle(s.servers[i]) ==> has_room(s.servers[i]),
{
    let server = s.servers[i];
    assert(server.wf(s.job_count));
    lemma_jobs_fit(server.assigned, s.job_count);
    crate::load::law_a_server_takes_jobs_up_to_its_limit(server.assigned.len(), server.num_cpus);
}

/// There are no more jobs than numbers that were given out.
proof fn lemma_jobs_fit(jobs: Set<u64>, job_count: usize)
    requires
        jobs.finite(),
        forall|job: u64| jobs.contains(job) ==> job < job_count,
    ensures
        jobs.len() <= job_count,
{
    let all = vstd::set_lib::set_int_range(0, job_count as int);
    vstd::set_lib::lemma_int_range(0, job_count as int);
    let ints = jobs.map(|x: u64| x as int);
    assert(ints.subset_of(all));
    vstd::set_lib::lemma_map_size(jobs, ints, |x: u64| x as int);
    vstd::set_lib::lemma_len_subset(ints, all);
}

/// The load of servers that have room is compared by jobs per core.
proof fn lemma_loads<A>(s: SchedulerState<A>, i: int, j: int)
    requires
        s.wf(),
        0 <= i < s.servers.len(),
        0 <= j < s.servers.len(),
        has_room(s.servers[i]),
        has_room(s.servers[j]),
    ensures
        lighter(server_load(s.servers[i]), server_load(s.servers[j]))
            <==> s.servers[i].assigned.len() * s.servers[j].num_cpus < s.servers[j].assigned.len()
            * s.servers[i].num_cpus,
{
    lemma_room(s, i);
    lemma_room(s, j);
    lemma_jobs_fit(s.servers[i].assigned, s.job_count);
    lemma_jobs_fit(s.servers[j].assigned, s.job_count);
}

/// A job that is asked for is placed exactly if a server has room, under the next number
/// and with a server that is known.
pub proof fn law_when_a_job_is_placed<A>(s: SchedulerState<A>, now: u64)
    requires
        s.wf(),
    ensures
        s.placement(now) is Some <==> exists|i: int|
            0 <= i < s.servers.len() && (#[trigger] s.servers[i]).assigned.len()
                < s.servers[i].num_cpus + 1 + s.servers[i].num_cpus / 8,
        s.placement(now) matches Some((job, id)) ==> job == s.job_count && exists|i: int|
            0 <= i < s.servers.len() && (#[trigger] s.servers[i]).id == id,
{
    law_a_job_finds_a_server_if_one_has_room(s, now);
    assert forall|i: int| 0 <= i < s.servers.len() implies (has_room(#[trigger] s.servers[i])
        <==> s.servers[i].assigned.len() < s.servers[i].num_cpus + 1 + s.servers[i].num_cpus
        / 8) by {
        lemma_room(s, i);
    }
    if exists|i: int|
        0 <= i < s.servers.len() && (#[trigger] s.servers[i]).assigned.len()
            < s.servers[i].num_cpus + 1 + s.servers[i].num_cpus / 8 {
        let i = choose|i: int|
            0 <= i < s.servers.len() && (#[trigger] s.servers[i]).assigned.len()
                < s.servers[i].num_cpus + 1 + s.servers[i].num_cpus / 8;
        assert(has_room(s.servers[i]));
    }
    if let Some(i) = choice(s.servers, now) {
        law_the_chosen_server_is_best(s, now, i);
        assert(s.servers[i].id == s.servers[i].id);
    }
}

/// The server at place `i` that a job is placed with has room. If any server has room of
/// which no failure is remembered, the chosen one is such a server, and none of them has
/// fewer jobs per core; it is the first with that load.
pub proof fn law_where_a_job_is_placed<A>(s: SchedulerState<A>, now: u64, i: int)
    requires
        s.wf(),
        0 <= i < s.servers.len(),
        s.placement(now) matches Some((job, id)) && s.servers[i].id == id,
    ensures
        s.servers[i].assigned.len() < s.servers[i].num_cpus + 1 + s.servers[i].num_cpus / 8,
        forall|j: int|
            0 <= j < s.servers.len() && (#[trigger] s.servers[j]).last_error is None
                && s.servers[j].assigned.len() < s.servers[j].num_cpus + 1 + s.servers[j].num_cpus
                / 8 ==> {
                &&& s.servers[i].last_error is None
                &&& s.servers[i].assigned.len() * s.servers[j].num_cpus
                    <= s.servers[j].assigned.len() * s.servers[i].num_cpus
                &&& j < i ==> s.servers[i].assigned.len() * s.servers[j].num_cpus
                    < s.servers[j].assigned.len() * s.servers[i].num_cpus
            },
{
    let c = choice(s.servers, now)->0;
    law_the_chosen_server_is_best(s, now, c);
    assert(s.servers[c].id == s.servers[i].id);
    assert(c == i);
    lemma_room(s, i);
    assert forall|j: int|
        0 <= j < s.servers.len() && (#[trigger] s.servers[j]).last_error is None
            && s.servers[j].assigned.len() < s.servers[j].num_cpus + 1 + s.servers[j].num_cpus
            / 8 implies {
        &&& s.servers[i].last_error is None
        &&& s.servers[i].assigned.len() * s.servers[j].num_cpus <= s.servers[j].assigned.len()
            * s.servers[i].num_cpus
        &&& j < i ==> s.servers[i].assigned.len() * s.servers[j].num_cpus
            < s.servers[j].assigned.len() * s.servers[i].num_cpus
    } by {
        lemma_room(s, j);
        assert(healthy(s.servers[j]));
        assert(healthy(s.servers[i]));
        lemma_loads(s, j, i);
        lemma_loads(s, i, j);
        if j < i {
            lemma_chosen_is_lightest(s, now, i);
            assert(lighter(server_load(s.servers[i]), server_load(s.servers[j])));
        }
    }
}

/// A healthy server that is chosen is the lightest of those looked at, and the first.
proof fn lemma_chosen_is_lightest<A>(s: SchedulerState<A>, now: u64, i: int)
    requires
        choice(s.servers, now) == Some(i),
        healthy(s.servers[i]),
    ensures
        is_lightest(s.servers, looked_at(s.servers), i),
{
    let n = looked_at(s.servers);
    if !exists|c: int| is_lightest(s.servers, n, c) {
        assert(is_fallback(s.servers, n, now, i));
    }
}

/// Where no server has room of which no failure is remembered, a server that failed is
/// chosen. One whose failure is more than five minutes ago is chosen only if no server with
/// room follows it. Otherwise no server with room follows that failed earlier, or that long
/// ago, and between the chosen one and a server with room before it that did not fail later
/// there stands one whose failure is that long ago.
pub proof fn law_which_failed_server_is_chosen<A>(s: SchedulerState<A>, now: u64, i: int)
    requires
        s.wf(),
        0 <= i < s.servers.len(),
        s.placement(now) matches Some((job, id)) && s.servers[i].id == id,
        forall|j: int|
            0 <= j < s.servers.len() && (#[trigger] s.servers[j]).assigned.len()
                < s.servers[j].num_cpus + 1 + s.servers[j].num_cpus / 8
                ==> s.servers[j].last_error is Some,
    ensures
        s.servers[i].last_error is Some,
        now - s.servers[i].last_error->0 > 300_000_000_000 ==> forall|j: int|
            i < j < s.servers.len() ==> !((#[trigger] s.servers[j]).assigned.len()
                < s.servers[j].num_cpus + 1 + s.servers[j].num_cpus / 8),
        now - s.servers[i].last_error->0 <= 300_000_000_000 ==> {
            &&& forall|j: int|
                i < j < s.servers.len() && (#[trigger] s.servers[j]).assigned.len()
                    < s.servers[j].num_cpus + 1 + s.servers[j].num_cpus / 8
                    ==> s.servers[i].last_error->0 <= s.servers[j].last_error->0 && now
                    - s.servers[j].last_error->0 <= 300_000_000_000
            &&& forall|j: int|
                0 <= j < i && (#[trigger] s.servers[j]).assigned.len() < s.servers[j].num_cpus + 1
                    + s.servers[j].num_cpus / 8 && s.servers[j].last_error->0
                    <= s.servers[i].last_error->0 ==> exists|m: int|
                    j <= m < i && (#[trigger] s.servers[m]).assigned.len() < s.servers[m].num_cpus
                        + 1 + s.servers[m].num_cpus / 8 && now - s.servers[m].last_error->0
                        > 300_000_000_000
        },
{
    let c = choice(s.servers, now)->0;
    law_the_chosen_server_is_best(s, now, c);
    assert(s.servers[c].id == s.servers[i].id);
    assert(c == i);
    let servers = s.servers;
    assert forall|j: int| 0 <= j < servers.len() implies (has_room(#[trigger] servers[j])
        <==> servers[j].assigned.len() < servers[j].num_cpus + 1 + servers[j].num_cpus / 8) && !idle(
        servers[j],
    ) by {
        lemma_room(s, j);
    }
    lemma_looked_at(servers);
    let n = looked_at(servers);
    if n < servers.len() {
        assert(idle(servers[n - 1]));
    }
    assert(n == servers.len());
    assert forall|k: int| !is_lightest(servers, n, k) by {
        if 0 <= k < n {
            assert(!healthy(servers[k]));
        }
    }
    assert(is_fallback(servers, n, now, i));
    if now - servers[i].last_error->0 > 300_000_000_000 {
        assert(forgiven(servers[i], now));
        assert forall|j: int| i < j < servers.len() implies !((#[trigger] servers[j]).assigned.len()
            < servers[j].num_cpus + 1 + servers[j].num_cpus / 8) by {
            assert(!faulty(servers[j]));
        }
    } else {
        assert(!forgiven(servers[i], now));
        assert forall|j: int|
            i < j < servers.len() && (#[trigger] servers[j]).assigned.len() < servers[j].num_cpus
                + 1 + servers[j].num_cpus / 8 implies servers[i].last_error->0
            <= servers[j].last_error->0 && now - servers[j].last_error->0 <= 300_000_000_000 by {
            assert(faulty(servers[j]));
            assert(!forgiven(servers[j], now));
        }
        assert forall|j: int|
            0 <= j < i && (#[trigger] servers[j]).assigned.len() < servers[j].num_cpus + 1
                + servers[j].num_cpus / 8 && servers[j].last_error->0
                <= servers[i].last_error->0 implies exists|m: int|
            j <= m < i && (#[trigger] servers[m]).assigned.len() < servers[m].num_cpus + 1
                + servers[m].num_cpus / 8 && now - servers[m].last_error->0 > 300_000_000_000 by {
            assert(faulty(servers[j]));
            assert(!none_forgiven(servers, now, j, i));
            let m = choose|m: int| j <= m < i && forgiven(#[trigger] servers[m], now);
            assert(has_room(servers[m]));
            assert(now - servers[m].last_error->0 > 300_000_000_000);
        }
    }
}

/// A request that places a job with the server at place `i` uses up a number, and adds the
/// job to those of that server, unclaimed since `at`. On the way failures of more than five
/// minutes ago are forgotten of servers that have room, up to the first one that has nothing
/// to do and did not fail. Nothing else changes, and no number is used up if no server has
/// room.
pub proof fn law_what_a_request_does<A>(s: SchedulerState<A>, now: u64, at: u64)
    requires
        s.wf(),
        s.job_count < usize::MAX,
    ensures
        ({
            let t = s.requested(now, at);
            let new = s.job_count as u64;
            &&& t.jobs == s.jobs
            &&& t.job_count == if s.placement(now) is Some {
                s.job_count + 1
            } else {
                s.job_count as int
            }
            &&& t.servers.len() == s.servers.len()
            &&& forall|k: int|
                0 <= k < s.servers.len() ==> {
                    let (a, b) = (s.servers[k], #[trigger] t.servers[k]);
                    let chosen = s.placement(now) is Some && (s.placement(now)->0).1 == a.id;
                    &&& b.id == a.id && b.last_seen == a.last_seen && b.num_cpus == a.num_cpus
                        && b.nonce == a.nonce && b.authorizer == a.authorizer
                    &&& chosen ==> b.assigned == a.assigned.insert(new) && b.unclaimed
                        == a.unclaimed.insert(new, at)
                    &&& !chosen ==> b.assigned == a.assigned && b.unclaimed == a.unclaimed
                    &&& b.last_error == if a.last_error is Some && now - a.last_error->0
                        > 300_000_000_000 && a.assigned.len() < a.num_cpus + 1 + a.num_cpus / 8
                        && forall|j: int|
                        0 <= j < k ==> !((#[trigger] s.servers[j]).last_error is None
                            && s.servers[j].assigned.len() == 0) {
                        None
                    } else {
                        a.last_error
                    }
                }
        }),
{
    let servers = s.servers;
    let n = looked_at(servers);
    lemma_looked_at(servers);
    let w = walked(servers, n, now);
    let t = s.requested(now, at);
    if let Some(c) = choice(servers, now) {
        law_the_chosen_server_is_best(s, now, c);
    }
    assert forall|k: int| 0 <= k < servers.len() implies {
        let (a, b) = (servers[k], #[trigger] t.servers[k]);
        let chosen = s.placement(now) is Some && (s.placement(now)->0).1 == a.id;
        let new = s.job_count as u64;
        &&& b.id == a.id && b.last_seen == a.last_seen && b.num_cpus == a.num_cpus && b.nonce
            == a.nonce && b.authorizer == a.authorizer
        &&& chosen ==> b.assigned == a.assigned.insert(new) && b.unclaimed == a.unclaimed.insert(
            new,
            at,
        )
        &&& !chosen ==> b.assigned == a.assigned && b.unclaimed == a.unclaimed
        &&& b.last_error == if a.last_error is Some && now - a.last_error->0 > 300_000_000_000
            && a.assigned.len() < a.num_cpus + 1 + a.num_cpus / 8 && forall|j: int|
            0 <= j < k ==> !((#[trigger] s.servers[j]).last_error is None
                && s.servers[j].assigned.len() == 0) {
            None
        } else {
            a.last_error
        }
    } by {
        lemma_room(s, k);
        let a = servers[k];
        if s.placement(now) is Some {
            let c = choice(servers, now)->0;
            if servers[c].id == a.id {
                assert(servers[c].id == servers[k].id);
                assert(c == k);
            }
        }
        assert(w[k].last_error == t.servers[k].last_error);
        if k >= n {
            assert(is_first_idle(servers, n - 1));
            assert(idle(servers[n - 1]));
            assert(servers[n - 1].last_error is None && servers[n - 1].assigned.len() == 0);
        } else {
            assert forall|j: int| 0 <= j < k implies !((#[trigger] s.servers[j]).last_error is None
                && s.servers[j].assigned.len() == 0) by {
                if n < servers.len() || is_first_idle(servers, n - 1) {
                    assert(is_first_idle(servers, n - 1));
                    assert(!idle(servers[j]));
                } else {
                    if idle(servers[j]) {
                        lemma_first_idle(servers, j);
                    }
                }
            }
        }
    }
}

/// Where a server is idle, there is a first one, and the walk ends with it.
proof fn lemma_first_idle<A>(servers: Seq<ServerState<A>>, j: int)
    requires
        0 <= j < servers.len(),
        idle(servers[j]),
    ensures
        exists|i: int| is_first_idle(servers, i),
        is_first_idle(servers, looked_at(servers) - 1),
    decreases j,
{
    if forall|k: int| 0 <= k < j ==> !idle(#[trigger] servers[k]) {
        assert(is_first_idle(servers, j));
    } else {
        let k = choose|k: int| 0 <= k < j && idle(#[trigger] servers[k]);
        lemma_first_idle(servers, k);
    }
}

/// A job that a server takes is on record as its own, in the state it says, and nothing else
/// changes.
pub proof fn law_what_an_acceptance_does<A>(
    s: SchedulerState<A>,
    job: u64,
    id: ServerId,
    state: JobState,
)
    ensures
        ({
            let t = s.accepted(job, id, state);
            &&& t.jobs.contains_key(job)
            &&& t.jobs[job].server_id == id && t.jobs[job].state == state
            &&& forall|j: u64|
                j != job ==> (#[trigger] t.jobs.contains_key(j) <==> s.jobs.contains_key(j))
            &&& forall|j: u64|
                j != job && #[trigger] t.jobs.contains_key(j) ==> t.jobs[j] == s.jobs[j]
            &&& t.servers == s.servers
            &&& t.job_count == s.job_count
        }),
{
}

/// A job that a server fails to take is taken from it, and the failure is remembered;
/// nothing else changes, and nothing at all if the server is not known.
pub proof fn law_what_a_failure_does<A>(s: SchedulerState<A>, job: u64, id: ServerId, now: u64)
    requires
        s.wf(),
    ensures
        ({
            let (r, t) = (s.refuse_answer(job, id), s.refused(job, id, now));
            let known = exists|i: int| 0 <= i < s.servers.len() && (#[trigger] s.servers[i]).id == id;
            &&& r == AssignFailure::ServerNotKnown <==> !known
            &&& !known ==> t == s
            &&& t.jobs == s.jobs
            &&& t.job_count == s.job_count
            &&& t.servers.len() == s.servers.len()
            &&& forall|k: int|
                0 <= k < s.servers.len() ==> {
                    let (a, b) = (s.servers[k], #[trigger] t.servers[k]);
                    &&& a.id != id ==> b == a
                    &&& a.id == id ==> {
                        &&& r == AssignFailure::Unassigned <==> a.assigned.contains(job)
                        &&& r == AssignFailure::JobNotKnown <==> !a.assigned.contains(job)
                        &&& b.last_error == Some(now)
                        &&& !b.assigned.contains(job) && !b.unclaimed.contains_key(job)
                        &&& forall|j: u64|
                            j != job ==> (#[trigger] b.assigned.contains(j)
                                <==> a.assigned.contains(j))
                        &&& forall|j: u64|
                            j != job ==> (#[trigger] b.unclaimed.contains_key(j)
                                <==> a.unclaimed.contains_key(j))
                        &&& forall|j: u64| #[trigger]
                            b.unclaimed.contains_key(j) ==> b.unclaimed[j] == a.unclaimed[j]
                        &&& b.id == a.id && b.last_seen == a.last_seen && b.num_cpus == a.num_cpus
                            && b.nonce == a.nonce && b.authorizer == a.authorizer
                    }
                }
        }),
{
    let place = locate(s.servers, id);
    if place is Some {
        assert(is_at(s.servers, id, place->0));
        assert(s.servers[place->0].id == id);
    } else {
        assert forall|i: int| 0 <= i < s.servers.len() implies (#[trigger] s.servers[i]).id != id by {
            assert(!is_at(s.servers, id, i));
        }
    }
    let t = s.refused(job, id, now);
    assert forall|k: int| 0 <= k < s.servers.len() && (#[trigger] t.servers[k]).id
        == id implies place == Some(k) by {
        assert(s.servers[k].id == id);
        assert(is_at(s.servers, id, k));
        assert(s.servers[k].id == s.servers[place->0].id);
    }
}

/// A report is taken exactly if the job is on record as the server's and goes from pending to
/// ready, from ready to started or from started to complete, the last only if the server is
/// known. Every other report is turned down, and is told why.
pub proof fn law_what_a_report_is_answered<A>(
    s: SchedulerState<A>,
    job: u64,
    id: ServerId,
    to: JobState,
)
    ensures
        ({
            let r = s.update_answer(job, id, to);
            let on_record = s.jobs.contains_key(job);
            let own = on_record && s.jobs[job].server_id == id;
            let from = s.jobs[job].state;
            let next = (from is Pending && to is Ready) || (from is Ready && to is Started) || (
            from is Started && to is Complete);
            let known = exists|i: int| 0 <= i < s.servers.len() && (#[trigger] s.servers[i]).id == id;
            &&& r == Err::<UpdateJobStateResult, UpdateJobStateError>(
                UpdateJobStateError::UnknownJob,
            ) <==> !on_record
            &&& r == Err::<UpdateJobStateResult, UpdateJobStateError>(
                UpdateJobStateError::NotRegistered { job_id: JobId(job), server_id: id },
            ) <==> on_record && !own
            &&& r == Err::<UpdateJobStateResult, UpdateJobStateError>(
                UpdateJobStateError::InvalidTransition { from, to },
            ) <==> own && !next
            &&& r == Err::<UpdateJobStateResult, UpdateJobStateError>(
                UpdateJobStateError::ServerNotKnown,
            ) <==> own && next && to is Complete && !known
            &&& r == Ok::<UpdateJobStateResult, UpdateJobStateError>(UpdateJobStateResult::Success)
                <==> own && next && (known || !(to is Complete))
        }),
{
    lemma_located(s, id);
}

/// A server has a place exactly if it is known.
proof fn lemma_located<A>(s: SchedulerState<A>, id: ServerId)
    ensures
        locate(s.servers, id) is Some <==> exists|i: int|
            0 <= i < s.servers.len() && (#[trigger] s.servers[i]).id == id,
        locate(s.servers, id) is Some ==> 0 <= locate(s.servers, id)->0 < s.servers.len()
            && s.servers[locate(s.servers, id)->0].id == id,
{
    if exists|i: int| 0 <= i < s.servers.len() && (#[trigger] s.servers[i]).id == id {
        let i = choose|i: int| 0 <= i < s.servers.len() && (#[trigger] s.servers[i]).id == id;
        assert(is_at(s.servers, id, i));
    }
    if locate(s.servers, id) is Some {
        assert(is_at(s.servers, id, locate(s.servers, id)->0));
    }
}

/// A report that moves a job on is noted: the job is on record in its new state, or no longer
/// if it is complete. A job that becomes ready and is unclaimed waits from then on, one that is
/// started is not unclaimed any more, and one that is complete is not the server's any more.
/// A report on a job of the server shows that the server is alive. Nothing else changes.
pub proof fn law_what_a_report_does<A>(
    s: SchedulerState<A>,
    job: u64,
    id: ServerId,
    to: JobState,
    now: u64,
)
    requires
        s.wf(),
    ensures
        ({
            let t = s.updated(job, id, to, now);
            let own = s.jobs.contains_key(job) && s.jobs[job].server_id == id;
            let from = s.jobs[job].state;
            let moves = own && ((from is Pending && to is Ready) || (from is Ready && to is Started)
                || (from is Started && to is Complete));
            &&& t.job_count == s.job_count
            &&& forall|j: u64|
                j != job || !moves ==> (#[trigger] t.jobs.contains_key(j) <==> s.jobs.contains_key(j))
            &&& forall|j: u64|
                (j != job || !moves) && #[trigger] t.jobs.contains_key(j) ==> t.jobs[j] == s.jobs[j]
            &&& moves && to is Complete ==> !t.jobs.contains_key(job)
            &&& moves && !(to is Complete) ==> t.jobs.contains_key(job) && t.jobs[job].server_id
                == id && t.jobs[job].state == to
            &&& t.servers.len() == s.servers.len()
            &&& forall|k: int|
                0 <= k < s.servers.len() ==> {
                    let (a, b) = (s.servers[k], #[trigger] t.servers[k]);
                    &&& a.id != id || !own ==> b == a
                    &&& a.id == id && own ==> {
                        &&& b.last_seen == now
                        &&& b.id == a.id && b.last_error == a.last_error && b.num_cpus == a.num_cpus
                            && b.nonce == a.nonce && b.authorizer == a.authorizer
                        &&& forall|j: u64| #[trigger]
                            b.assigned.contains(j) <==> a.assigned.contains(j) && !(moves && to
                                is Complete && j == job)
                        &&& forall|j: u64| #[trigger]
                            b.unclaimed.contains_key(j) <==> a.unclaimed.contains_key(j) && !(moves
                                && to is Started && j == job)
                        &&& forall|j: u64| #[trigger]
                            b.unclaimed.contains_key(j) ==> b.unclaimed[j] == if moves && to
                                is Ready && j == job {
                                now
                            } else {
                                a.unclaimed[j]
                            }
                    }
                }
        }),
{
    lemma_located(s, id);
    let t = s.updated(job, id, to, now);
    assert forall|k: int| 0 <= k < s.servers.len() && s.servers[k].id == id implies locate(
        s.servers,
        id,
    ) == Some(k) by {
        let c = locate(s.servers, id)->0;
        assert(s.servers[k].id == s.servers[c].id);
    }
}

/// A report strays exactly if it says that a job is complete which is on record as started at
/// a known server that was not given it.
pub proof fn law_which_reports_stray<A>(s: SchedulerState<A>, job: u64, id: ServerId, to: JobState)
    requires
        s.wf(),
    ensures
        s.strays(job, id, to) <==> to is Complete && s.jobs.contains_key(job)
            && s.jobs[job].server_id == id && s.jobs[job].state is Started && exists|i: int|
            0 <= i < s.servers.len() && (#[trigger] s.servers[i]).id == id
                && !s.servers[i].assigned.contains(job),
{
    lemma_located(s, id);
    if exists|i: int|
        0 <= i < s.servers.len() && (#[trigger] s.servers[i]).id == id
            && !s.servers[i].assigned.contains(job) {
        let i = choose|i: int|
            0 <= i < s.servers.len() && (#[trigger] s.servers[i]).id == id
                && !s.servers[i].assigned.contains(job);
        let c = locate(s.servers, id)->0;
        assert(s.servers[i].id == s.servers[c].id);
    }
}

/// A request that finds no room is told how many servers there are.
pub proof fn law_what_a_full_scheduler_says(servers: nat)
    ensures
        capacity_text(servers).len() == "Insufficient capacity across "@.len() + decimal_text(
            servers,
        ).len() + " available servers"@.len(),
        capacity_text(servers) == "Insufficient capacity across "@ + decimal_text(servers)
            + " available servers"@,
{
}

/// The loads of servers with room are compared by their jobs per core, and a server that is
/// full weighs more than one that has room.
pub proof fn law_loads_are_jobs_per_core(
    jobs: nat,
    cores: usize,
    other_jobs: nat,
    other_cores: usize,
)
    requires
        cores > 0,
        other_cores > 0,
        jobs <= usize::MAX,
        other_jobs <= usize::MAX,
        jobs < cores + 1 + cores / 8,
    ensures
        other_jobs < other_cores + 1 + other_cores / 8 ==> (lighter(
            load_of(jobs, cores),
            load_of(other_jobs, other_cores),
        ) <==> jobs * other_cores < other_jobs * cores),
        other_jobs >= other_cores + 1 + other_cores / 8 ==> lighter(
            load_of(jobs, cores),
            load_of(other_jobs, other_cores),
        ),
{
    let (a, b) = (load_of(jobs, cores), load_of(other_jobs, other_cores));
    if other_jobs >= other_cores + 1 + other_cores / 8 {
        let (x, y) = (a.jobs as int, a.cores as int);
        assert(b.cores == 1 && b.jobs == 3);
        assert(x * 1 < 3 * y) by (nonlinear_arith)
            requires
                x < 3 * y,
        ;
        assert(a.jobs * b.cores == x * 1);
        assert(b.jobs * a.cores == 3 * y);
    }
}

} // verus!
