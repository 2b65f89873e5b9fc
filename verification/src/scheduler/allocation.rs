//! Which server gets the next job.
//!
//! 1. `Scheduler::handle_alloc_job` picks a server and gives it a number.
//! 2. The caller issues a token with `Scheduler::authorizer` and asks the server to
//!    take the job.
//! 3. `Scheduler::assignment_accepted` or `Scheduler::assignment_failed` notes the
//!    answer.

use vstd::prelude::*;
use vstd::string::StringExecFns;

use crate::dist::{
    elapsed, elapsed_since, JobId, JobState, ServerId, SERVER_REMEMBER_ERROR_TIMEOUT,
};
use crate::load::{
    law_a_server_takes_jobs_up_to_its_limit, law_lighter_is_transitive, lighter, load_of,
    load_weight, max_load, LoadWeight,
};
use crate::scheduler::{
    lemma_update_wf, locate, JobDetail, Scheduler, SchedulerState, ServerState,
};
use crate::text::{decimal, decimal_text};

verus! {

broadcast use {
    vstd::std_specs::btree::group_btree_axioms,
    vstd::std_specs::hash::group_hash_axioms,
    vstd::laws_cmp::group_laws_cmp,
};

/// What comes of a request for a server.
#[derive(Debug, PartialEq, Eq)]
pub enum Allocation {
    /// The job has a number and a server, which has to be asked to take it.
    Assigned { job_id: JobId, server_id: ServerId },
    /// No server has room.
    Fail { msg: String },
}

/// The load of a server.
pub open spec fn server_load<A>(server: ServerState<A>) -> LoadWeight {
    load_of(server.assigned.len(), server.num_cpus)
}

/// Whether a server has room for one more job.
pub open spec fn has_room<A>(server: ServerState<A>) -> bool {
    lighter(server_load(server), max_load())
}

/// Whether a server has room, and no failure of it is remembered.
pub open spec fn healthy<A>(server: ServerState<A>) -> bool {
    server.last_error is None && has_room(server)
}

/// Whether a server has room, but a failure of it is remembered.
pub open spec fn faulty<A>(server: ServerState<A>) -> bool {
    server.last_error is Some && has_room(server)
}

/// Whether the failure of a server that has room is long enough ago.
pub open spec fn forgiven<A>(server: ServerState<A>, now: u64) -> bool {
    faulty(server) && elapsed(now, server.last_error->0) > SERVER_REMEMBER_ERROR_TIMEOUT
}

/// Whether a server has nothing to do, and no failure of it is remembered.
pub open spec fn idle<A>(server: ServerState<A>) -> bool {
    server.last_error is None && server.assigned.len() == 0
}

/// Whether the server at place `i` is the first idle one.
pub open spec fn is_first_idle<A>(servers: Seq<ServerState<A>>, i: int) -> bool {
    &&& 0 <= i < servers.len()
    &&& idle(servers[i])
    &&& forall|j: int| 0 <= j < i ==> !idle(#[trigger] servers[j])
}

/// How many servers are looked at: the walk ends with the first idle one.
pub open spec fn looked_at<A>(servers: Seq<ServerState<A>>) -> int {
    if exists|i: int| is_first_idle(servers, i) {
        (choose|i: int| is_first_idle(servers, i)) + 1
    } else {
        servers.len() as int
    }
}

/// Whether the server at place `i` is the healthy one with the lightest load among
/// the first `n`, and the first such.
pub open spec fn is_lightest<A>(servers: Seq<ServerState<A>>, n: int, i: int) -> bool {
    &&& 0 <= i < n
    &&& healthy(servers[i])
    &&& forall|j: int|
        0 <= j < n && healthy(#[trigger] servers[j]) ==> !lighter(
            server_load(servers[j]),
            server_load(servers[i]),
        )
    &&& forall|j: int|
        0 <= j < i && healthy(#[trigger] servers[j]) ==> lighter(
            server_load(servers[i]),
            server_load(servers[j]),
        )
}

/// Whether none of the faulty servers at places `from` to `to` is forgiven.
pub open spec fn none_forgiven<A>(
    servers: Seq<ServerState<A>>,
    now: u64,
    from: int,
    to: int,
) -> bool {
    forall|j: int| from <= j < to ==> !forgiven(#[trigger] servers[j], now)
}

/// Whether the server at place `i` is the one to fall back on among the first `n`:
/// the last forgiven one if no faulty one follows it; else, among the faulty ones
/// that follow the last forgiven one, the one that failed the longest ago, and the
/// first such.
pub open spec fn is_fallback<A>(servers: Seq<ServerState<A>>, n: int, now: u64, i: int) -> bool {
    &&& 0 <= i < n
    &&& faulty(servers[i])
    &&& if forgiven(servers[i], now) {
        forall|j: int| i < j < n ==> !faulty(#[trigger] servers[j])
    } else {
        &&& none_forgiven(servers, now, i, n)
        &&& forall|j: int|
            i < j < n && faulty(#[trigger] servers[j]) ==> servers[i].last_error->0
                <= servers[j].last_error->0
        &&& forall|j: int|
            0 <= j < i && faulty(#[trigger] servers[j]) && none_forgiven(servers, now, j, i)
                ==> servers[i].last_error->0 < servers[j].last_error->0
    }
}

/// The place of the server that gets the next job, if one has room.
pub open spec fn choice<A>(servers: Seq<ServerState<A>>, now: u64) -> Option<int> {
    let n = looked_at(servers);
    if exists|i: int| is_lightest(servers, n, i) {
        Some(choose|i: int| is_lightest(servers, n, i))
    } else if exists|i: int| is_fallback(servers, n, now, i) {
        Some(choose|i: int| is_fallback(servers, n, now, i))
    } else {
        None
    }
}

/// A server without its failure, if that is long enough ago.
pub open spec fn reconsidered<A>(server: ServerState<A>, now: u64) -> ServerState<A> {
    if forgiven(server, now) {
        ServerState { last_error: None, ..server }
    } else {
        server
    }
}

/// The servers after the first `n` were looked at.
pub open spec fn walked<A>(servers: Seq<ServerState<A>>, n: int, now: u64) -> Seq<ServerState<A>> {
    Seq::new(
        servers.len(),
        |i: int|
            if i < n {
                reconsidered(servers[i], now)
            } else {
                servers[i]
            },
    )
}

impl<A> ServerState<A> {
    /// The server with one more job, unclaimed since `at`.
    pub open spec fn given(self, job: u64, at: u64) -> ServerState<A> {
        ServerState {
            assigned: self.assigned.insert(job),
            unclaimed: self.unclaimed.insert(job, at),
            ..self
        }
    }

    /// The server after it failed to take `job`.
    pub open spec fn failed(self, job: u64, now: u64) -> ServerState<A> {
        ServerState {
            assigned: self.assigned.remove(job),
            unclaimed: self.unclaimed.remove(job),
            last_error: Some(now),
            ..self
        }
    }
}

impl<A> SchedulerState<A> {
    /// The records after the next job was given to the server at place `i`.
    pub open spec fn allocated(self, i: int, now: u64, at: u64) -> SchedulerState<A> {
        let servers = walked(self.servers, looked_at(self.servers), now);
        SchedulerState {
            job_count: (self.job_count + 1) as usize,
            servers: servers.update(i, servers[i].given(self.job_count as u64, at)),
            ..self
        }
    }
}

impl<A> SchedulerState<A> {
    /// The number and the server that the next job gets, if one has room.
    pub open spec fn placement(self, now: u64) -> Option<(u64, ServerId)> {
        match choice(self.servers, now) {
            Some(i) => Some((self.job_count as u64, self.servers[i].id)),
            None => None,
        }
    }

    /// The records after a job was asked for.
    pub open spec fn requested(self, now: u64, at: u64) -> SchedulerState<A> {
        match choice(self.servers, now) {
            Some(i) => self.allocated(i, now, at),
            None => SchedulerState {
                servers: walked(self.servers, looked_at(self.servers), now),
                ..self
            },
        }
    }

    /// The records after server `id` took `job`, which is in `state` there.
    pub open spec fn accepted(self, job: u64, id: ServerId, state: JobState) -> SchedulerState<A> {
        SchedulerState {
            jobs: self.jobs.insert(job, JobDetail { server_id: id, state }),
            ..self
        }
    }

    /// What it amounts to that server `id` did not take `job`.
    pub open spec fn refuse_answer(self, job: u64, id: ServerId) -> AssignFailure {
        match locate(self.servers, id) {
            Some(i) => if self.servers[i].assigned.contains(job) {
                AssignFailure::Unassigned
            } else {
                AssignFailure::JobNotKnown
            },
            None => AssignFailure::ServerNotKnown,
        }
    }

    /// The records after server `id` did not take `job`.
    pub open spec fn refused(self, job: u64, id: ServerId, now: u64) -> SchedulerState<A> {
        match locate(self.servers, id) {
            Some(i) => SchedulerState {
                servers: self.servers.update(i, self.servers[i].failed(job, now)),
                ..self
            },
            None => self,
        }
    }
}

/// What a request is answered when no server has room.
pub open spec fn capacity_text(servers: nat) -> Seq<char> {
    "Insufficient capacity across "@ + decimal_text(servers) + " available servers"@
}

/// What a request is answered when none of `servers` servers has room.
fn capacity_message(servers: usize) -> (r: String)
    ensures
        r@ == capacity_text(servers as nat),
{
    let mut text = "Insufficient capacity across ".to_owned();
    text.append(decimal(servers as u64).as_str());
    text.append(" available servers");
    text
}

/// There is at most one lightest healthy server.
proof fn lemma_lightest_unique<A>(servers: Seq<ServerState<A>>, n: int, a: int, b: int)
    requires
        is_lightest(servers, n, a),
        is_lightest(servers, n, b),
    ensures
        a == b,
{
    if a < b {
        assert(healthy(servers[a]) && healthy(servers[b]));
    }
    if b < a {
        assert(healthy(servers[a]) && healthy(servers[b]));
    }
}

/// There is at most one server to fall back on.
proof fn lemma_fallback_unique<A>(
    servers: Seq<ServerState<A>>,
    n: int,
    now: u64,
    a: int,
    b: int,
)
    requires
        is_fallback(servers, n, now, a),
        is_fallback(servers, n, now, b),
    ensures
        a == b,
{
    if a < b {
        lemma_fallback_order(servers, n, now, a, b);
    }
    if b < a {
        lemma_fallback_order(servers, n, now, b, a);
    }
}

/// No server to fall back on stands before another.
proof fn lemma_fallback_order<A>(servers: Seq<ServerState<A>>, n: int, now: u64, a: int, b: int)
    requires
        is_fallback(servers, n, now, a),
        a < b,
    ensures
        !is_fallback(servers, n, now, b),
{
    assert(faulty(servers[a]));
    if b < n && faulty(servers[b]) && !forgiven(servers[a], now) {
        assert(!forgiven(servers[b], now));
        assert(none_forgiven(servers, now, a, b));
    }
}

/// The healthy server with the lightest load among the first `k`, `best`, and the
/// server at place `k` give the one among the first `k + 1`.
pub(crate) proof fn lemma_lightest_step<A>(servers: Seq<ServerState<A>>, k: int, best: Option<int>)
    requires
        0 <= k < servers.len(),
        forall|j: int| 0 <= j < servers.len() ==> (#[trigger] servers[j]).num_cpus > 0,
        match best {
            Some(b) => is_lightest(servers, k, b),
            None => forall|j: int| 0 <= j < k ==> !healthy(#[trigger] servers[j]),
        },
    ensures
        ({
            let bound = match best {
                Some(b) => server_load(servers[b]),
                None => max_load(),
            };
            if servers[k].last_error is None && lighter(server_load(servers[k]), bound) {
                is_lightest(servers, k + 1, k)
            } else {
                match best {
                    Some(b) => is_lightest(servers, k + 1, b),
                    None => forall|j: int| 0 <= j < k + 1 ==> !healthy(#[trigger] servers[j]),
                }
            }
        }),
{
    let load = server_load(servers[k]);
    assert forall|j: int| 0 <= j < servers.len() implies server_load(
        #[trigger] servers[j],
    ).cores > 0 by {}
    match best {
        Some(b) => {
            let bound = server_load(servers[b]);
            if servers[k].last_error is None && lighter(load, bound) {
                assert(!lighter(max_load(), bound)) by {
                    if lighter(max_load(), bound) {
                        law_lighter_is_transitive(max_load(), bound, bound);
                        law_lighter_is_transitive(bound, max_load(), bound);
                    }
                }
                law_lighter_is_transitive(load, bound, max_load());
                assert(healthy(servers[k]));
                assert forall|j: int| 0 <= j < k && healthy(#[trigger] servers[j]) implies lighter(
                    load,
                    server_load(servers[j]),
                ) by {
                    law_lighter_is_transitive(load, bound, server_load(servers[j]));
                }
                assert forall|j: int|
                    0 <= j < k + 1 && healthy(#[trigger] servers[j]) implies !lighter(
                    server_load(servers[j]),
                    load,
                ) by {
                    if j < k {
                        assert(lighter(load, server_load(servers[j])));
                    }
                }
            }
        },
        None => {
            if servers[k].last_error is None && lighter(load, max_load()) {
                assert(healthy(servers[k]));
            }
        },
    }
}

/// The server to fall back on among the first `k`, `best`, and the server at place
/// `k` give the one among the first `k + 1`.
pub(crate) proof fn lemma_fallback_step<A>(
    servers: Seq<ServerState<A>>,
    k: int,
    now: u64,
    best: Option<int>,
)
    requires
        0 <= k < servers.len(),
        match best {
            Some(b) => is_fallback(servers, k, now, b),
            None => forall|j: int| 0 <= j < k ==> !faulty(#[trigger] servers[j]),
        },
    ensures
        if faulty(servers[k]) && (best is None || forgiven(servers[best->0], now)
            || servers[k].last_error->0 < servers[best->0].last_error->0) {
            is_fallback(servers, k + 1, now, k)
        } else {
            match best {
                Some(b) => is_fallback(servers, k + 1, now, b),
                None => forall|j: int| 0 <= j < k + 1 ==> !faulty(#[trigger] servers[j]),
            }
        },
{
    if let Some(b) = best {
        if faulty(servers[k]) {
            if forgiven(servers[b], now) {
                assert forall|j: int|
                    0 <= j < k && faulty(#[trigger] servers[j]) && none_forgiven(
                        servers,
                        now,
                        j,
                        k,
                    ) implies servers[k].last_error->0 < servers[j].last_error->0 by {
                    assert(j <= b);
                    assert(!forgiven(servers[b], now));
                }
            } else if servers[k].last_error->0 < servers[b].last_error->0 {
                assert forall|j: int|
                    0 <= j < k && faulty(#[trigger] servers[j]) && none_forgiven(
                        servers,
                        now,
                        j,
                        k,
                    ) implies servers[k].last_error->0 < servers[j].last_error->0 by {
                    if j < b {
                        assert(none_forgiven(servers, now, j, b));
                    }
                }
            } else {
                assert(!forgiven(servers[k], now));
            }
        }
    }
}

impl<A> Scheduler<A> {
    /// Picks the server for the next job, gives the job a number and notes it as
    /// assigned and unclaimed.
    ///
    /// A healthy server with the lightest load is preferred. Servers that failed
    /// are a fallback. Failures of servers with room are forgotten on the way once
    /// they are long enough ago.
    ///
    /// `now` and `assigned_at` are clock readings at the start of the walk and at
    /// the moment the job is noted.
    pub fn handle_alloc_job(&mut self, now: u64, assigned_at: u64) -> (r: Allocation)
        requires
            old(self)@.wf(),
            old(self)@.job_count < usize::MAX,
        ensures
            final(self)@.wf(),
            final(self)@ == old(self)@.requested(now, assigned_at),
            match old(self)@.placement(now) {
                Some((job, id)) => r == (Allocation::Assigned {
                    job_id: JobId(job),
                    server_id: id,
                }),
                None => r matches Allocation::Fail { msg } && msg@ == capacity_text(
                    old(self)@.servers.len(),
                ),
            },
            match choice(old(self)@.servers, now) {
                Some(i) => {
                    &&& 0 <= i < old(self)@.servers.len()
                    &&& r == (Allocation::Assigned {
                        job_id: JobId(old(self)@.job_count as u64),
                        server_id: old(self)@.servers[i].id,
                    })
                    &&& final(self)@ == old(self)@.allocated(i, now, assigned_at)
                },
                None => {
                    &&& r matches Allocation::Fail { msg } && msg@ == capacity_text(
                        old(self)@.servers.len(),
                    )
                    &&& final(self)@ == (SchedulerState {
                        servers: walked(
                            old(self)@.servers,
                            looked_at(old(self)@.servers),
                            now,
                        ),
                        ..old(self)@
                    })
                },
            },
    {
        let ghost s = self@.servers;
        let mut best: Option<usize> = None;
        let mut best_err: Option<usize> = None;
        let mut best_load = LoadWeight::max();
        let mut k: usize = 0;
        proof {
            assert(walked(s, 0, now) =~= s);
        }
        while k < self.servers.len()
            invariant_except_break
                forall|j: int| 0 <= j < k ==> !idle(#[trigger] s[j]),
                best_load.jobs > 0,
            invariant
                s == old(self)@.servers,
                old(self)@.wf(),
                self.job_count == old(self).job_count,
                self.jobs == old(self).jobs,
                0 <= k <= s.len(),
                self.servers.len() == s.len(),
                self@.servers == walked(s, k as int, now),
                best matches Some(b) ==> is_lightest(s, k as int, b as int) && best_load
                    == server_load(s[b as int]),
                best is None ==> best_load == max_load() && forall|j: int|
                    0 <= j < k ==> !healthy(#[trigger] s[j]),
                best_err matches Some(b) ==> is_fallback(s, k as int, now, b as int),
                best_err is None ==> forall|j: int| 0 <= j < k ==> !faulty(#[trigger] s[j]),
            ensures
                k == looked_at(s),
            decreases s.len() - k,
        {
            let ghost was = self@.servers;
            let ghost b0 = match best {
                Some(b) => Some(b as int),
                None => None,
            };
            let ghost e0 = match best_err {
                Some(b) => Some(b as int),
                None => None,
            };
            proof {
                assert(was[k as int] == s[k as int]);
                assert(s[k as int].wf(self.job_count));
                assert forall|j: int| 0 <= j < s.len() implies (#[trigger] s[j]).num_cpus > 0 by {
                    assert(s[j].wf(self.job_count));
                }
                lemma_lightest_step(s, k as int, b0);
                lemma_fallback_step(s, k as int, now, e0);
            }
            let load = load_weight(self.servers[k].jobs_assigned.len(), self.servers[k].num_cpus);
            proof {
                assert(load == server_load(s[k as int]));
                if load.jobs == 0 {
                    let (jobs, cores) = (best_load.jobs as int, load.cores as int);
                    assert(0 < jobs * cores) by (nonlinear_arith)
                        requires
                            jobs > 0,
                            cores > 0,
                    ;
                }
                if let Some(b) = best_err {
                    assert(self@.servers[b as int] == reconsidered(s[b as int], now));
                }
            }
            let mut done: bool = false;
            if let Some(last_error) = self.servers[k].last_error {
                if load.is_lighter_than(&LoadWeight::max()) {
                    if elapsed_since(now, last_error) > SERVER_REMEMBER_ERROR_TIMEOUT {
                        self.servers[k].last_error = None;
                    }
                    let better: bool = match best_err {
                        Some(b) => match self.servers[b].last_error {
                            Some(best_last_error) => last_error < best_last_error,
                            None => true,
                        },
                        None => true,
                    };
                    if better {
                        best_err = Some(k);
                    }
                }
            } else if load.is_lighter_than(&best_load) {
                best = Some(k);
                best_load = load;
                done = load.is_zero();
            }
            proof {
                assert(self@.servers.len() == was.len());
                assert(self@.servers[k as int] =~= reconsidered(s[k as int], now));
                let next = walked(s, k + 1, now);
                assert forall|j: int| 0 <= j < s.len() implies self@.servers[j]
                    == #[trigger] next[j] by {
                    if j != k {
                        assert(self@.servers[j] == was[j]);
                    }
                }
                assert(self@.servers =~= next);
            }
            k += 1;
            if done {
                proof {
                    assert(is_first_idle(s, k - 1));
                    let c = choose|c: int| is_first_idle(s, c);
                    assert(idle(s[c]));
                    assert(idle(s[k - 1]));
                }
                break;
            }
        }
        proof {
            if let Some(b) = best {
                let c = choose|c: int| is_lightest(s, k as int, c);
                lemma_lightest_unique(s, k as int, b as int, c);
            } else {
                assert forall|c: int| !is_lightest(s, k as int, c) by {
                    if 0 <= c < k {
                        assert(!healthy(s[c]));
                    }
                }
                if let Some(b) = best_err {
                    let c = choose|c: int| is_fallback(s, k as int, now, c);
                    lemma_fallback_unique(s, k as int, now, b as int, c);
                } else {
                    assert forall|c: int| !is_fallback(s, k as int, now, c) by {
                        if 0 <= c < k {
                            assert(!faulty(s[c]));
                        }
                    }
                }
            }
            lemma_walked_wf(old(self)@, k as int, now);
        }
        let chosen = match best {
            Some(b) => Some(b),
            None => best_err,
        };
        match chosen {
            Some(b) => {
                let job: u64 = self.job_count as u64;
                let ghost was = self@;
                proof {
                    assert(self.servers[b as int].jobs_assigned.len()
                        == s[b as int].assigned.len());
                }
                self.job_count = self.job_count + 1;
                self.servers[b].jobs_assigned.insert(job);
                self.servers[b].jobs_unclaimed.insert(job, assigned_at);
                proof {
                    let t = old(self)@.allocated(b as int, now, assigned_at);
                    assert(self.servers.len() == was.servers.len());
                    assert(self@.servers[b as int] =~= was.servers[b as int].given(
                        job,
                        assigned_at,
                    ));
                    assert(self@.servers =~= t.servers);
                    assert(self@ =~= t);
                    assert(was.servers[b as int].wf(was.job_count));
                    assert(was.servers[b as int].assigned == s[b as int].assigned);
                    law_a_server_takes_jobs_up_to_its_limit(
                        s[b as int].assigned.len(),
                        s[b as int].num_cpus,
                    );
                    lemma_update_wf(was, self@, b as int);
                }
                Allocation::Assigned { job_id: JobId(job), server_id: self.servers[b].server_id }
            },
            None => Allocation::Fail { msg: capacity_message(self.servers.len()) },
        }
    }
}

/// How an attempt to hand a job to a server came to nothing.
#[derive(Clone, Copy, Debug, PartialEq, Eq, Structural)]
pub enum AssignFailure {
    /// The server has been dropped meanwhile.
    ServerNotKnown,
    /// The server is known, but the job is not among those given to it.
    JobNotKnown,
    /// The job has been taken back from the server.
    Unassigned,
}

impl AssignFailure {
    /// The failure in words.
    pub open spec fn words(self) -> Seq<char> {
        match self {
            AssignFailure::ServerNotKnown => "assign job failed and server not known"@,
            AssignFailure::JobNotKnown => "assign job failed and job not known to the server"@,
            AssignFailure::Unassigned => "assign job failed, job un-assigned from the server"@,
        }
    }

    /// The failure in words.
    pub fn message(self) -> (r: &'static str)
        ensures
            r@ == self.words(),
            r@ == (match self {
                AssignFailure::ServerNotKnown => "assign job failed and server not known"@,
                AssignFailure::JobNotKnown => "assign job failed and job not known to the server"@,
                AssignFailure::Unassigned => "assign job failed, job un-assigned from the server"@,
            }),
    {
        match self {
            AssignFailure::ServerNotKnown => "assign job failed and server not known",
            AssignFailure::JobNotKnown => "assign job failed and job not known to the server",
            AssignFailure::Unassigned => "assign job failed, job un-assigned from the server",
        }
    }
}

impl<A> Scheduler<A> {
    /// What it takes to issue tokens for the jobs of server `server_id`, if that is
    /// known.
    pub fn authorizer(&self, server_id: ServerId) -> (r: Option<&A>)
        requires
            self@.wf(),
        ensures
            match self@.server_known(server_id) {
                Some(s) => r matches Some(a) && *a == s.authorizer,
                None => r is None,
            },
            match locate(self@.servers, server_id) {
                Some(i) => r matches Some(a) && *a == self@.servers[i].authorizer,
                None => r is None,
            },
    {
        match self.server(server_id) {
            Some(details) => Some(&details.job_authorizer),
            None => None,
        }
    }

    /// Whether job `job_id` is on record as taken by a server.
    pub fn has_job(&self, job_id: JobId) -> (r: bool)
        ensures
            r == self@.recorded(job_id.0) is Some,
            r == self@.jobs.contains_key(job_id.0),
    {
        self.jobs.contains_key(&job_id.0)
    }

    /// Notes that server `server_id` took job `job_id`, which is in `state` there.
    pub fn assignment_accepted(&mut self, job_id: JobId, server_id: ServerId, state: JobState)
        requires
            old(self)@.wf(),
            job_id.0 < old(self)@.job_count,
            !old(self)@.jobs.contains_key(job_id.0),
        ensures
            final(self)@.wf(),
            final(self)@ == old(self)@.accepted(job_id.0, server_id, state),
            final(self)@ == (SchedulerState {
                jobs: old(self)@.jobs.insert(job_id.0, JobDetail { server_id, state }),
                ..old(self)@
            }),
    {
        self.jobs.insert(job_id.0, JobDetail { server_id, state });
    }

    /// Notes that server `server_id` did not take job `job_id`: the job is taken
    /// back, and the failure is remembered.
    pub fn assignment_failed(&mut self, job_id: JobId, server_id: ServerId, now: u64) -> (r:
        AssignFailure)
        requires
            old(self)@.wf(),
        ensures
            final(self)@.wf(),
            r == old(self)@.refuse_answer(job_id.0, server_id),
            final(self)@ == old(self)@.refused(job_id.0, server_id, now),
            match locate(old(self)@.servers, server_id) {
                Some(i) => {
                    &&& r == (if old(self)@.servers[i].assigned.contains(job_id.0) {
                        AssignFailure::Unassigned
                    } else {
                        AssignFailure::JobNotKnown
                    })
                    &&& final(self)@ == (SchedulerState {
                        servers: old(self)@.servers.update(
                            i,
                            old(self)@.servers[i].failed(job_id.0, now),
                        ),
                        ..old(self)@
                    })
                },
                None => r == AssignFailure::ServerNotKnown && final(self)@ == old(self)@,
            },
    {
        match self.position(server_id) {
            Some(i) => {
                let ghost was = self@;
                proof {
                    assert(was.servers[i as int] == self.servers[i as int]@);
                    assert(was.servers[i as int].wf(was.job_count));
                }
                self.servers[i].last_error = Some(now);
                self.servers[i].jobs_unclaimed.remove(&job_id.0);
                let held: bool = self.servers[i].jobs_assigned.remove(&job_id.0);
                proof {
                    assert(self.servers.len() == was.servers.len());
                    let t = was.servers[i as int].failed(job_id.0, now);
                    assert(self@.servers[i as int] =~= t);
                    assert(self@.servers =~= was.servers.update(i as int, t));
                    lemma_update_wf(was, self@, i as int);
                }
                if held {
                    AssignFailure::Unassigned
                } else {
                    AssignFailure::JobNotKnown
                }
            },
            None => AssignFailure::ServerNotKnown,
        }
    }
}

/// Looking at servers leaves sound records.
pub(crate) proof fn lemma_walked_wf<A>(s: SchedulerState<A>, n: int, now: u64)
    requires
        s.wf(),
    ensures
        (SchedulerState { servers: walked(s.servers, n, now), ..s }).wf(),
{
    let t = walked(s.servers, n, now);
    assert forall|a: int, b: int|
        0 <= a < t.len() && 0 <= b < t.len() && (#[trigger] t[a]).id == (
        #[trigger] t[b]).id implies a == b by {
        assert(s.servers[a].id == s.servers[b].id);
    }
    assert forall|a: int| 0 <= a < t.len() implies (#[trigger] t[a]).wf(s.job_count) by {
        assert(s.servers[a].wf(s.job_count));
    }
}

} // verus!
