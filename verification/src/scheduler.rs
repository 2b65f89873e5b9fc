//! The scheduler's record of servers and jobs, and the rules that change it.
//!
//! The scheduler walks its servers in the order they are kept in. Which of two
//! equally good servers gets a job depends on that order; nothing else does.

use std::collections::{BTreeMap, HashMap, HashSet};
use vstd::prelude::*;
use vstd::std_specs::iter::IteratorSpec;

use crate::dist::{
    elapsed, elapsed_since, HeartbeatServerResult, JobId, JobState, ServerId, ServerNonce,
    UNCLAIMED_PENDING_TIMEOUT, UNCLAIMED_READY_TIMEOUT,
};
use crate::load::job_limit;

pub mod allocation;
pub mod job_state;
pub mod status;

verus! {

broadcast use {
    vstd::std_specs::btree::group_btree_axioms,
    vstd::std_specs::hash::group_hash_axioms,
    vstd::laws_cmp::group_laws_cmp,
};

/// Which server a job runs on, and how far it has come.
#[derive(Clone, Copy, Debug, PartialEq, Eq, Structural)]
pub struct JobDetail {
    pub server_id: ServerId,
    pub state: JobState,
}

/// A server that the scheduler knows. `A` is what it takes to issue tokens for
/// the jobs of the server.
#[derive(Debug)]
pub struct ServerDetails<A> {
    pub server_id: ServerId,
    /// The jobs given to the server that are not known to be over.
    pub jobs_assigned: HashSet<u64>,
    /// The jobs of the server that have not been started, with the time since
    /// when they wait.
    pub jobs_unclaimed: HashMap<u64, u64>,
    pub last_seen: u64,
    pub last_error: Option<u64>,
    pub num_cpus: usize,
    pub server_nonce: ServerNonce,
    pub job_authorizer: A,
}

/// The scheduler.
#[derive(Debug)]
pub struct Scheduler<A> {
    /// The number of the next job.
    job_count: usize,
    /// The jobs that a server has taken and that are not complete, by number.
    jobs: BTreeMap<u64, JobDetail>,
    /// The servers, in the order they are walked in.
    servers: Vec<ServerDetails<A>>,
}

/// What the scheduler knows of a server.
#[verifier::ext_equal]
pub struct ServerState<A> {
    pub id: ServerId,
    pub assigned: Set<u64>,
    pub unclaimed: Map<u64, u64>,
    pub last_seen: u64,
    pub last_error: Option<u64>,
    pub num_cpus: usize,
    pub nonce: ServerNonce,
    pub authorizer: A,
}

/// What the scheduler knows.
#[verifier::ext_equal]
pub struct SchedulerState<A> {
    pub job_count: usize,
    pub jobs: Map<u64, JobDetail>,
    pub servers: Seq<ServerState<A>>,
}

impl<A> View for ServerDetails<A> {
    type V = ServerState<A>;

    open spec fn view(&self) -> ServerState<A> {
        ServerState {
            id: self.server_id,
            assigned: self.jobs_assigned@,
            unclaimed: self.jobs_unclaimed@,
            last_seen: self.last_seen,
            last_error: self.last_error,
            num_cpus: self.num_cpus,
            nonce: self.server_nonce,
            authorizer: self.job_authorizer,
        }
    }
}

impl<A> View for Scheduler<A> {
    type V = SchedulerState<A>;

    closed spec fn view(&self) -> SchedulerState<A> {
        SchedulerState {
            job_count: self.job_count,
            jobs: self.jobs@,
            servers: self.servers@.map_values(|d: ServerDetails<A>| d@),
        }
    }
}

/// Whether the server at place `i` is `id`.
pub open spec fn is_at<A>(servers: Seq<ServerState<A>>, id: ServerId, i: int) -> bool {
    0 <= i < servers.len() && servers[i].id == id
}

/// The place of server `id`, if it is known.
pub open spec fn locate<A>(servers: Seq<ServerState<A>>, id: ServerId) -> Option<int> {
    if exists|i: int| is_at(servers, id, i) {
        Some(choose|i: int| is_at(servers, id, i))
    } else {
        None
    }
}

/// Whether no server is kept twice.
pub open spec fn distinct<A>(servers: Seq<ServerState<A>>) -> bool {
    forall|i: int, j: int|
        0 <= i < servers.len() && 0 <= j < servers.len() && (#[trigger] servers[i]).id == (
        #[trigger] servers[j]).id ==> i == j
}

/// Whether a server has been silent for longer than `timeout`.
pub open spec fn dead<A>(server: ServerState<A>, now: u64, timeout: u64) -> bool {
    elapsed(now, server.last_seen) > timeout
}

/// The jobs that were given to servers which are dead now.
pub open spec fn orphans<A>(servers: Seq<ServerState<A>>, now: u64, timeout: u64) -> Set<u64> {
    Set::new(
        |job: u64|
            exists|i: int|
                0 <= i < servers.len() && dead(#[trigger] servers[i], now, timeout)
                    && servers[i].assigned.contains(job),
    )
}

/// Whether a job that has been unclaimed since `since` is given up: it has waited
/// for too long in its state, or no server has taken it.
pub open spec fn given_up(jobs: Map<u64, JobDetail>, job: u64, since: u64, now: u64) -> bool {
    &&& elapsed(now, since) >= UNCLAIMED_READY_TIMEOUT
    &&& jobs.contains_key(job) ==> match jobs[job].state {
        JobState::Ready => true,
        JobState::Pending => elapsed(now, since) > UNCLAIMED_PENDING_TIMEOUT,
        _ => false,
    }
}

/// The jobs of a server that are given up.
pub open spec fn stale<A>(jobs: Map<u64, JobDetail>, server: ServerState<A>, now: u64) -> Set<u64> {
    server.unclaimed.dom().filter(|job: u64| given_up(jobs, job, server.unclaimed[job], now))
}

/// The cores of all servers together.
pub open spec fn total_cpus<A>(servers: Seq<ServerState<A>>) -> nat
    decreases servers.len(),
{
    if servers.len() == 0 {
        0
    } else {
        total_cpus(servers.drop_last()) + servers.last().num_cpus as nat
    }
}

impl<A> ServerState<A> {
    /// Whether the record of a server is sound: it has a core, finitely many jobs
    /// that all have numbers below `job_count`, and no more than it may run.
    pub open spec fn wf(self, job_count: usize) -> bool {
        &&& self.num_cpus > 0
        &&& self.assigned.finite()
        &&& self.assigned.len() <= job_limit(self.num_cpus)
        &&& forall|job: u64| #[trigger] self.assigned.contains(job) ==> job < job_count
        &&& forall|job: u64| #[trigger] self.unclaimed.contains_key(job) ==> job < job_count
    }

    /// The server without the jobs in `gone`, last seen at `now`.
    pub open spec fn relieved(self, gone: Set<u64>, now: u64) -> ServerState<A> {
        ServerState {
            assigned: self.assigned.difference(gone),
            unclaimed: self.unclaimed.remove_keys(gone),
            last_seen: now,
            ..self
        }
    }
}

/// A server that has just registered.
pub open spec fn registered<A>(
    id: ServerId,
    nonce: ServerNonce,
    num_cpus: usize,
    authorizer: A,
    now: u64,
) -> ServerState<A> {
    ServerState {
        id,
        assigned: Set::empty(),
        unclaimed: Map::empty(),
        last_seen: now,
        last_error: None,
        num_cpus,
        nonce,
        authorizer,
    }
}

/// The records of a scheduler that knows no server and no job.
pub open spec fn initial<A>() -> SchedulerState<A> {
    SchedulerState { job_count: 0, jobs: Map::empty(), servers: Seq::empty() }
}

impl<A> SchedulerState<A> {
    /// Whether the records are sound: no server is kept twice, the record of each is
    /// sound, and no job has a number that was not given out yet.
    pub open spec fn wf(self) -> bool {
        &&& distinct(self.servers)
        &&& forall|job: u64| #[trigger] self.jobs.contains_key(job) ==> job < self.job_count
        &&& forall|i: int|
            0 <= i < self.servers.len() ==> (#[trigger] self.servers[i]).wf(self.job_count)
    }

    /// What is on record of job `id`.
    pub open spec fn recorded(self, id: u64) -> Option<JobDetail> {
        if self.jobs.contains_key(id) {
            Some(self.jobs[id])
        } else {
            None
        }
    }

    /// What is known of server `id`.
    pub open spec fn server_known(self, id: ServerId) -> Option<ServerState<A>> {
        match locate(self.servers, id) {
            Some(i) => Some(self.servers[i]),
            None => None,
        }
    }

    /// The records after dead servers were dropped, and with them their jobs.
    pub open spec fn pruned(self, now: u64, timeout: u64) -> SchedulerState<A> {
        SchedulerState {
            jobs: self.jobs.remove_keys(orphans(self.servers, now, timeout)),
            servers: self.servers.filter(|s: ServerState<A>| !dead(s, now, timeout)),
            ..self
        }
    }

    /// The records after a sign of life of the server at place `i`: jobs that are
    /// given up are taken from it.
    pub open spec fn heard_from(self, i: int, now: u64) -> SchedulerState<A> {
        let gone = stale(self.jobs, self.servers[i], now);
        SchedulerState {
            jobs: self.jobs.remove_keys(gone),
            servers: self.servers.update(i, self.servers[i].relieved(gone, now)),
            ..self
        }
    }

    /// The records after a server registered that was not known, or that was
    /// started anew: the jobs it had before are lost.
    pub open spec fn with_server(self, server: ServerState<A>) -> SchedulerState<A> {
        match locate(self.servers, server.id) {
            Some(i) => SchedulerState {
                jobs: self.jobs.remove_keys(self.servers[i].assigned),
                servers: self.servers.update(i, server),
                ..self
            },
            None => SchedulerState { servers: self.servers.push(server), ..self },
        }
    }
}

impl<A> SchedulerState<A> {
    /// What a heartbeat is answered.
    pub open spec fn heartbeat_answer(
        self,
        id: ServerId,
        nonce: ServerNonce,
        num_cpus: usize,
        pruned_at: u64,
        timeout: u64,
    ) -> Result<HeartbeatServerResult, HeartbeatError> {
        let pruned = self.pruned(pruned_at, timeout);
        let place = locate(pruned.servers, id);
        if num_cpus == 0 {
            Err(HeartbeatError::NoCpus)
        } else {
            Ok(
                HeartbeatServerResult {
                    is_new: !(place is Some && pruned.servers[place->0].nonce == nonce),
                },
            )
        }
    }

    /// The records after a heartbeat.
    pub open spec fn heartbeat(
        self,
        id: ServerId,
        nonce: ServerNonce,
        num_cpus: usize,
        authorizer: A,
        pruned_at: u64,
        now: u64,
        timeout: u64,
    ) -> SchedulerState<A> {
        let pruned = self.pruned(pruned_at, timeout);
        let place = locate(pruned.servers, id);
        if num_cpus == 0 {
            self
        } else if place is Some && pruned.servers[place->0].nonce == nonce {
            pruned.heard_from(place->0, now)
        } else {
            pruned.with_server(registered(id, nonce, num_cpus, authorizer, now))
        }
    }
}

/// Takes all of `gone` out of `jobs`.
fn forget_jobs(jobs: &mut BTreeMap<u64, JobDetail>, gone: &HashSet<u64>)
    ensures
        final(jobs)@ == old(jobs)@.remove_keys(gone@),
{
    let ghost keys = vstd::std_specs::hash::spec_hash_keys_iter(gone).remaining().unref();
    for job in it: gone.iter()
        invariant
            it.seq().unref() == keys,
            jobs@ == old(jobs)@.remove_keys(keys.take(it.index()).to_set()),
    {
        jobs.remove(job);
        proof {
            let i = it.index();
            assert(keys[i] == *job);
            assert(keys.take(i + 1) =~= keys.take(i).push(*job));
            keys.take(i).lemma_push_to_set_commute(*job);
            assert(jobs@ =~= old(jobs)@.remove_keys(keys.take(i + 1).to_set()));
        }
    }
    proof {
        assert(keys.take(keys.len() as int) =~= keys);
    }
}

impl<A> Scheduler<A> {
    /// A scheduler that knows no server and no job.
    pub fn new() -> (r: Scheduler<A>)
        ensures
            r@ == initial::<A>(),
            r@.wf(),
    {
        let r = Scheduler { job_count: 0, jobs: BTreeMap::new(), servers: Vec::new() };
        proof {
            assert(r@.servers =~= Seq::<ServerState<A>>::empty());
        }
        r
    }

    /// The number of the next job.
    pub fn job_count(&self) -> (r: usize)
        ensures
            r == self@.job_count,
    {
        self.job_count
    }

    /// Which server job `job_id` runs on and how far it has come, if it is on record.
    pub fn job(&self, job_id: JobId) -> (r: Option<JobDetail>)
        ensures
            r == self@.recorded(job_id.0),
            r == (if self@.jobs.contains_key(job_id.0) {
                Some(self@.jobs[job_id.0])
            } else {
                None
            }),
    {
        match self.jobs.get(&job_id.0) {
            Some(detail) => Some(*detail),
            None => None,
        }
    }

    /// What is known of server `server_id`, if it is known at all. Only the methods of
    /// the scheduler change it.
    pub fn server(&self, server_id: ServerId) -> (r: Option<&ServerDetails<A>>)
        requires
            self@.wf(),
        ensures
            match self@.server_known(server_id) {
                Some(s) => r matches Some(details) && details@ == s,
                None => r is None,
            },
            match locate(self@.servers, server_id) {
                Some(i) => r matches Some(details) && details@ == self@.servers[i],
                None => r is None,
            },
    {
        match self.position(server_id) {
            Some(i) => Some(&self.servers[i]),
            None => None,
        }
    }

    /// The place of server `id`, if it is known.
    fn position(&self, id: ServerId) -> (r: Option<usize>)
        requires
            distinct(self@.servers),
        ensures
            match r {
                Some(i) => i < self.servers.len() && locate(self@.servers, id) == Some(i as int),
                None => locate(self@.servers, id) is None,
            },
    {
        let mut i: usize = 0;
        while i < self.servers.len()
            invariant
                i <= self.servers.len(),
                distinct(self@.servers),
                forall|j: int| 0 <= j < i ==> (#[trigger] self@.servers[j]).id != id,
            decreases self.servers.len() - i,
        {
            if self.servers[i].server_id == id {
                proof {
                    assert(self@.servers[i as int].id == id);
                    assert(is_at(self@.servers, id, i as int));
                    let c = choose|c: int| is_at(self@.servers, id, c);
                    assert(self@.servers[c].id == self@.servers[i as int].id);
                }
                return Some(i);
            }
            proof {
                assert(self@.servers[i as int].id != id);
            }
            i += 1;
        }
        None
    }

    /// Drops the servers that have been silent for longer than `timeout`, and the
    /// jobs that were given to them.
    pub fn prune_servers(&mut self, now: u64, timeout: u64)
        ensures
            final(self)@ == old(self)@.pruned(now, timeout),
    {
        let ghost s = self@.servers;
        let ghost alive = |x: ServerState<A>| !dead(x, now, timeout);
        let ghost mut k: int = 0;
        let mut i: usize = 0;
        proof {
            assert(s.take(0).filter(alive) + s.skip(0) =~= s) by {
                assert(s.take(0) =~= Seq::<ServerState<A>>::empty());
                assert(s.skip(0) =~= s);
                reveal_with_fuel(Seq::filter, 1);
            }
            assert(orphans(s.take(0), now, timeout) =~= Set::<u64>::empty());
            assert(self.jobs@ =~= self.jobs@.remove_keys(Set::<u64>::empty()));
        }
        while i < self.servers.len()
            invariant
                s == old(self)@.servers,
                alive == (|x: ServerState<A>| !dead(x, now, timeout)),
                0 <= k <= s.len(),
                i <= self.servers.len(),
                self.job_count == old(self).job_count,
                i == s.take(k).filter(alive).len(),
                self@.servers == s.take(k).filter(alive) + s.skip(k),
                self.jobs@ == old(self).jobs@.remove_keys(orphans(s.take(k), now, timeout)),
            decreases self.servers.len() - i,
        {
            let ghost before = self@.servers;
            let ghost kept = s.take(k).filter(alive);
            proof {
                assert(before[i as int] == s[k]);
                assert(s.take(k + 1) =~= s.take(k).push(s[k]));
                s.take(k).lemma_filter_push(s[k], alive);
                assert(s.skip(k) =~= seq![s[k]] + s.skip(k + 1));
            }
            if elapsed_since(now, self.servers[i].last_seen) > timeout {
                let server = self.servers.remove(i);
                forget_jobs(&mut self.jobs, &server.jobs_assigned);
                proof {
                    assert(server@ == s[k]);
                    assert(self@.servers =~= before.remove(i as int));
                    assert(self@.servers =~= kept + s.skip(k + 1));
                    lemma_orphans_step(s, k, now, timeout);
                    assert(self.jobs@ =~= old(self).jobs@.remove_keys(
                        orphans(s.take(k + 1), now, timeout),
                    ));
                }
            } else {
                i += 1;
                proof {
                    lemma_orphans_step(s, k, now, timeout);
                    assert(self@.servers =~= kept.push(s[k]) + s.skip(k + 1));
                }
            }
            proof {
                k = k + 1;
            }
        }
        proof {
            assert(k == s.len()) by {
                assert(self@.servers.len() == i + s.skip(k).len());
            }
            assert(s.take(k) =~= s);
            assert(s.skip(k) =~= Seq::<ServerState<A>>::empty());
            assert(self@.servers =~= s.filter(alive));
        }
    }
}

impl<A> Default for Scheduler<A> {
    /// A scheduler that knows no server and no job.
    fn default() -> (r: Self)
        ensures
            r@ == initial::<A>(),
            r@.wf(),
    {
        Scheduler::new()
    }
}

/// Why a heartbeat is turned down.
#[derive(Clone, Copy, Debug, PartialEq, Eq, Structural)]
pub enum HeartbeatError {
    /// The server claims to have no core.
    NoCpus,
}

/// The jobs of a server that are given up.
fn find_stale<A>(jobs: &BTreeMap<u64, JobDetail>, server: &ServerDetails<A>, now: u64) -> (r: Vec<
    u64,
>)
    ensures
        r@.to_set() == stale(jobs@, server@, now),
{
    let mut found: Vec<u64> = Vec::new();
    let ghost gone = stale(jobs@, server@, now);
    let ghost pairs = vstd::std_specs::hash::spec_hash_map_iter(&server.jobs_unclaimed).remaining();
    for (job, since) in it: server.jobs_unclaimed.iter()
        invariant
            gone == stale(jobs@, server@, now),
            pairs == vstd::std_specs::hash::spec_hash_map_iter(&server.jobs_unclaimed).remaining(),
            it.seq() == pairs,
            forall|i: int| 0 <= i < found@.len() ==> gone.contains(#[trigger] found@[i]),
            forall|j: int|
                0 <= j < it.index() && gone.contains(*(#[trigger] pairs[j]).0) ==> found@.contains(
                    *pairs[j].0,
                ),
    {
        let ghost before = found@;
        proof {
            assert(server.jobs_unclaimed@.contains_key(*pairs[it.index()].0));
            assert(server.jobs_unclaimed@[*pairs[it.index()].0] == *pairs[it.index()].1);
        }
        let waited: u64 = elapsed_since(now, *since);
        if waited >= UNCLAIMED_READY_TIMEOUT {
            let give_up: bool = match jobs.get(job) {
                Some(detail) => match detail.state {
                    JobState::Ready => true,
                    JobState::Pending => waited > UNCLAIMED_PENDING_TIMEOUT,
                    _ => false,
                },
                None => true,
            };
            if give_up {
                found.push(*job);
            }
        }
        proof {
            assert forall|j: int|
                0 <= j < it.index() + 1 && gone.contains(
                    *(#[trigger] pairs[j]).0,
                ) implies found@.contains(*pairs[j].0) by {
                if j < it.index() {
                    let k = choose|k: int| 0 <= k < before.len() && before[k] == *pairs[j].0;
                    assert(found@[k] == before[k]);
                } else {
                    assert(found@.last() == *job);
                }
            }
        }
    }
    proof {
        assert forall|job: u64| gone.contains(job) implies found@.contains(job) by {
            let since = server.jobs_unclaimed@[job];
            assert(pairs.contains((&job, &since)));
            let j = choose|j: int| 0 <= j < pairs.len() && pairs[j] == (&job, &since);
            assert(*pairs[j].0 == job);
        }
        assert(found@.to_set() =~= gone);
    }
    found
}

impl<A> Scheduler<A> {
    /// Takes the jobs that are given up from the server at place `i`, which was
    /// just heard from.
    fn hear_from(&mut self, i: usize, now: u64)
        requires
            i < old(self).servers.len(),
        ensures
            final(self)@ == old(self)@.heard_from(i as int, now),
    {
        let found = find_stale(&self.jobs, &self.servers[i], now);
        let ghost gone = found@.to_set();
        let ghost was = self@;
        self.servers[i].last_seen = now;
        let mut n: usize = 0;
        proof {
            let none = found@.take(0).to_set();
            assert(none =~= Set::<u64>::empty());
            assert(self.jobs@ =~= was.jobs.remove_keys(none));
            let server = was.servers[i as int];
            assert(server.assigned.difference(none) =~= server.assigned);
            assert(server.unclaimed.remove_keys(none) =~= server.unclaimed);
            assert(self@.servers =~= was.servers.update(i as int, server.relieved(none, now)));
        }
        while n < found.len()
            invariant
                n <= found.len(),
                i < self.servers.len(),
                was == old(self)@,
                i < was.servers.len(),
                self.job_count == was.job_count,
                self.jobs@ == was.jobs.remove_keys(found@.take(n as int).to_set()),
                self@.servers == was.servers.update(
                    i as int,
                    was.servers[i as int].relieved(found@.take(n as int).to_set(), now),
                ),
            decreases found.len() - n,
        {
            let job: u64 = found[n];
            let ghost mid = self@.servers;
            self.servers[i].jobs_assigned.remove(&job);
            self.servers[i].jobs_unclaimed.remove(&job);
            self.jobs.remove(&job);
            proof {
                let prev = found@.take(n as int).to_set();
                let next = found@.take(n + 1).to_set();
                assert(found@.take(n + 1) =~= found@.take(n as int).push(job));
                found@.take(n as int).lemma_push_to_set_commute(job);
                assert(self.jobs@ =~= was.jobs.remove_keys(next));
                let server = was.servers[i as int];
                assert(mid[i as int] == server.relieved(prev, now));
                assert(self@.servers[i as int].assigned =~= server.assigned.difference(next));
                assert(self@.servers[i as int].unclaimed =~= server.unclaimed.remove_keys(next));
                assert(self@.servers[i as int] =~= server.relieved(next, now));
                let want = was.servers.update(i as int, server.relieved(next, now));
                assert(mid.len() == want.len());
                assert(self.servers.len() == mid.len());
                assert(self@.servers.len() == want.len());
                assert forall|j: int| 0 <= j < want.len() implies self@.servers[j]
                    == #[trigger] want[j] by {
                    if j != i {
                        assert(self@.servers[j] == mid[j]);
                        assert(mid[j] == was.servers[j]);
                        assert(want[j] == was.servers[j]);
                    }
                }
                assert(self@.servers =~= want);
            }
            n += 1;
        }
        proof {
            assert(found@.take(n as int) =~= found@);
        }
    }

    /// Notes a heartbeat. A server that is not known, or that was started anew, is
    /// registered; one that is known is relieved of the jobs that are given up.
    /// Silent servers are dropped first.
    ///
    /// `pruned_at` and `now` are clock readings at the start of the call and after
    /// silent servers were dropped.
    pub fn handle_heartbeat_server(
        &mut self,
        server_id: ServerId,
        server_nonce: ServerNonce,
        num_cpus: usize,
        job_authorizer: A,
        pruned_at: u64,
        now: u64,
        heartbeat_timeout: u64,
    ) -> (r: Result<HeartbeatServerResult, HeartbeatError>)
        requires
            old(self)@.wf(),
        ensures
            final(self)@.wf(),
            r == old(self)@.heartbeat_answer(
                server_id,
                server_nonce,
                num_cpus,
                pruned_at,
                heartbeat_timeout,
            ),
            final(self)@ == old(self)@.heartbeat(
                server_id,
                server_nonce,
                num_cpus,
                job_authorizer,
                pruned_at,
                now,
                heartbeat_timeout,
            ),
            ({
                let pruned = old(self)@.pruned(pruned_at, heartbeat_timeout);
                let place = locate(pruned.servers, server_id);
                if num_cpus == 0 {
                    &&& r == Err::<HeartbeatServerResult, HeartbeatError>(HeartbeatError::NoCpus)
                    &&& final(self)@ == old(self)@
                } else if place is Some && pruned.servers[place->0].nonce == server_nonce {
                    &&& r == Ok::<HeartbeatServerResult, HeartbeatError>(
                        HeartbeatServerResult { is_new: false },
                    )
                    &&& final(self)@ == pruned.heard_from(place->0, now)
                } else {
                    &&& r == Ok::<HeartbeatServerResult, HeartbeatError>(
                        HeartbeatServerResult { is_new: true },
                    )
                    &&& final(self)@ == pruned.with_server(
                        registered(server_id, server_nonce, num_cpus, job_authorizer, now),
                    )
                }
            }),
    {
        if num_cpus == 0 {
            return Err(HeartbeatError::NoCpus);
        }
        self.prune_servers(pruned_at, heartbeat_timeout);
        let ghost pruned = self@;
        proof {
            lemma_pruned_wf(old(self)@, pruned_at, heartbeat_timeout);
        }
        let place = self.position(server_id);
        if let Some(i) = place {
            if self.servers[i].server_nonce == server_nonce {
                proof {
                    lemma_heard_from_wf(pruned, i as int, now);
                }
                self.hear_from(i, now);
                return Ok(HeartbeatServerResult { is_new: false });
            }
        }
        let server = ServerDetails {
            server_id,
            jobs_assigned: HashSet::new(),
            jobs_unclaimed: HashMap::new(),
            last_seen: now,
            last_error: None,
            num_cpus,
            server_nonce,
            job_authorizer,
        };
        let ghost new = registered(server_id, server_nonce, num_cpus, job_authorizer, now);
        assert(server@ =~= new);
        match place {
            Some(i) => {
                forget_jobs(&mut self.jobs, &self.servers[i].jobs_assigned);
                self.servers.set(i, server);
                proof {
                    assert(self@.servers =~= pruned.servers.update(i as int, new));
                }
            },
            None => {
                self.servers.push(server);
                proof {
                    assert(self@.servers =~= pruned.servers.push(new));
                }
            },
        }
        proof {
            assert(self@ =~= pruned.with_server(new));
            lemma_with_server_wf(pruned, new);
        }
        Ok(HeartbeatServerResult { is_new: true })
    }
}

/// What is kept of distinct servers is distinct, and was there before.
proof fn lemma_filter_distinct<A>(s: Seq<ServerState<A>>, p: spec_fn(ServerState<A>) -> bool)
    requires
        distinct(s),
    ensures
        distinct(s.filter(p)),
        forall|i: int|
            0 <= i < s.filter(p).len() ==> p(#[trigger] s.filter(p)[i]) && s.contains(
                s.filter(p)[i],
            ),
    decreases s.len(),
{
    if s.len() == 0 {
        assert(s.filter(p) =~= s) by {
            reveal(Seq::filter);
        }
    } else {
        let init = s.drop_last();
        let last = s.last();
        assert forall|i: int, j: int|
            0 <= i < init.len() && 0 <= j < init.len() && (#[trigger] init[i]).id == (
            #[trigger] init[j]).id implies i == j by {
            assert(s[i].id == s[j].id);
        }
        lemma_filter_distinct(init, p);
        assert(s =~= init.push(last));
        init.lemma_filter_push(last, p);
        let f = init.filter(p);
        let g = s.filter(p);
        assert forall|i: int| 0 <= i < g.len() implies p(#[trigger] g[i]) && s.contains(g[i]) by {
            if i < f.len() {
                assert(g[i] == f[i]);
                let k = choose|k: int| 0 <= k < init.len() && init[k] == f[i];
                assert(s[k] == g[i]);
            } else {
                assert(s[s.len() - 1] == g[i]);
            }
        }
        assert forall|i: int, j: int|
            0 <= i < g.len() && 0 <= j < g.len() && (#[trigger] g[i]).id == (
            #[trigger] g[j]).id implies i == j by {
            if i < f.len() && j < f.len() {
                assert(f[i].id == f[j].id);
            } else if i < f.len() {
                assert(init.contains(f[i]));
                let k = choose|k: int| 0 <= k < init.len() && init[k] == f[i];
                assert(s[k].id == s[s.len() - 1].id);
            } else if j < f.len() {
                assert(init.contains(f[j]));
                let k = choose|k: int| 0 <= k < init.len() && init[k] == f[j];
                assert(s[k].id == s[s.len() - 1].id);
            }
        }
    }
}

/// Dropping dead servers leaves sound records.
pub(crate) proof fn lemma_pruned_wf<A>(s: SchedulerState<A>, now: u64, timeout: u64)
    requires
        s.wf(),
    ensures
        s.pruned(now, timeout).wf(),
{
    lemma_filter_distinct(s.servers, |x: ServerState<A>| !dead(x, now, timeout));
    let kept = s.pruned(now, timeout).servers;
    assert forall|i: int| 0 <= i < kept.len() implies (#[trigger] kept[i]).wf(s.job_count) by {
        assert(s.servers.contains(kept[i]));
    }
}

/// Relieving a server leaves sound records.
pub(crate) proof fn lemma_heard_from_wf<A>(s: SchedulerState<A>, i: int, now: u64)
    requires
        s.wf(),
        0 <= i < s.servers.len(),
    ensures
        s.heard_from(i, now).wf(),
{
    let gone = stale(s.jobs, s.servers[i], now);
    let was = s.servers[i];
    let t = s.heard_from(i, now);
    assert(was.wf(s.job_count));
    vstd::set_lib::lemma_len_subset(was.assigned.difference(gone), was.assigned);
    lemma_update_wf(s, t, i);
}

/// Records stay sound when one server is replaced by a sound record of it.
pub(crate) proof fn lemma_update_wf<A>(s: SchedulerState<A>, t: SchedulerState<A>, i: int)
    requires
        s.wf(),
        0 <= i < s.servers.len(),
        t.servers == s.servers.update(i, t.servers[i]),
        t.servers[i].id == s.servers[i].id,
        t.servers[i].wf(t.job_count),
        s.job_count <= t.job_count,
        forall|job: u64| #[trigger] t.jobs.contains_key(job) ==> job < t.job_count,
    ensures
        t.wf(),
{
    assert forall|a: int, b: int|
        0 <= a < t.servers.len() && 0 <= b < t.servers.len() && (#[trigger] t.servers[a]).id == (
        #[trigger] t.servers[b]).id implies a == b by {
        assert(s.servers[a].id == s.servers[b].id);
    }
    assert forall|a: int| 0 <= a < t.servers.len() implies (#[trigger] t.servers[a]).wf(
        t.job_count,
    ) by {
        if a != i {
            assert(s.servers[a].wf(s.job_count));
        }
    }
}

/// Registering a server leaves sound records.
pub(crate) proof fn lemma_with_server_wf<A>(s: SchedulerState<A>, server: ServerState<A>)
    requires
        s.wf(),
        server.wf(s.job_count),
    ensures
        s.with_server(server).wf(),
{
    let t = s.with_server(server);
    match locate(s.servers, server.id) {
        Some(i) => {
            assert(is_at(s.servers, server.id, i));
            lemma_update_wf(s, t, i);
        },
        None => {
            assert forall|a: int, b: int|
                0 <= a < t.servers.len() && 0 <= b < t.servers.len() && (
                #[trigger] t.servers[a]).id == (#[trigger] t.servers[b]).id implies a == b by {
                let n = s.servers.len() as int;
                if a < n && b < n {
                    assert(s.servers[a].id == s.servers[b].id);
                } else if a < n {
                    assert(!is_at(s.servers, server.id, a));
                } else if b < n {
                    assert(!is_at(s.servers, server.id, b));
                }
            }
            assert forall|a: int| 0 <= a < t.servers.len() implies (#[trigger] t.servers[a]).wf(
                t.job_count,
            ) by {
                if a < s.servers.len() {
                    assert(s.servers[a].wf(s.job_count));
                }
            }
        },
    }
}

/// The jobs of the first `k + 1` servers that are dead are those of the first `k`,
/// and those of the next if it is dead.
proof fn lemma_orphans_step<A>(s: Seq<ServerState<A>>, k: int, now: u64, timeout: u64)
    requires
        0 <= k < s.len(),
    ensures
        orphans(s.take(k + 1), now, timeout) == if dead(s[k], now, timeout) {
            orphans(s.take(k), now, timeout).union(s[k].assigned)
        } else {
            orphans(s.take(k), now, timeout)
        },
{
    let (a, b) = (s.take(k), s.take(k + 1));
    assert forall|job: u64|
        orphans(b, now, timeout).contains(job) == (orphans(a, now, timeout).contains(job) || (dead(
            s[k],
            now,
            timeout,
        ) && s[k].assigned.contains(job))) by {
        if orphans(a, now, timeout).contains(job) {
            let i = choose|i: int|
                0 <= i < a.len() && dead(#[trigger] a[i], now, timeout) && a[i].assigned.contains(
                    job,
                );
            assert(b[i] == a[i]);
        }
        if dead(s[k], now, timeout) && s[k].assigned.contains(job) {
            assert(b[k] == s[k]);
        }
        if orphans(b, now, timeout).contains(job) {
            let i = choose|i: int|
                0 <= i < b.len() && dead(#[trigger] b[i], now, timeout) && b[i].assigned.contains(
                    job,
                );
            if i < k {
                assert(a[i] == b[i]);
            }
        }
    }
    assert(orphans(b, now, timeout) =~= if dead(s[k], now, timeout) {
        orphans(a, now, timeout).union(s[k].assigned)
    } else {
        orphans(a, now, timeout)
    });
}

} // verus!
