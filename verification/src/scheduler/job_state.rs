//! How the scheduler follows a job through its life.

use vstd::prelude::*;

use crate::dist::{JobId, JobState, ServerId, UpdateJobStateResult};
use crate::scheduler::{
    lemma_update_wf, locate, JobDetail, Scheduler, SchedulerState, ServerState,
};

verus! {

broadcast use {
    vstd::std_specs::btree::group_btree_axioms,
    vstd::std_specs::hash::group_hash_axioms,
    vstd::laws_cmp::group_laws_cmp,
};

/// Why a report on a job is turned down.
#[derive(Clone, Copy, Debug, PartialEq, Eq, Structural)]
pub enum UpdateJobStateError {
    UnknownJob,
    /// The job is another server's.
    NotRegistered { job_id: JobId, server_id: ServerId },
    /// A job in state `from` cannot go to state `to`.
    InvalidTransition { from: JobState, to: JobState },
    /// The job was finished by a server that is no longer known.
    ServerNotKnown,
}

/// Whether a job can go from state `from` to state `to`.
pub open spec fn next_state(from: JobState, to: JobState) -> bool {
    match from {
        JobState::Pending => to is Ready,
        JobState::Ready => to is Started,
        JobState::Started => to is Complete,
        JobState::Complete => false,
    }
}

impl<A> ServerState<A> {
    /// The server after it reported at `now` that `job` is in state `to`. The grace
    /// period of a ready job starts when its toolchain has arrived.
    pub open spec fn reported(self, job: u64, to: JobState, now: u64) -> ServerState<A> {
        ServerState {
            last_seen: now,
            assigned: if to is Complete {
                self.assigned.remove(job)
            } else {
                self.assigned
            },
            unclaimed: if to is Ready && self.unclaimed.contains_key(job) {
                self.unclaimed.insert(job, now)
            } else if to is Started {
                self.unclaimed.remove(job)
            } else {
                self.unclaimed
            },
            ..self
        }
    }
}

impl<A> SchedulerState<A> {
    /// What a report of server `id` that `job` is in state `to` is answered.
    pub open spec fn update_answer(self, job: u64, id: ServerId, to: JobState) -> Result<
        UpdateJobStateResult,
        UpdateJobStateError,
    > {
        if !self.jobs.contains_key(job) {
            Err(UpdateJobStateError::UnknownJob)
        } else if self.jobs[job].server_id != id {
            Err(UpdateJobStateError::NotRegistered { job_id: JobId(job), server_id: id })
        } else if !next_state(self.jobs[job].state, to) {
            Err(UpdateJobStateError::InvalidTransition { from: self.jobs[job].state, to })
        } else if to is Complete && locate(self.servers, id) is None {
            Err(UpdateJobStateError::ServerNotKnown)
        } else {
            Ok(UpdateJobStateResult::Success)
        }
    }

    /// The jobs after server `id` reported that `job` is in state `to`. One that is
    /// complete is no longer kept.
    pub open spec fn jobs_updated(self, job: u64, id: ServerId, to: JobState) -> Map<
        u64,
        JobDetail,
    > {
        if !(self.jobs.contains_key(job) && self.jobs[job].server_id == id) || !next_state(
            self.jobs[job].state,
            to,
        ) {
            self.jobs
        } else if to is Complete {
            self.jobs.remove(job)
        } else {
            self.jobs.insert(job, JobDetail { server_id: id, state: to })
        }
    }

    /// The records after server `id` reported at `now` that `job` is in state `to`.
    /// A report on a job of the server is a sign of life, even if it is turned down.
    pub open spec fn updated(self, job: u64, id: ServerId, to: JobState, now: u64) -> SchedulerState<
        A,
    > {
        let place = locate(self.servers, id);
        SchedulerState {
            jobs: self.jobs_updated(job, id, to),
            servers: if place is None || !(self.jobs.contains_key(job) && self.jobs[job].server_id
                == id) {
                self.servers
            } else if next_state(self.jobs[job].state, to) {
                self.servers.update(place->0, self.servers[place->0].reported(job, to, now))
            } else {
                self.servers.update(
                    place->0,
                    ServerState { last_seen: now, ..self.servers[place->0] },
                )
            },
            ..self
        }
    }

    /// Whether a report of server `id` that `job` is in state `to` finishes a job
    /// that the server is known for but was not given.
    pub open spec fn strays(self, job: u64, id: ServerId, to: JobState) -> bool {
        &&& self.jobs.contains_key(job)
        &&& self.jobs[job].server_id == id
        &&& self.jobs[job].state is Started
        &&& to is Complete
        &&& locate(self.servers, id) is Some
        &&& !self.servers[locate(self.servers, id)->0].assigned.contains(job)
    }
}

impl<A> Scheduler<A> {
    /// Whether a report of server `server_id` that job `job_id` is in state
    /// `job_state` finishes a job that the server is known for but was not given.
    /// `handle_update_job_state` does not take such a report.
    pub fn is_stray_report(&self, job_id: JobId, server_id: ServerId, job_state: JobState) -> (r:
        bool)
        requires
            self@.wf(),
        ensures
            r == self@.strays(job_id.0, server_id, job_state),
    {
        match self.jobs.get(&job_id.0) {
            Some(detail) => if detail.server_id == server_id && detail.state == JobState::Started
                && job_state == JobState::Complete {
                match self.position(server_id) {
                    Some(i) => {
                        proof {
                            assert(self@.servers[i as int] == self.servers[i as int]@);
                        }
                        !self.servers[i].jobs_assigned.contains(&job_id.0)
                    },
                    None => false,
                }
            } else {
                false
            },
            None => false,
        }
    }

    /// Notes that server `server_id` reported at `now` that job `job_id` is in state
    /// `job_state`.
    pub fn handle_update_job_state(
        &mut self,
        job_id: JobId,
        server_id: ServerId,
        job_state: JobState,
        now: u64,
    ) -> (r: Result<UpdateJobStateResult, UpdateJobStateError>)
        requires
            old(self)@.wf(),
            !old(self)@.strays(job_id.0, server_id, job_state),
        ensures
            final(self)@.wf(),
            r == old(self)@.update_answer(job_id.0, server_id, job_state),
            final(self)@ == old(self)@.updated(job_id.0, server_id, job_state, now),
    {
        let job: u64 = job_id.0;
        let detail: JobDetail = match self.jobs.get(&job) {
            Some(detail) => *detail,
            None => {
                return Err(UpdateJobStateError::UnknownJob);
            },
        };
        if detail.server_id != server_id {
            return Err(UpdateJobStateError::NotRegistered { job_id, server_id });
        }
        let place = self.position(server_id);
        let ghost was = self@;
        if let Some(i) = place {
            proof {
                assert(was.servers[i as int] == self.servers[i as int]@);
                assert(was.servers[i as int].wf(was.job_count));
            }
            self.servers[i].last_seen = now;
        }
        let r = match (detail.state, job_state) {
            (JobState::Pending, JobState::Ready) => {
                self.jobs.insert(job, JobDetail { server_id, state: job_state });
                if let Some(i) = place {
                    if self.servers[i].jobs_unclaimed.contains_key(&job) {
                        self.servers[i].jobs_unclaimed.insert(job, now);
                    }
                }
                Ok(UpdateJobStateResult::Success)
            },
            (JobState::Ready, JobState::Started) => {
                if let Some(i) = place {
                    self.servers[i].jobs_unclaimed.remove(&job);
                }
                self.jobs.insert(job, JobDetail { server_id, state: job_state });
                Ok(UpdateJobStateResult::Success)
            },
            (JobState::Started, JobState::Complete) => {
                self.jobs.remove(&job);
                match place {
                    Some(i) => {
                        self.servers[i].jobs_assigned.remove(&job);
                        Ok(UpdateJobStateResult::Success)
                    },
                    None => Err(UpdateJobStateError::ServerNotKnown),
                }
            },
            (from, to) => Err(UpdateJobStateError::InvalidTransition { from, to }),
        };
        proof {
            let t = was.updated(job, server_id, job_state, now);
            assert(self.jobs@ =~= t.jobs);
            if let Some(i) = place {
                assert(self.servers.len() == was.servers.len());
                assert(self@.servers[i as int] =~= t.servers[i as int]);
                assert(self@.servers =~= t.servers);
                lemma_update_wf(was, t, i as int);
            }
            assert(self@ =~= t);
        }
        r
    }
}

} // verus!
