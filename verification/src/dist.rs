//! The vocabulary that scheduler and workers share.

use vstd::prelude::*;

verus! {

/// Nanoseconds in one millisecond.
pub const NANOS_PER_MILLI: u64 = 1_000_000;

/// How long a server that failed to take a job is avoided, in nanoseconds.
pub const SERVER_REMEMBER_ERROR_TIMEOUT: u64 = 300_000_000_000;

/// How long a pending job may wait for its toolchain, in nanoseconds.
pub const UNCLAIMED_PENDING_TIMEOUT: u64 = 300_000_000_000;

/// How long a ready job may wait to be started, in nanoseconds.
pub const UNCLAIMED_READY_TIMEOUT: u64 = 60_000_000_000;

/// The number that identifies one job.
#[derive(Clone, Copy, Debug, PartialEq, Eq, PartialOrd, Ord, Hash, Structural)]
pub struct JobId(pub u64);

/// A server, named by the socket address it listens on.
#[derive(Clone, Copy, Debug, PartialEq, Eq, Hash, Structural)]
pub enum ServerId {
    V4 { ip: u32, port: u16 },
    V6 { ipv6: u128, port: u16, flowinfo: u32, scope_id: u32 },
}

/// A number drawn when a server process starts. It tells a restarted server from
/// the one that ran before at the same address.
#[derive(Clone, Copy, Debug, PartialEq, Eq, Hash, Structural)]
pub struct ServerNonce(pub u64);

/// A packaged compiler, named by the digest of its archive.
#[derive(Clone, Debug, PartialEq, Eq)]
pub struct Toolchain {
    pub archive_id: String,
}

impl Toolchain {
    /// A second value that names the same archive.
    pub fn duplicate(&self) -> (r: Toolchain)
        ensures
            r == *self,
    {
        Toolchain { archive_id: self.archive_id.clone() }
    }
}

/// Where a job stands in its life.
#[derive(Clone, Copy, Debug, PartialEq, Eq, Hash, Structural)]
pub enum JobState {
    Pending,
    Ready,
    Started,
    Complete,
}

/// What a worker answers when it takes a job.
#[derive(Clone, Copy, Debug, PartialEq, Eq, Structural)]
pub struct AssignJobResult {
    pub state: JobState,
    pub need_toolchain: bool,
}

/// What a worker answers to an upload of a toolchain.
#[derive(Clone, Copy, Debug, PartialEq, Eq, Structural)]
pub enum SubmitToolchainResult {
    Success,
    JobNotFound,
    CannotCache,
}

/// What a scheduler answers to a report on a job.
#[derive(Clone, Debug, PartialEq, Eq)]
pub enum UpdateJobStateResult {
    Success,
    Fail { msg: String },
}

/// What a scheduler answers to a heartbeat.
#[derive(Clone, Copy, Debug, PartialEq, Eq, Structural)]
pub struct HeartbeatServerResult {
    pub is_new: bool,
}

/// The totals that a scheduler reports.
#[derive(Clone, Copy, Debug, PartialEq, Eq, Structural)]
pub struct SchedulerStatusResult {
    pub num_servers: usize,
    pub num_cpus: usize,
    pub in_progress: usize,
}

/// The state of a job in a worker's snapshot.
#[derive(Clone, Copy, Debug, PartialEq, Eq, Structural)]
pub enum WorkerJobSnapshotState {
    Pending,
    Ready,
    Started,
}

/// One job in a worker's snapshot.
#[derive(Clone, Copy, Debug, PartialEq, Eq, Structural)]
pub struct WorkerJobSnapshot {
    pub job_id: JobId,
    pub state: WorkerJobSnapshotState,
    pub unclaimed_for_ms: u64,
}

/// Everything that a worker is busy with, for a scheduler that has lost track.
#[derive(Clone, Debug, PartialEq, Eq)]
pub struct ServerWorkSnapshot {
    pub version: u32,
    pub server_nonce: ServerNonce,
    pub next_job_id: u64,
    pub jobs: Vec<WorkerJobSnapshot>,
}

/// Time from `since` to `now`, zero if `since` is the later of the two.
pub open spec fn elapsed(now: u64, since: u64) -> int {
    if since <= now {
        now - since
    } else {
        0
    }
}

/// Nanoseconds from `since` to `now`, zero if `since` is the later of the two.
pub fn elapsed_since(now: u64, since: u64) -> (r: u64)
    ensures
        r == elapsed(now, since),
        since <= now ==> r == now - since,
        since > now ==> r == 0,
{
    if since <= now {
        now - since
    } else {
        0
    }
}

/// Whole milliseconds from `since` to `now`, zero if `since` is the later of the
/// two.
pub fn unclaimed_ms(now: u64, since: u64) -> (r: u64)
    ensures
        r == elapsed(now, since) / (NANOS_PER_MILLI as int),
        since <= now ==> r * 1_000_000 <= now - since < (r + 1) * 1_000_000,
        since > now ==> r == 0,
{
    elapsed_since(now, since) / NANOS_PER_MILLI
}

} // verus!
