//! The decision core of a distributed compile service.
//!
//! A scheduler hands compile jobs to workers, a worker keeps a ledger of the
//! jobs it was given, and a cache client asks a gateway for leave before it
//! touches a cached object. This crate holds the state and the rules of the
//! three. It does no input or output: clock readings, replies of other machines
//! and outcomes of file operations come in as plain arguments.
//!
//! Readings of the monotonic clock are nanoseconds since an origin that the
//! caller fixes once per process. Readings of the wall clock are milliseconds
//! since the Unix epoch.

pub mod auth;
pub mod dist;
pub mod json;
pub mod ledger;
pub mod ledger_laws;
pub mod load;
pub mod report;
pub mod run_job;
pub mod scheduler;
pub mod scheduler_laws;
pub mod scheduler_step_laws;
pub mod server;
pub mod settled_laws;
pub mod text;
pub mod touch;
pub mod touch_laws;
pub mod touch_step_laws;
pub mod upload;
pub mod worker_step_laws;
