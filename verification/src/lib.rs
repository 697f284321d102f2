//! A small work pool: the bookkeeping of the manager that hands jobs to
//! workers, keeps a backlog and starts rescue threads for recursive jobs,
//! and the handle on which a job's result comes (its non-blocking wait).
pub mod fib;
pub mod job;
pub mod laws;
pub mod polling;
pub mod pool;
pub mod worker_set;

pub use job::Job;
pub use pool::{Assignment, Completion, Event, Pool, PoolStats, Reply};
pub use worker_set::WorkerSet;
