//! The core of a fixed-size worker pool.
//!
//! A pool accepts jobs from any number of producers, hands each job to
//! exactly one of a fixed set of workers, and shuts down in order: the
//! channel is closed, the workers finish what was accepted and leave, and
//! the pool collects them one by one.
//!
//! This crate holds the pool's decisions and nothing that blocks. A
//! [`ThreadPool`] is a state machine: producers, worker threads and teardown
//! report to it what happens, under a lock of the caller's, and it answers
//! what is to be done. Its contracts are stated over [`PoolView`], which
//! also keeps the history of every job, and [`laws`] proves what holds of
//! every pool: that each accepted job runs exactly once, in the order of
//! acceptance, and that teardown ends with every worker collected.

pub mod channel;
pub mod error;
pub mod laws;
pub mod model;
pub mod pool;
pub mod worker;

pub use channel::{ChannelView, JobChannel, TryRecvError};
pub use error::PoolCreationError;
pub use model::{Event, PoolState, PoolView};
pub use pool::{Directive, ThreadPool};
pub use worker::{Worker, WorkerStatus};
