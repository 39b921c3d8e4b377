//! A fixed-size worker pool, as a sequential core with proved invariants.
//!
//! The pool is a state machine: it decides which worker slot to start next,
//! which job a worker runs next, when a worker must wait or exit, and in what
//! order workers are joined at shutdown. Threads, locks and blocking are the
//! caller's: it performs what the pool decides and reports back what happened.

pub mod counting;
pub mod error;
pub mod http;
pub mod laws;
pub mod model;
pub mod pool;
pub mod preserved;
pub mod shutdown;
pub mod worker;

pub use crate::error::ThreadPoolError;
pub use crate::pool::ThreadPool;
