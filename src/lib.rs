//! Scheduling core of an elastic thread pool.
//!
//! The pool keeps a floor of worker threads alive, spawns extra workers when
//! a task arrives and nobody is listening, and lets the extra workers retire
//! after an idle window. This crate holds every decision of that scheme as a
//! verified state machine: the shared task queue, the active and waiting
//! counters, the dispatch rule for new tasks, the wait and exit policy of a
//! worker, and the shutdown signal. Threads, locks and clocks are left to the
//! caller, which performs each operation under one lock.
pub mod count;
pub mod pool;
pub mod laws;

pub use count::Count;
pub use pool::{Dispatch, Pool, Step, IDLE_EXIT_SECS};
