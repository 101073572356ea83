//! A fixed-size worker pool: a shared FIFO of work, the workers that drain it,
//! and the shutdown that stops and joins them.
//!
//! The library holds the pool's rules as plain state machines. Threads, locks
//! and sockets are the caller's: the caller spawns one thread per worker,
//! shares the queue behind a lock, and reports to the library what happened.

pub mod census;
pub mod echo;
pub mod laws;
pub mod operation;
pub mod pool;
pub mod queue;
pub mod system;
pub mod worker;
