//! What an executor of futures decides: which task is polled when, what becomes of a task that
//! has been polled, and what the one who waits for it is told. Polling itself, and everything else
//! that takes more than one thread or unsafe code, is left to the program around it.

pub mod channel;
pub mod config;
pub mod executor;
pub mod guard;
pub mod inner;
pub mod join;
pub mod laws;
pub mod lists;
pub mod local;
pub mod oneshot;
pub mod queue;
pub mod run_queue;
pub mod slot_queue;
pub mod slots;
pub mod state;
pub mod task;
