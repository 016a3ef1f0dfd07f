//! Verified core of a completion-based I/O reactor for `io_uring`.
//!
//! The crate keeps the bookkeeping of a reactor, the protocol between an
//! operation and the reactor, and the batching of linked operations, and
//! proves their contracts. Talking to the kernel is left to the caller:
//! the reactor hands out the entries that are to be pushed to the
//! submission ring and takes the completions that were read from the
//! completion ring.
pub mod adapter;
pub mod batch;
pub mod entry;
pub mod future;
pub mod laws;
pub mod model;
pub mod operation;
pub mod reactor;
pub mod slots;
pub mod staging;
pub mod state;
pub mod synchronization;
pub mod wake;

pub use entry::{Completion, Errno};
