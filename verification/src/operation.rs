//! The protocol between an operation and the reactor, the operations that
//! need nothing but the kernel interface, and wrappers around operations.
pub mod definition;
pub mod extension;
pub mod general;
pub mod synchronization;
pub mod wrapper;

pub use definition::{Oneshot, Operation};
pub use extension::OperationExt;
pub use general::{LinkTimeout, Nop};
pub use synchronization::{FutexWait, FutexWake};
pub use wrapper::{MapOutput, StashOutput};
