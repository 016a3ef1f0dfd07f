//! Batches: one or more oneshot operations that are submitted together,
//! linked into a chain that the kernel executes in order, and awaited as
//! one.
pub mod definition;
pub mod extension;
pub mod link;
pub mod single;

pub use definition::Batch;
pub use extension::BatchExt;
pub use link::{Link2, Link3, Link4, Link5};
pub use single::Single;
