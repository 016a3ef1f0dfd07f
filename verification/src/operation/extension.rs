//! Helper methods for operations.
use crate::batch::link::Link2;
use crate::batch::single::Single;
use crate::operation::definition::{Oneshot, Operation};
use crate::operation::wrapper::MapOutput;
use vstd::prelude::*;

verus! {

/// Helper methods that every operation has.
pub trait OperationExt {
    /// Link the operation to another, which the kernel starts once this
    /// one has completed.
    fn link_with<T>(self, another: T) -> (link: Link2<Self, T>) where
        Self: Oneshot + Sized,
        T: Oneshot,

        ensures
            link.first().inner() == self,
            link.first().stashed().is_none(),
            link.second().inner() == another,
            link.second().stashed().is_none(),
    {
        Link2::new(self, another)
    }

    /// Make a batch of the one operation.
    fn into_batch(self) -> (single: Single<Self>) where Self: Oneshot + Sized
        ensures
            single.operation() == self,
    {
        Single::new(self)
    }

    /// Transform the output with a function.
    fn map_output<F>(self, function: F) -> (mapped: MapOutput<Self, F>) where
        Self: Operation + Sized,

        ensures
            mapped.inner() == self,
            mapped.transform() == function,
    {
        MapOutput::new(self, function)
    }
}

impl<O> OperationExt for O {

}

} // verus!
