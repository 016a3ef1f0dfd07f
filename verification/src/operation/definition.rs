//! What an operation is: the contract between an operation and whoever
//! submits it.
use crate::entry::Completion;
use crate::state::Allocations;
use io_uring::squeue::Entry;
use vstd::prelude::*;

verus! {

/// One operation of the kernel interface, as a value.
///
/// The entry that `build_submission` makes may point into the operation's
/// parameters. The kernel reads them, and may write them, until it has
/// reported the operation's last completion. An implementation has to keep
/// them valid that long: parameters that live on the heap are handed out
/// by `take_required_allocations` when the operation is given up, so that
/// they outlive the operation value.
pub trait Operation {
    /// What the operation produces in the end.
    type Output;

    /// What the operation's own methods rely on. An implementation says
    /// here what has to hold of a value before they are called, and keeps
    /// it true. Unless it says otherwise, they rely on nothing.
    open spec fn sound(&self) -> bool {
        true
    }

    /// Whether the operation may be handed a completion. An implementation
    /// that takes one completion only says so here; unless it says
    /// otherwise, it may be handed one at any time.
    open spec fn awaits(&self) -> bool {
        true
    }

    /// Whether the operation may build the entry. An implementation says
    /// here what request its entry asks of the kernel; unless it does,
    /// nothing is known of the entry.
    open spec fn builds(&self, entry: Entry) -> bool {
        true
    }

    /// Whether the operation may turn the completion into the output. An
    /// implementation says here what its output is; unless it does,
    /// nothing is known of the output.
    open spec fn completes(&self, entry: Completion, output: Self::Output) -> bool {
        true
    }

    /// Whether the operation may hand out `data` to be kept alive. An
    /// implementation says here what it holds; unless it does, nothing is
    /// known of it.
    open spec fn retains(&self, data: Option<Allocations>) -> bool {
        true
    }

    /// Build the submission entry of the operation.
    fn build_submission(&mut self) -> (entry: Entry)
        requires
            old(self).sound(),
        ensures
            final(self).sound(),
            final(self).awaits() == old(self).awaits(),
            old(self).builds(entry),
    ;

    /// Turn a completion of the operation's own submission into its output.
    fn handle_completion(&mut self, entry: Completion) -> (output: Self::Output)
        requires
            old(self).sound(),
            old(self).awaits(),
        ensures
            final(self).sound(),
            old(self).completes(entry, output),
    ;

    /// Hand out what has to live as long as the kernel works on the
    /// operation, so that the operation value itself can be dropped.
    fn take_required_allocations(&mut self) -> (data: Option<Allocations>)
        requires
            old(self).sound(),
        ensures
            final(self).sound(),
            final(self).awaits() == old(self).awaits(),
            old(self).retains(data),
    ;
}

/// An operation that produces exactly one completion.
pub trait Oneshot: Operation {

}

} // verus!
