//! What a batch is: the contract between a batch and the reactor.
use crate::model::{notifier_of, ReactorView};
use crate::reactor::Reactor;
use crate::wake::context_waker;
use std::task::{Context, Poll, Waker};
use vstd::prelude::*;

verus! {

/// One or more oneshot operations that are submitted and awaited together.
///
/// What is said of `Operation` on the life of parameters holds here too.
#[must_use]
pub trait Batch: Sized {
    /// What remembers the entries that were submitted: the identifiers of
    /// the batch's operations.
    type Handle;

    /// What the batch produces in the end.
    type Output;

    /// What the batch's own methods rely on. Unless an implementation
    /// says otherwise, they rely on nothing.
    open spec fn sound(&self) -> bool {
        true
    }

    /// Whether the batch's operations whose output is still to come may be
    /// handed a completion. Unless an implementation says otherwise, they
    /// may.
    open spec fn awaits(&self) -> bool {
        true
    }

    /// The number of entries that the batch submits.
    spec fn spec_width() -> nat;

    /// Whether the batch can be polled with the handle: each of its
    /// operations that has not produced its output yet has a slot in the
    /// reactor and can be polled there, and no two share an identifier.
    spec fn pollable(&self, handle: Self::Handle, reactor: ReactorView) -> bool;

    /// Whether the batch's operations can be given up with the handle: each
    /// of them that has not produced its output yet has a slot in the
    /// reactor, and no two share an identifier.
    spec fn droppable(&self, handle: Self::Handle, reactor: ReactorView) -> bool;

    /// Whether submitting the batch makes `submitted` of it and `after` of
    /// the reactor `before`: each operation builds its entry, and the
    /// entries are queued under the handle for the task that `notifier`
    /// wakes.
    spec fn submits(
        &self,
        submitted: Self,
        handle: Self::Handle,
        before: ReactorView,
        after: ReactorView,
        notifier: Option<Waker>,
    ) -> bool;

    /// Whether a poll of the batch with the handle finds every operation
    /// through, so that the outputs are handed out.
    spec fn ready(&self, handle: Self::Handle, reactor: ReactorView) -> bool;

    /// Whether `after` is the reactor that `before` becomes when the batch
    /// is polled with the handle by the task that `notifier` wakes.
    spec fn polls(
        &self,
        handle: Self::Handle,
        before: ReactorView,
        after: ReactorView,
        notifier: Waker,
    ) -> bool;

    /// Whether a poll of the batch with the handle that finds every
    /// operation through may hand `output` out.
    spec fn yields(&self, handle: Self::Handle, reactor: ReactorView, output: Self::Output)
        -> bool;

    /// Whether `after` is the reactor that `before` becomes when the
    /// batch's operations are given up with the handle.
    spec fn drops(&self, handle: Self::Handle, before: ReactorView, after: ReactorView) -> bool;

    /// The number of entries that the batch submits.
    fn width(&self) -> (width: usize)
        ensures
            width == Self::spec_width(),
    ;

    /// Queue the batch's entries on the reactor.
    #[must_use]
    fn submit_entries(&mut self, reactor: &mut Reactor, context: Option<&Context>) -> (handle:
        Self::Handle)
        requires
            old(self).sound(),
            old(reactor).inv(),
            old(reactor)@.states.len() + Self::spec_width() <= u32::MAX,
        ensures
            final(self).sound(),
            final(self).awaits() == old(self).awaits(),
            final(reactor).inv(),
            old(self).submits(
                *final(self),
                handle,
                old(reactor)@,
                final(reactor)@,
                notifier_of(context),
            ),
            final(self).pollable(handle, final(reactor)@),
            final(self).droppable(handle, final(reactor)@),
    ;

    /// Whether the batch can be polled with the handle.
    fn can_poll(&self, handle: Self::Handle, reactor: &Reactor) -> (allowed: bool)
        ensures
            allowed == self.pollable(handle, reactor@),
    ;

    /// Poll for progress of the batch's operations. The handle has to be
    /// the one that `submit_entries` returned for this batch.
    fn poll_progress(&mut self, handle: Self::Handle, reactor: &mut Reactor, context: &Context)
        -> (progress: Poll<Self::Output>)
        requires
            old(self).sound(),
            old(self).awaits(),
            old(reactor).inv(),
            old(self).pollable(handle, old(reactor)@),
        ensures
            final(self).sound(),
            progress is Pending ==> final(self).awaits(),
            final(reactor).inv(),
            old(self).polls(handle, old(reactor)@, final(reactor)@, context_waker(*context)),
            progress is Ready <==> old(self).ready(handle, old(reactor)@),
            progress matches Poll::Ready(output) ==> old(self).yields(
                handle,
                old(reactor)@,
                output,
            ),
    ;

    /// Whether the batch's operations can be given up with the handle.
    fn can_drop(&self, handle: Self::Handle, reactor: &Reactor) -> (allowed: bool)
        ensures
            allowed == self.droppable(handle, reactor@),
    ;

    /// Give the batch's operations up: each is marked as ignored, with
    /// what it needs kept alive handed over to the reactor.
    fn drop_operations(&mut self, handle: Self::Handle, reactor: &mut Reactor)
        requires
            old(self).sound(),
            old(reactor).inv(),
            old(self).droppable(handle, old(reactor)@),
        ensures
            final(self).sound(),
            final(reactor).inv(),
            old(self).drops(handle, old(reactor)@, final(reactor)@),
    ;
}

} // verus!
