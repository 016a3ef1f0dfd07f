//! The batch of a single operation.
use crate::batch::definition::Batch;
use crate::model::ReactorView;
use crate::operation::definition::Oneshot;
use crate::reactor::{OperationId, Reactor};
use crate::state::Allocations;
use io_uring::squeue::Entry;
use std::task::{Context, Poll, Waker};
use vstd::prelude::*;

verus! {

/// A single oneshot operation as a batch. Its handle is the operation's
/// identifier.
#[must_use]
pub struct Single<O> {
    inner: O,
}

impl<O> Single<O> {
    /// The operation that makes up the batch.
    pub closed spec fn operation(&self) -> O {
        self.inner
    }

    pub fn new(inner: O) -> (single: Self)
        ensures
            single.operation() == inner,
    {
        Single { inner }
    }
}

impl<O: Oneshot> Batch for Single<O> {
    type Handle = OperationId;

    type Output = O::Output;

    open spec fn sound(&self) -> bool {
        self.operation().sound()
    }

    open spec fn awaits(&self) -> bool {
        self.operation().awaits()
    }

    open spec fn spec_width() -> nat {
        1
    }

    open spec fn pollable(&self, handle: OperationId, reactor: ReactorView) -> bool {
        reactor.can_poll(handle@)
    }

    open spec fn droppable(&self, handle: OperationId, reactor: ReactorView) -> bool {
        reactor.is_live(handle@)
    }

    /// The one entry is queued as the operation built it, without a link,
    /// under an identifier that was not in use.
    open spec fn submits(
        &self,
        submitted: Self,
        handle: OperationId,
        before: ReactorView,
        after: ReactorView,
        notifier: Option<Waker>,
    ) -> bool {
        &&& !before.is_live(handle@)
        &&& exists|entry: Entry|
            self.operation().builds(entry) && after == #[trigger] before.queued(
                handle@,
                entry,
                notifier,
            )
    }

    open spec fn ready(&self, handle: OperationId, reactor: ReactorView) -> bool {
        reactor.states[handle@].poll_result() is Ready
    }

    /// The reactor is polled for the operation.
    open spec fn polls(
        &self,
        handle: OperationId,
        before: ReactorView,
        after: ReactorView,
        notifier: Waker,
    ) -> bool {
        before.polled_into(after, handle@, notifier)
    }

    /// The output is what the operation makes of the completion that the
    /// reactor hands out.
    open spec fn yields(&self, handle: OperationId, reactor: ReactorView, output: O::Output)
        -> bool {
        reactor.states[handle@].poll_result() matches Poll::Ready(entry)
            && self.operation().completes(entry, output)
    }

    /// The operation is ignored with what it hands out to be kept alive.
    open spec fn drops(&self, handle: OperationId, before: ReactorView, after: ReactorView)
        -> bool {
        exists|data: Option<Allocations>|
            self.operation().retains(data) && after == #[trigger] before.ignored(handle@, data)
    }

    fn width(&self) -> (width: usize) {
        1
    }

    fn submit_entries(&mut self, reactor: &mut Reactor, context: Option<&Context>) -> (handle:
        OperationId) {
        let entry = self.inner.build_submission();
        reactor.queue_submission(entry, context)
    }

    fn can_poll(&self, handle: OperationId, reactor: &Reactor) -> (allowed: bool) {
        reactor.can_poll(handle)
    }

    /// The reactor is polled, and a completion is turned into the output by
    /// the operation.
    fn poll_progress(&mut self, handle: OperationId, reactor: &mut Reactor, context: &Context)
        -> (progress: Poll<O::Output>) {
        match reactor.poll_completion(handle, context) {
            Poll::Ready(entry) => Poll::Ready(self.inner.handle_completion(entry)),
            Poll::Pending => Poll::Pending,
        }
    }

    fn can_drop(&self, handle: OperationId, reactor: &Reactor) -> (allowed: bool) {
        reactor.is_live(handle)
    }

    fn drop_operations(&mut self, handle: OperationId, reactor: &mut Reactor) {
        let data = self.inner.take_required_allocations();
        reactor.ignore_operation(handle, data);
    }
}

} // verus!
