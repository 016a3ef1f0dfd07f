//! Wrappers that keep or transform the output of what they wrap.
use crate::batch::definition::Batch;
use crate::entry::Completion;
use crate::model::ReactorView;
use crate::reactor::Reactor;
use crate::operation::definition::{Oneshot, Operation};
use crate::state::Allocations;
use io_uring::squeue::Entry;
use std::task::{Context, Poll, Waker};
use vstd::prelude::*;

verus! {

/// Wrapper for a oneshot operation that keeps the output inside until it
/// is asked for, so that a batch can come back to it poll after poll.
#[must_use]
pub struct StashOutput<O: Oneshot> {
    operation: O,
    output: Option<O::Output>,
}

impl<O: Oneshot> StashOutput<O> {
    /// The output that is kept, if the operation has completed and the
    /// output was not taken.
    pub closed spec fn stashed(&self) -> Option<O::Output> {
        self.output
    }

    /// The operation that is wrapped.
    pub closed spec fn inner(&self) -> O {
        self.operation
    }

    /// What the wrapped operation relies on.
    pub open spec fn sound(&self) -> bool {
        self.inner().sound()
    }

    pub fn new(operation: O) -> (stash: Self)
        ensures
            stash.inner() == operation,
            stash.stashed().is_none(),
    {
        StashOutput { operation, output: None }
    }

    /// Whether no output is kept.
    pub fn not_finished(&self) -> (pending: bool)
        ensures
            pending == self.stashed().is_none(),
    {
        self.output.is_none()
    }

    /// Take the output out, if one is kept.
    #[must_use]
    pub fn take_output(&mut self) -> (output: Option<O::Output>)
        ensures
            output == old(self).stashed(),
            final(self).stashed().is_none(),
            final(self).inner() == old(self).inner(),
    {
        self.output.take()
    }

    /// Keep an output.
    pub fn stash(&mut self, output: O::Output)
        ensures
            final(self).stashed() == Some(output),
            final(self).inner() == old(self).inner(),
    {
        self.output = Some(output);
    }

    /// Build the submission entry of the wrapped operation.
    pub fn build_submission(&mut self) -> (entry: Entry)
        requires
            old(self).sound(),
        ensures
            final(self).sound(),
            final(self).stashed() == old(self).stashed(),
            final(self).inner().awaits() == old(self).inner().awaits(),
            old(self).inner().builds(entry),
    {
        self.operation.build_submission()
    }

    /// Let the wrapped operation turn its completion into its output, and
    /// keep that output.
    pub fn handle_completion(&mut self, entry: Completion)
        requires
            old(self).sound(),
            old(self).stashed().is_none(),
            old(self).inner().awaits(),
        ensures
            final(self).sound(),
            final(self).stashed() matches Some(output) && old(self).inner().completes(
                entry,
                output,
            ),
    {
        let output = self.operation.handle_completion(entry);
        self.stash(output);
    }

    /// Hand out what the wrapped operation needs kept alive; nothing once
    /// an output is kept, because the kernel is done with the operation
    /// by then.
    pub fn take_required_allocations(&mut self) -> (data: Option<Allocations>)
        requires
            old(self).sound(),
        ensures
            final(self).sound(),
            final(self).stashed() == old(self).stashed(),
            final(self).inner().awaits() == old(self).inner().awaits(),
            if old(self).stashed().is_some() {
                data.is_none() && final(self).inner() == old(self).inner()
            } else {
                old(self).inner().retains(data)
            },
    {
        if self.output.is_some() {
            return None;
        }
        self.operation.take_required_allocations()
    }
}

impl<O: Oneshot> Operation for StashOutput<O> {
    type Output = ();

    open spec fn sound(&self) -> bool {
        self.inner().sound()
    }

    /// A completion may be handed over as long as no output is kept.
    open spec fn awaits(&self) -> bool {
        self.stashed().is_none() && self.inner().awaits()
    }

    /// The entry is one that the wrapped operation builds.
    open spec fn builds(&self, entry: Entry) -> bool {
        self.inner().builds(entry)
    }

    /// Nothing once an output is kept, else what the wrapped operation
    /// hands out.
    open spec fn retains(&self, data: Option<Allocations>) -> bool {
        if self.stashed().is_some() {
            data.is_none()
        } else {
            self.inner().retains(data)
        }
    }

    fn build_submission(&mut self) -> (entry: Entry)
        ensures
            final(self).stashed() == old(self).stashed(),
    {
        StashOutput::build_submission(self)
    }

    /// The output of the wrapped operation is kept inside.
    fn handle_completion(&mut self, entry: Completion) -> (output: ())
        ensures
            final(self).stashed() matches Some(kept) && old(self).inner().completes(entry, kept),
    {
        StashOutput::handle_completion(self, entry)
    }

    fn take_required_allocations(&mut self) -> (data: Option<Allocations>)
        ensures
            final(self).stashed() == old(self).stashed(),
    {
        StashOutput::take_required_allocations(self)
    }
}

impl<O: Oneshot> Oneshot for StashOutput<O> {

}

/// Wrapper for an operation or a batch that transforms the output.
#[must_use]
pub struct MapOutput<O, F> {
    operation: O,
    function: F,
}

impl<O, F> MapOutput<O, F> {
    /// What is wrapped.
    pub closed spec fn inner(&self) -> O {
        self.operation
    }

    /// The function that is applied to the output.
    pub closed spec fn transform(&self) -> F {
        self.function
    }

    pub fn new(operation: O, function: F) -> (mapped: Self)
        ensures
            mapped.inner() == operation,
            mapped.transform() == function,
    {
        MapOutput { operation, function }
    }
}

impl<O, F, T> Operation for MapOutput<O, F> where O: Operation, F: FnMut(O::Output) -> T {
    type Output = T;

    /// The wrapped operation is sound and the function takes every output.
    open spec fn sound(&self) -> bool {
        &&& self.inner().sound()
        &&& forall|output: O::Output| #[trigger] call_requires(self.transform(), (output,))
    }

    /// The output is what the function makes of an output of the wrapped
    /// operation.
    open spec fn completes(&self, entry: Completion, output: T) -> bool {
        exists|inner: O::Output| #[trigger]
            self.inner().completes(entry, inner) && call_ensures(
                self.transform(),
                (inner,),
                output,
            )
    }

    open spec fn awaits(&self) -> bool {
        self.inner().awaits()
    }

    /// The entry is one that the wrapped operation builds.
    open spec fn builds(&self, entry: Entry) -> bool {
        self.inner().builds(entry)
    }

    open spec fn retains(&self, data: Option<Allocations>) -> bool {
        self.inner().retains(data)
    }

    fn build_submission(&mut self) -> (entry: Entry)
        ensures
            final(self).transform() == old(self).transform(),
    {
        let entry = self.operation.build_submission();
        assert(self.transform() == old(self).transform());
        entry
    }

    fn handle_completion(&mut self, entry: Completion) -> (output: T)
        ensures
            final(self).transform() == old(self).transform(),
    {
        let inner = self.operation.handle_completion(entry);
        assert(self.transform() == old(self).transform());
        (self.function)(inner)
    }

    fn take_required_allocations(&mut self) -> (data: Option<Allocations>)
        ensures
            final(self).transform() == old(self).transform(),
    {
        let data = self.operation.take_required_allocations();
        assert(self.transform() == old(self).transform());
        data
    }
}

impl<O, F, T> Oneshot for MapOutput<O, F> where O: Oneshot, F: FnMut(O::Output) -> T {

}

impl<B, F, T> Batch for MapOutput<B, F> where B: Batch, F: FnMut(B::Output) -> T {
    type Handle = B::Handle;

    type Output = T;

    /// The wrapped batch is sound and the function takes every output.
    open spec fn sound(&self) -> bool {
        &&& self.inner().sound()
        &&& forall|output: B::Output| #[trigger] call_requires(self.transform(), (output,))
    }

    open spec fn awaits(&self) -> bool {
        self.inner().awaits()
    }

    open spec fn spec_width() -> nat {
        B::spec_width()
    }

    open spec fn pollable(&self, handle: B::Handle, reactor: ReactorView) -> bool {
        self.inner().pollable(handle, reactor)
    }

    open spec fn droppable(&self, handle: B::Handle, reactor: ReactorView) -> bool {
        self.inner().droppable(handle, reactor)
    }

    open spec fn submits(
        &self,
        submitted: Self,
        handle: B::Handle,
        before: ReactorView,
        after: ReactorView,
        notifier: Option<Waker>,
    ) -> bool {
        &&& submitted.transform() == self.transform()
        &&& self.inner().submits(submitted.inner(), handle, before, after, notifier)
    }

    open spec fn ready(&self, handle: B::Handle, reactor: ReactorView) -> bool {
        self.inner().ready(handle, reactor)
    }

    open spec fn polls(
        &self,
        handle: B::Handle,
        before: ReactorView,
        after: ReactorView,
        notifier: Waker,
    ) -> bool {
        self.inner().polls(handle, before, after, notifier)
    }

    /// The output is what the function makes of an output of the wrapped
    /// batch.
    open spec fn yields(&self, handle: B::Handle, reactor: ReactorView, output: T) -> bool {
        exists|inner: B::Output| #[trigger]
            self.inner().yields(handle, reactor, inner) && call_ensures(
                self.transform(),
                (inner,),
                output,
            )
    }

    open spec fn drops(&self, handle: B::Handle, before: ReactorView, after: ReactorView) -> bool {
        self.inner().drops(handle, before, after)
    }

    fn width(&self) -> (width: usize) {
        self.operation.width()
    }

    fn submit_entries(&mut self, reactor: &mut Reactor, context: Option<&Context>) -> (handle:
        B::Handle)
        ensures
            final(self).transform() == old(self).transform(),
    {
        let handle = self.operation.submit_entries(reactor, context);
        assert(self.transform() == old(self).transform());
        handle
    }

    fn can_poll(&self, handle: B::Handle, reactor: &Reactor) -> (allowed: bool) {
        self.operation.can_poll(handle, reactor)
    }

    fn poll_progress(&mut self, handle: B::Handle, reactor: &mut Reactor, context: &Context) -> (
        progress: Poll<T>)
        ensures
            final(self).transform() == old(self).transform(),
    {
        let progress = self.operation.poll_progress(handle, reactor, context);
        assert(self.transform() == old(self).transform());
        match progress {
            Poll::Ready(output) => Poll::Ready((self.function)(output)),
            Poll::Pending => Poll::Pending,
        }
    }

    fn can_drop(&self, handle: B::Handle, reactor: &Reactor) -> (allowed: bool) {
        self.operation.can_drop(handle, reactor)
    }

    fn drop_operations(&mut self, handle: B::Handle, reactor: &mut Reactor)
        ensures
            final(self).transform() == old(self).transform(),
    {
        self.operation.drop_operations(handle, reactor);
        assert(self.transform() == old(self).transform());
    }
}

} // verus!
