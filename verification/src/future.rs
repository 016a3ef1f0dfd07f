//! The state behind a future that submits a batch and waits for it: what
//! one poll does, and what dropping the future does.
use crate::batch::definition::Batch;
use crate::model::ReactorView;
use crate::reactor::Reactor;
use crate::wake::context_waker;
use std::task::{Context, Poll};
use vstd::prelude::*;

verus! {

/// A batch on its way through the reactor.
///
/// The first poll submits the batch and keeps the handle. Later polls ask
/// the batch for progress. Once the batch is through, the handle is
/// forgotten, so that giving the submission up afterwards does nothing.
#[must_use]
pub struct SubmitAndWait<B: Batch> {
    batch: B,
    handle: Option<B::Handle>,
}

impl<B: Batch> SubmitAndWait<B> {
    /// The batch.
    pub closed spec fn batch(&self) -> B {
        self.batch
    }

    /// The handle of the entries that were submitted and whose outputs
    /// have not been handed out.
    pub closed spec fn handle(&self) -> Option<B::Handle> {
        self.handle
    }

    /// What the batch relies on, and that its operations may be handed
    /// their completions.
    pub open spec fn sound(&self) -> bool {
        self.batch().sound() && self.batch().awaits()
    }

    /// Whether the submission can be polled on the reactor: before the
    /// batch is submitted the reactor needs room for its entries, after
    /// that the batch has to be pollable with the handle.
    pub open spec fn pollable(&self, reactor: ReactorView) -> bool {
        match self.handle() {
            Some(handle) => self.batch().pollable(handle, reactor),
            None => reactor.states.len() + B::spec_width() <= u32::MAX,
        }
    }

    /// Whether the submission can be given up on the reactor.
    pub open spec fn droppable(&self, reactor: ReactorView) -> bool {
        match self.handle() {
            Some(handle) => self.batch().droppable(handle, reactor),
            None => true,
        }
    }

    pub fn new(batch: B) -> (submission: Self)
        ensures
            submission.batch() == batch,
            submission.handle().is_none(),
    {
        SubmitAndWait { batch, handle: None }
    }

    /// Whether the submission can be polled on the reactor.
    pub fn can_poll(&self, reactor: &Reactor) -> (allowed: bool) where B::Handle: Copy
        ensures
            allowed == self.pollable(reactor@),
    {
        match self.handle {
            Some(handle) => self.batch.can_poll(handle, reactor),
            None => {
                let width = self.batch.width();
                let limit = u32::MAX as usize;
                width <= limit && reactor.live_count() <= limit - width
            },
        }
    }

    /// Poll the submission: submit the batch if that is still to be done,
    /// then ask it for progress. When the batch is through, the handle is
    /// forgotten.
    pub fn poll(&mut self, reactor: &mut Reactor, context: &Context) -> (progress: Poll<
        B::Output,
    >) where B::Handle: Copy
        requires
            old(self).sound(),
            old(reactor).inv(),
            old(self).pollable(old(reactor)@),
        ensures
            final(self).batch().sound(),
            progress is Pending ==> final(self).sound(),
            final(reactor).inv(),
            progress is Ready <==> final(self).handle().is_none(),
            match old(self).handle() {
                Some(handle) => {
                    &&& old(self).batch().polls(
                        handle,
                        old(reactor)@,
                        final(reactor)@,
                        context_waker(*context),
                    )
                    &&& progress is Ready <==> old(self).batch().ready(handle, old(reactor)@)
                    &&& progress matches Poll::Ready(output) ==> old(self).batch().yields(
                        handle,
                        old(reactor)@,
                        output,
                    )
                    &&& progress is Pending ==> final(self).handle() == Some(handle)
                },
                None => exists|handle: B::Handle, submitted: B, staged: ReactorView|
                    {
                        &&& #[trigger] old(self).batch().submits(
                            submitted,
                            handle,
                            old(reactor)@,
                            staged,
                            Some(context_waker(*context)),
                        )
                        &&& #[trigger] submitted.polls(
                            handle,
                            staged,
                            final(reactor)@,
                            context_waker(*context),
                        )
                        &&& progress is Ready <==> submitted.ready(handle, staged)
                        &&& progress matches Poll::Ready(output) ==> submitted.yields(
                            handle,
                            staged,
                            output,
                        )
                        &&& progress is Pending ==> final(self).handle() == Some(handle)
                    },
            },
    {
        let handle = match self.handle {
            Some(handle) => handle,
            None => {
                let handle = self.batch.submit_entries(reactor, Some(context));
                self.handle = Some(handle);
                handle
            },
        };
        match self.batch.poll_progress(handle, reactor, context) {
            Poll::Ready(output) => {
                self.handle = None;
                Poll::Ready(output)
            },
            Poll::Pending => Poll::Pending,
        }
    }

    /// Whether the submission can be given up on the reactor.
    pub fn can_drop(&self, reactor: &Reactor) -> (allowed: bool) where B::Handle: Copy
        ensures
            allowed == self.droppable(reactor@),
    {
        match self.handle {
            Some(handle) => self.batch.can_drop(handle, reactor),
            None => true,
        }
    }

    /// Give the submission up. If entries were submitted and their outputs
    /// not handed out, the batch's operations are given up on the
    /// reactor. Else nothing happens.
    pub fn cancel(&mut self, reactor: &mut Reactor)
        requires
            old(self).batch().sound(),
            old(reactor).inv(),
            old(self).droppable(old(reactor)@),
        ensures
            final(self).batch().sound(),
            final(reactor).inv(),
            final(self).handle().is_none(),
            match old(self).handle() {
                Some(handle) => old(self).batch().drops(handle, old(reactor)@, final(reactor)@),
                None => *final(reactor) == *old(reactor) && *final(self) == *old(self),
            },
    {
        if let Some(handle) = self.handle.take() {
            self.batch.drop_operations(handle, reactor);
        }
    }
}

} // verus!
