//! Helper methods for batches.
use crate::batch::definition::Batch;
use crate::future::SubmitAndWait;
use vstd::prelude::*;

verus! {

/// Helper methods that every batch has.
pub trait BatchExt {
    /// Make the state of a submission that is yet to be polled.
    fn build_submission(self) -> (submission: SubmitAndWait<Self>) where Self: Batch + Sized
        ensures
            submission.batch() == self,
            submission.handle().is_none(),
    {
        SubmitAndWait::new(self)
    }
}

impl<B> BatchExt for B {

}

} // verus!
