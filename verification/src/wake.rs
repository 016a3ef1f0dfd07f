//! The notification handles of the cooperative executor, which std defines
//! and the reactor only stores, compares and signals.
use std::task::{Context, Poll, Waker};
use vstd::prelude::*;

verus! {

/// std's handle for waking a task. In contracts two wakers are equal when
/// they wake the same task.
#[verifier::external_type_specification]
#[verifier::external_body]
pub struct ExWaker(Waker);

/// std's context of one poll of a task, which carries the task's waker.
#[verifier::external_type_specification]
#[verifier::external_body]
pub struct ExContext<'a>(Context<'a>);

/// std's answer to a poll: ready with a value, or pending.
#[verifier::external_type_specification]
#[verifier::reject_recursive_types(T)]
pub struct ExPoll<T>(Poll<T>);

/// The waker that `Context::waker` hands out: the one the context was made
/// from.
pub uninterp spec fn context_waker(context: Context) -> Waker;

/// Calls `Context::waker`.
#[verifier::external_body]
pub(crate) fn waker_of<'a, 'b>(context: &'a Context<'b>) -> (waker: &'a Waker)
    ensures
        *waker == context_waker(*context),
{
    context.waker()
}

/// Calls `Waker::clone`, which makes another handle for the same task.
#[verifier::external_body]
pub(crate) fn clone_waker(waker: &Waker) -> (copy: Waker)
    ensures
        copy == *waker,
{
    waker.clone()
}

/// Calls `Waker::will_wake`, a best-effort comparison of which nothing is
/// promised here.
#[verifier::external_body]
pub(crate) fn will_wake(stored: &Waker, current: &Waker) -> bool {
    stored.will_wake(current)
}

/// Calls `Waker::wake`, which signals the task and uses the handle up.
#[verifier::external_body]
pub(crate) fn wake(waker: Waker) {
    waker.wake()
}

/// Calls `Waker::wake_by_ref`, which signals the task and keeps the handle.
#[verifier::external_body]
pub(crate) fn wake_by_ref(waker: &Waker) {
    waker.wake_by_ref()
}

} // verus!
