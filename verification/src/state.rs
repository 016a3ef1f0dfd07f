//! The state that the reactor keeps of one operation, and how polling,
//! ignoring and completing move it.
use crate::entry::Completion;
use std::collections::VecDeque;
use std::task::{Poll, Waker};
use vstd::prelude::*;

verus! {

/// Marks a value that is kept only so that it stays alive. Every type has
/// it, so any owned value can be boxed and handed over with its type erased.
pub trait Retained {

}

impl<T> Retained for T {

}

/// Allocations that the kernel may still read or write, with their type
/// erased. Dropping the box frees them.
pub type Allocations = Box<dyn Retained>;

/// The state of one operation that the reactor knows of.
pub enum OperationState {
    /// A task waits for progress and is to be signalled through the waker.
    Waiting(Waker),
    /// One completion has arrived and was not taken yet.
    Completed(Completion),
    /// Completions arrive faster than they are taken.
    Buffering(VecDeque<Completion>),
    /// Nobody waits. What is held here must outlive the operation.
    Ignored(Option<Allocations>),
}

/// An operation's state as contracts see it.
pub enum StateView {
    Waiting(Waker),
    Completed(Completion),
    Buffering(Seq<Completion>),
    Ignored(Option<Allocations>),
}

impl View for OperationState {
    type V = StateView;

    open spec fn view(&self) -> StateView {
        match *self {
            OperationState::Waiting(waker) => StateView::Waiting(waker),
            OperationState::Completed(entry) => StateView::Completed(entry),
            OperationState::Buffering(entries) => StateView::Buffering(entries@),
            OperationState::Ignored(data) => StateView::Ignored(data),
        }
    }
}

impl StateView {
    /// The state of an operation that was just queued.
    pub open spec fn initial(notifier: Option<Waker>) -> StateView {
        match notifier {
            Some(waker) => StateView::Waiting(waker),
            None => StateView::Ignored(None),
        }
    }

    /// Whether the operation may be polled: one that was ignored with
    /// allocations handed over was forgotten for good.
    pub open spec fn pollable(self) -> bool {
        !(self matches StateView::Ignored(Some(_)))
    }

    /// Whether the state is one that an operation can be in before the
    /// kernel has seen its entry: no completion has arrived and no
    /// allocations were handed over.
    pub open spec fn unseen(self) -> bool {
        match self {
            StateView::Waiting(_) => true,
            StateView::Ignored(data) => data.is_none(),
            _ => false,
        }
    }

    /// Whether the last completion that the state holds is final, so that
    /// the kernel will send no more.
    pub open spec fn settled(self) -> bool {
        match self {
            StateView::Completed(entry) => !entry.has_more(),
            StateView::Buffering(entries) => entries.len() > 0 && !entries.last().has_more(),
            _ => false,
        }
    }

    /// Whether every completion that the state holds carries the user data
    /// `id`: a slot holds the completions of its own operation only.
    pub open spec fn carries(self, id: u64) -> bool {
        match self {
            StateView::Completed(entry) => entry.user_data == id,
            StateView::Buffering(entries) => forall|at: int|
                0 <= at < entries.len() ==> (#[trigger] entries[at]).user_data == id,
            _ => true,
        }
    }

    /// Whether the completions that the state holds came as the kernel
    /// sends them: each but the last announces more.
    pub open spec fn orderly(self) -> bool {
        match self {
            StateView::Buffering(entries) => forall|at: int|
                0 <= at < entries.len() - 1 ==> (#[trigger] entries[at]).has_more(),
            _ => true,
        }
    }

    /// What a poll answers in this state.
    pub open spec fn poll_result(self) -> Poll<Completion> {
        match self {
            StateView::Completed(entry) => Poll::Ready(entry),
            StateView::Buffering(entries) => if entries.len() > 0 {
                Poll::Ready(entries[0])
            } else {
                Poll::Pending
            },
            _ => Poll::Pending,
        }
    }

    /// The state after a poll by the task that `notifier` wakes, or `None`
    /// where the poll frees the slot. `kept` says whether a waker that
    /// was stored before stays.
    pub open spec fn after_poll(self, notifier: Waker, kept: bool) -> Option<StateView> {
        match self {
            StateView::Waiting(stored) => Some(
                StateView::Waiting(
                    if kept {
                        stored
                    } else {
                        notifier
                    },
                ),
            ),
            StateView::Completed(entry) => if entry.has_more() {
                Some(StateView::Waiting(notifier))
            } else {
                None
            },
            StateView::Buffering(entries) => if entries.len() == 0 {
                Some(self)
            } else if entries.len() > 1 {
                Some(StateView::Buffering(entries.drop_first()))
            } else if entries[0].has_more() {
                Some(StateView::Waiting(notifier))
            } else {
                None
            },
            StateView::Ignored(_) => Some(StateView::Waiting(notifier)),
        }
    }

    /// Whether a poll in this state wakes the polling task at once, because
    /// more completions are waiting behind the one it takes.
    pub open spec fn poll_rewakes(self) -> bool {
        self matches StateView::Buffering(entries) && entries.len() > 1
    }

    /// The state after the operation was ignored while the kernel knows of
    /// it, or `None` where that frees the slot.
    pub open spec fn after_ignore(self, data: Option<Allocations>) -> Option<StateView> {
        if self.settled() {
            None
        } else {
            Some(StateView::Ignored(data))
        }
    }

    /// The state after one more completion has arrived, or `None` where that
    /// frees the slot.
    pub open spec fn after_completion(self, entry: Completion) -> Option<StateView> {
        match self {
            StateView::Waiting(_) => Some(StateView::Completed(entry)),
            StateView::Completed(previous) => Some(StateView::Buffering(seq![previous, entry])),
            StateView::Buffering(entries) => Some(StateView::Buffering(entries.push(entry))),
            StateView::Ignored(data) => if entry.has_more() {
                Some(self)
            } else {
                None
            },
        }
    }

    /// The waker that is signalled when a completion arrives in this state.
    pub open spec fn notified(self) -> Option<Waker> {
        match self {
            StateView::Waiting(waker) => Some(waker),
            _ => None,
        }
    }
}

} // verus!
