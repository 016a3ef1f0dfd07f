//! Operations on futex words.
use crate::entry::{entry_opcode, Completion};
use crate::operation::definition::{Oneshot, Operation};
use crate::state::Allocations;
use io_uring::squeue::Entry;
use std::sync::atomic::AtomicU32;
use vstd::prelude::*;

verus! {

/// The opcode of a request that waits on a futex word.
pub const OPCODE_FUTEX_WAIT: u32 = 51;

/// The opcode of a request that wakes waiters on a futex word.
pub const OPCODE_FUTEX_WAKE: u32 = 52;

/// Builds the entry of `opcode::FutexWait` for the futex word, with the
/// value that the word is expected to hold, the mask of the wakers to
/// listen to and the flags of the futex. Its opcode is that of the futex
/// wait.
#[verifier::external_body]
fn futex_wait_entry(futex: &AtomicU32, value: u64, mask: u64, flags: u32) -> (entry: Entry)
    ensures
        entry_opcode(entry) == OPCODE_FUTEX_WAIT,
{
    io_uring::opcode::FutexWait::new(futex.as_ptr().cast_const(), value, mask, flags).build()
}

/// Builds the entry of `opcode::FutexWake` for the futex word, with the
/// number of waiters to wake, the mask of the waiters to reach and the
/// flags of the futex. Its opcode is that of the futex wake.
#[verifier::external_body]
fn futex_wake_entry(futex: &AtomicU32, count: u64, mask: u64, flags: u32) -> (entry: Entry)
    ensures
        entry_opcode(entry) == OPCODE_FUTEX_WAKE,
{
    io_uring::opcode::FutexWake::new(futex.as_ptr().cast_const(), count, mask, flags).build()
}

/// Wait on a futex word until it is woken, as long as the word holds the
/// expected value.
#[must_use]
pub struct FutexWait<'futex> {
    futex: &'futex AtomicU32,
    compare: u32,
}

impl<'futex> FutexWait<'futex> {
    pub fn new(futex: &'futex AtomicU32, compare: u32) -> (wait: Self)
        ensures
            wait.expected() == compare,
    {
        FutexWait { futex, compare }
    }

    /// The value that the futex word is expected to hold.
    pub closed spec fn expected(&self) -> u32 {
        self.compare
    }
}

impl Operation for FutexWait<'_> {
    type Output = ();

    /// The entry asks to wait on a futex word.
    open spec fn builds(&self, entry: Entry) -> bool {
        entry_opcode(entry) == OPCODE_FUTEX_WAIT
    }

    /// Nothing has to be kept alive for the kernel.
    open spec fn retains(&self, data: Option<Allocations>) -> bool {
        data.is_none()
    }

    fn build_submission(&mut self) -> (entry: Entry)
        ensures
            final(self).expected() == old(self).expected(),
    {
        futex_wait_entry(self.futex, self.compare as u64, 0, 0)
    }

    fn handle_completion(&mut self, entry: Completion) -> (output: Self::Output) {
    }

    fn take_required_allocations(&mut self) -> (data: Option<Allocations>) {
        None
    }
}

impl Oneshot for FutexWait<'_> {

}

/// Wake waiters on a futex word.
#[must_use]
pub struct FutexWake<'futex> {
    futex: &'futex AtomicU32,
    count: u32,
}

impl<'futex> FutexWake<'futex> {
    pub fn new(futex: &'futex AtomicU32, count: u32) -> (wake: Self)
        ensures
            wake.waiters() == count,
    {
        FutexWake { futex, count }
    }

    /// The number of waiters that are to be woken at most.
    pub closed spec fn waiters(&self) -> u32 {
        self.count
    }
}

impl Operation for FutexWake<'_> {
    type Output = ();

    /// The entry asks to wake waiters on a futex word.
    open spec fn builds(&self, entry: Entry) -> bool {
        entry_opcode(entry) == OPCODE_FUTEX_WAKE
    }

    /// Nothing has to be kept alive for the kernel.
    open spec fn retains(&self, data: Option<Allocations>) -> bool {
        data.is_none()
    }

    fn build_submission(&mut self) -> (entry: Entry)
        ensures
            final(self).waiters() == old(self).waiters(),
    {
        futex_wake_entry(self.futex, self.count as u64, 0, 0)
    }

    fn handle_completion(&mut self, entry: Completion) -> (output: Self::Output) {
    }

    fn take_required_allocations(&mut self) -> (data: Option<Allocations>) {
        None
    }
}

impl Oneshot for FutexWake<'_> {

}

} // verus!
