//! The rules of the synchronization primitives that are built on futex
//! operations: what a semaphore, a mutex and a condition variable decide
//! from the value they find in their futex word. Reading and changing
//! the word, and waiting on it, is the caller's part.
use vstd::prelude::*;

verus! {

/// The value of a mutex's futex word while the mutex is free.
pub const STATE_UNLOCKED: u32 = 0;

/// The value of a mutex's futex word while the mutex is held.
pub const STATE_LOCKED: u32 = 1;

/// What acquiring a semaphore does with the count it finds: with no
/// permit left it waits for the count to change, else it tries to put the
/// count less one in its place.
pub fn semaphore_acquire(count: u32) -> (next: Option<u32>)
    ensures
        next == if count == 0 {
            None::<u32>
        } else {
            Some((count - 1) as u32)
        },
{
    if count == 0 {
        None
    } else {
        Some(count - 1)
    }
}

/// Whether releasing a semaphore wakes a waiter: it does when the count
/// that it added to was zero.
pub fn semaphore_release_wakes(previous: u32) -> (wakes: bool)
    ensures
        wakes == (previous == 0),
{
    previous == 0
}

/// Whether unlocking a mutex wakes a waiter: it does when the mutex was
/// held.
pub fn mutex_unlock_wakes(previous: u32) -> (wakes: bool)
    ensures
        wakes == (previous == STATE_LOCKED),
{
    previous == STATE_LOCKED
}

/// How many waiters a condition variable wakes when all are notified:
/// those that were counted, and none is woken when none was.
pub fn condition_notify_all(waiters: u32) -> (wake: Option<u32>)
    ensures
        wake == if waiters == 0 {
            None::<u32>
        } else {
            Some(waiters)
        },
{
    if waiters == 0 {
        None
    } else {
        Some(waiters)
    }
}

} // verus!
