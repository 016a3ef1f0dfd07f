use std::sync::atomic::{AtomicUsize, Ordering};
use std::sync::Arc;
use std::task::{Context, Poll, Wake, Waker};
use uring_playground::adapter::{Readiness, OPCODE_POLL_ADD, OPCODE_POLL_REMOVE, OPCODE_SHUTDOWN};
use uring_playground::entry::{Completion, Errno};
use uring_playground::reactor::Reactor;
use uring_playground::synchronization::{
    condition_notify_all, mutex_unlock_wakes, semaphore_acquire, semaphore_release_wakes,
    STATE_LOCKED, STATE_UNLOCKED,
};

struct Counter {
    woken: AtomicUsize,
}

impl Wake for Counter {
    fn wake(self: Arc<Self>) {
        self.woken.fetch_add(1, Ordering::SeqCst);
    }
}

fn counter() -> (Arc<Counter>, Waker) {
    let counter = Arc::new(Counter { woken: AtomicUsize::new(0) });
    (counter.clone(), Waker::from(counter))
}

fn opcodes(reactor: &mut Reactor) -> Vec<(u32, u64)> {
    reactor
        .take_unsubmitted()
        .iter()
        .map(|entry| (entry.get_opcode(), entry.get_user_data()))
        .collect()
}

const POLL_ADD: u32 = io_uring::opcode::PollAdd::CODE as u32;
const POLL_REMOVE: u32 = io_uring::opcode::PollRemove::CODE as u32;
const SHUTDOWN: u32 = io_uring::opcode::Shutdown::CODE as u32;

#[test]
fn adapter_opcodes_are_those_of_the_kernel_interface() {
    assert_eq!(OPCODE_POLL_ADD, POLL_ADD);
    assert_eq!(OPCODE_POLL_REMOVE, POLL_REMOVE);
    assert_eq!(OPCODE_SHUTDOWN, SHUTDOWN);
}

#[test]
fn poll_readable_registers_once_and_ends_with_the_completion() {
    let (counter, waker) = counter();
    let context = Context::from_waker(&waker);
    let mut reactor = Reactor::new(4);
    let mut registrations = Readiness::new();
    assert!(registrations.can_poll_readable(&reactor));

    assert_eq!(registrations.poll_readable(0, &mut reactor, &context), Poll::Pending);
    assert_eq!(reactor.live_count(), 1);
    assert_eq!(registrations.poll_readable(0, &mut reactor, &context), Poll::Pending);
    assert_eq!(reactor.live_count(), 1);

    let staged = opcodes(&mut reactor);
    assert_eq!(staged.len(), 1);
    assert_eq!(staged[0].0, POLL_ADD);

    reactor.dispatch(&vec![Completion::new(staged[0].1, 1, 0)]);
    assert_eq!(counter.woken.load(Ordering::SeqCst), 1);
    assert!(registrations.can_poll_readable(&reactor));
    assert_eq!(registrations.poll_readable(0, &mut reactor, &context), Poll::Ready(Ok(())));
    assert_eq!(reactor.live_count(), 0);

    assert_eq!(registrations.poll_readable(0, &mut reactor, &context), Poll::Pending);
    assert_eq!(reactor.live_count(), 1);
    assert_eq!(reactor.staged_count(), 1);
}

#[test]
fn poll_writable_reports_the_error_of_the_poll_request() {
    let (_, waker) = counter();
    let context = Context::from_waker(&waker);
    let mut reactor = Reactor::new(4);
    let mut registrations = Readiness::new();
    assert!(registrations.can_poll_writable(&reactor));
    assert_eq!(registrations.poll_writable(1, &mut reactor, &context), Poll::Pending);
    let staged = opcodes(&mut reactor);
    assert_eq!(staged[0].0, POLL_ADD);
    reactor.dispatch(&vec![Completion::new(staged[0].1, -libc::EBADF, 0)]);
    assert_eq!(
        registrations.poll_writable(1, &mut reactor, &context),
        Poll::Ready(Err(Errno { code: libc::EBADF }))
    );
    assert_eq!(reactor.live_count(), 0);
}

#[test]
fn reading_and_writing_are_registered_apart() {
    let (_, waker) = counter();
    let context = Context::from_waker(&waker);
    let mut reactor = Reactor::new(4);
    let mut registrations = Readiness::new();
    assert_eq!(registrations.poll_readable(3, &mut reactor, &context), Poll::Pending);
    assert_eq!(registrations.poll_writable(3, &mut reactor, &context), Poll::Pending);
    let staged = opcodes(&mut reactor);
    assert_eq!(staged.len(), 2);
    assert_ne!(staged[0].1, staged[1].1);
    reactor.dispatch(&vec![Completion::new(staged[1].1, 4, 0)]);
    assert_eq!(registrations.poll_readable(3, &mut reactor, &context), Poll::Pending);
    assert_eq!(registrations.poll_writable(3, &mut reactor, &context), Poll::Ready(Ok(())));
}

#[test]
fn shutdown_without_registrations() {
    let (_, waker) = counter();
    let context = Context::from_waker(&waker);
    let mut reactor = Reactor::new(4);
    let mut registrations = Readiness::new();
    assert!(registrations.can_poll_shutdown(&reactor));
    assert_eq!(registrations.poll_shutdown(5, &mut reactor, &context), Poll::Pending);
    let staged = opcodes(&mut reactor);
    assert_eq!(staged.len(), 1);
    assert_eq!(staged[0].0, SHUTDOWN);
    assert_eq!(registrations.poll_shutdown(5, &mut reactor, &context), Poll::Pending);
    assert_eq!(reactor.staged_count(), 0);

    reactor.dispatch(&vec![Completion::new(staged[0].1, 0, 0)]);
    assert_eq!(registrations.poll_shutdown(5, &mut reactor, &context), Poll::Ready(Ok(())));
    assert_eq!(reactor.live_count(), 0);
    assert!(registrations.can_release(&reactor));
}

#[test]
fn shutdown_reports_its_error() {
    let (_, waker) = counter();
    let context = Context::from_waker(&waker);
    let mut reactor = Reactor::new(4);
    let mut registrations = Readiness::new();
    assert_eq!(registrations.poll_shutdown(5, &mut reactor, &context), Poll::Pending);
    let staged = opcodes(&mut reactor);
    reactor.dispatch(&vec![Completion::new(staged[0].1, -libc::ENOTCONN, 0)]);
    assert_eq!(
        registrations.poll_shutdown(5, &mut reactor, &context),
        Poll::Ready(Err(Errno { code: libc::ENOTCONN }))
    );
}

#[test]
fn shutdown_withdraws_the_poll_requests_first() {
    let (_, waker) = counter();
    let context = Context::from_waker(&waker);
    let mut reactor = Reactor::new(8);
    let mut registrations = Readiness::new();
    assert_eq!(registrations.poll_readable(7, &mut reactor, &context), Poll::Pending);
    assert_eq!(registrations.poll_writable(7, &mut reactor, &context), Poll::Pending);
    let polls = opcodes(&mut reactor);
    assert_eq!(polls.len(), 2);

    assert_eq!(registrations.poll_shutdown(7, &mut reactor, &context), Poll::Pending);
    let first = reactor.take_unsubmitted();
    assert_eq!(first.len(), 1);
    assert_eq!(first[0].get_opcode(), POLL_REMOVE);
    assert_eq!(registrations.poll_shutdown(7, &mut reactor, &context), Poll::Pending);
    assert_eq!(reactor.staged_count(), 0);

    reactor.dispatch(&vec![Completion::new(first[0].get_user_data(), 0, 0)]);
    assert_eq!(registrations.poll_shutdown(7, &mut reactor, &context), Poll::Pending);
    let second = reactor.take_unsubmitted();
    assert_eq!(second.len(), 1);
    assert_eq!(second[0].get_opcode(), POLL_REMOVE);

    reactor.dispatch(&vec![Completion::new(second[0].get_user_data(), 0, 0)]);
    assert_eq!(registrations.poll_shutdown(7, &mut reactor, &context), Poll::Pending);
    let last = reactor.take_unsubmitted();
    assert_eq!(last.len(), 1);
    assert_eq!(last[0].get_opcode(), SHUTDOWN);

    reactor.dispatch(&vec![Completion::new(last[0].get_user_data(), 0, 0)]);
    assert_eq!(registrations.poll_shutdown(7, &mut reactor, &context), Poll::Ready(Ok(())));
    assert_eq!(reactor.live_count(), 2);
    assert!(registrations.can_release(&reactor));
    registrations.release(&mut reactor);
    assert_eq!(reactor.live_count(), 2);
}

#[test]
fn shutdown_ends_with_the_error_of_a_withdrawal() {
    let (_, waker) = counter();
    let context = Context::from_waker(&waker);
    let mut reactor = Reactor::new(8);
    let mut registrations = Readiness::new();
    assert_eq!(registrations.poll_writable(7, &mut reactor, &context), Poll::Pending);
    reactor.take_unsubmitted();
    assert_eq!(registrations.poll_shutdown(7, &mut reactor, &context), Poll::Pending);
    let removal = reactor.take_unsubmitted();
    assert_eq!(removal[0].get_opcode(), POLL_REMOVE);
    reactor.dispatch(&vec![Completion::new(removal[0].get_user_data(), -libc::ENOENT, 0)]);
    assert_eq!(
        registrations.poll_shutdown(7, &mut reactor, &context),
        Poll::Ready(Err(Errno { code: libc::ENOENT }))
    );
    assert_eq!(reactor.staged_count(), 0);
}

#[test]
fn release_gives_every_request_up() {
    let (_, waker) = counter();
    let context = Context::from_waker(&waker);
    let mut reactor = Reactor::new(8);
    let mut registrations = Readiness::new();
    assert_eq!(registrations.poll_readable(7, &mut reactor, &context), Poll::Pending);
    assert_eq!(registrations.poll_writable(7, &mut reactor, &context), Poll::Pending);
    let polls = opcodes(&mut reactor);
    assert_eq!(registrations.poll_shutdown(7, &mut reactor, &context), Poll::Pending);
    assert_eq!(reactor.live_count(), 3);
    assert_eq!(reactor.staged_count(), 1);

    assert!(registrations.can_release(&reactor));
    registrations.release(&mut reactor);
    assert_eq!(reactor.staged_count(), 0);
    assert_eq!(reactor.live_count(), 2);
    reactor.dispatch(&vec![
        Completion::new(polls[0].1, -libc::ECANCELED, 0),
        Completion::new(polls[1].1, -libc::ECANCELED, 0),
    ]);
    assert_eq!(reactor.live_count(), 0);
    assert!(registrations.can_release(&reactor));
    registrations.release(&mut reactor);
    assert_eq!(reactor.live_count(), 0);
}

#[test]
fn release_is_refused_for_a_request_without_a_slot() {
    let (_, waker) = counter();
    let context = Context::from_waker(&waker);
    let mut reactor = Reactor::new(8);
    let mut registrations = Readiness::new();
    assert_eq!(registrations.poll_readable(7, &mut reactor, &context), Poll::Pending);
    let other = Reactor::new(8);
    assert!(!registrations.can_release(&other));
    assert!(!registrations.can_poll_readable(&other));
    assert!(registrations.can_release(&reactor));
}

#[test]
fn semaphore_takes_a_permit_or_waits() {
    assert_eq!(semaphore_acquire(0), None);
    assert_eq!(semaphore_acquire(1), Some(0));
    assert_eq!(semaphore_acquire(7), Some(6));
    assert_eq!(semaphore_acquire(u32::MAX), Some(u32::MAX - 1));
}

#[test]
fn semaphore_release_wakes_after_zero() {
    assert!(semaphore_release_wakes(0));
    assert!(!semaphore_release_wakes(1));
    assert!(!semaphore_release_wakes(u32::MAX));
}

#[test]
fn mutex_unlock_wakes_when_it_was_held() {
    assert_eq!(STATE_UNLOCKED, 0);
    assert_eq!(STATE_LOCKED, 1);
    assert!(mutex_unlock_wakes(STATE_LOCKED));
    assert!(!mutex_unlock_wakes(STATE_UNLOCKED));
    assert!(!mutex_unlock_wakes(2));
}

#[test]
fn condition_variable_wakes_the_counted_waiters() {
    assert_eq!(condition_notify_all(0), None);
    assert_eq!(condition_notify_all(1), Some(1));
    assert_eq!(condition_notify_all(12), Some(12));
}
