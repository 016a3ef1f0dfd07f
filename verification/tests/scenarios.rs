use io_uring::squeue::Entry;
use std::sync::atomic::{AtomicUsize, Ordering};
use std::sync::Arc;
use std::task::{Context, Poll, Wake, Waker};
use std::time::Duration;
use uring_playground::batch::{Batch, BatchExt, Link2, Single};
use uring_playground::entry::{Completion, Errno};
use uring_playground::operation::{LinkTimeout, Nop, Oneshot, Operation, OperationExt};
use uring_playground::reactor::Reactor;
use uring_playground::state::Allocations;

struct Counter {
    woken: AtomicUsize,
}

impl Wake for Counter {
    fn wake(self: Arc<Self>) {
        self.woken.fetch_add(1, Ordering::SeqCst);
    }
}

fn counter() -> (Arc<Counter>, Waker) {
    let counter = Arc::new(Counter { woken: AtomicUsize::new(0) });
    (counter.clone(), Waker::from(counter))
}

struct Buffer {
    bytes: Vec<u8>,
    freed: Arc<AtomicUsize>,
}

impl Drop for Buffer {
    fn drop(&mut self) {
        self.freed.fetch_add(1, Ordering::SeqCst);
    }
}

struct Reading {
    buffer: Option<Buffer>,
}

impl Operation for Reading {
    type Output = Result<usize, Errno>;

    fn build_submission(&mut self) -> Entry {
        io_uring::opcode::Nop::new().build()
    }

    fn handle_completion(&mut self, entry: Completion) -> Self::Output {
        entry.outcome().map(|count| count as usize)
    }

    fn take_required_allocations(&mut self) -> Option<Allocations> {
        self.buffer.take().map(|buffer| {
            let data: Allocations = Box::new(buffer);
            data
        })
    }
}

impl Oneshot for Reading {}

fn reading(capacity: usize) -> (Arc<AtomicUsize>, Reading) {
    let freed = Arc::new(AtomicUsize::new(0));
    let buffer = Buffer { bytes: Vec::with_capacity(capacity), freed: freed.clone() };
    assert!(buffer.bytes.capacity() >= capacity);
    (freed, Reading { buffer: Some(buffer) })
}

#[test]
fn trivial_no_op() {
    let (counter, waker) = counter();
    let context = Context::from_waker(&waker);
    let mut reactor = Reactor::new(64);
    let mut submission = Nop::new().into_batch().build_submission();

    assert!(matches!(submission.poll(&mut reactor, &context), Poll::Pending));
    let entries = reactor.take_unsubmitted();
    assert_eq!(entries.len(), 1);
    assert_eq!(Reactor::wanted_completions(entries.len(), true), 0);

    let completion = Completion::new(entries[0].get_user_data(), 0, 0);
    assert!(completion.result() >= 0);
    assert_eq!(reactor.dispatch(&vec![completion]), 1);
    assert_eq!(counter.woken.load(Ordering::SeqCst), 1);

    assert!(matches!(submission.poll(&mut reactor, &context), Poll::Ready(())));
    assert_eq!(reactor.live_count(), 0);
}

#[test]
fn linked_pair() {
    let (_, waker) = counter();
    let context = Context::from_waker(&waker);
    let mut reactor = Reactor::new(64);
    let mut submission = Nop::new().link_with(Nop::new()).build_submission();

    assert!(matches!(submission.poll(&mut reactor, &context), Poll::Pending));
    let entries = reactor.take_unsubmitted();
    assert_eq!(entries.len(), 2);
    assert!(format!("{:?}", entries[0]).contains("flags: 4"));
    assert!(format!("{:?}", entries[1]).contains("flags: 0"));

    let completions = vec![
        Completion::new(entries[0].get_user_data(), 0, 0),
        Completion::new(entries[1].get_user_data(), 0, 0),
    ];
    assert_eq!(reactor.dispatch(&completions), 2);
    assert!(matches!(submission.poll(&mut reactor, &context), Poll::Ready(((), ()))));
    assert_eq!(reactor.live_count(), 0);
}

#[test]
fn link_timeout_with_fast_predecessor() {
    let (_, waker) = counter();
    let context = Context::from_waker(&waker);
    let mut reactor = Reactor::new(64);
    let (_, read) = reading(512);
    let mut link = Link2::new(read, LinkTimeout::relative(Duration::from_secs(5)));
    let handle = link.submit_entries(&mut reactor, Some(&context));
    let entries = reactor.take_unsubmitted();
    assert_eq!(entries.len(), 2);
    assert!(format!("{:?}", entries[0]).contains("flags: 4"));
    assert_eq!(entries[1].get_opcode(), u32::from(io_uring::opcode::LinkTimeout::CODE));

    reactor.dispatch(&vec![
        Completion::new(handle.0.to_bits(), 100, 0),
        Completion::new(handle.1.to_bits(), -libc::ECANCELED, 0),
    ]);
    match link.poll_progress(handle, &mut reactor, &context) {
        Poll::Ready((first, second)) => {
            assert_eq!(first, Ok(100));
            assert_eq!(second, Err(Errno { code: libc::ECANCELED }));
        }
        Poll::Pending => panic!("both completions were dispatched"),
    }
}

#[test]
fn link_timeout_with_slow_predecessor() {
    let (_, waker) = counter();
    let context = Context::from_waker(&waker);
    let mut reactor = Reactor::new(64);
    let (_, read) = reading(512);
    let mut link = Link2::new(read, LinkTimeout::relative(Duration::from_secs(5)));
    let handle = link.submit_entries(&mut reactor, Some(&context));
    reactor.take_unsubmitted();

    reactor.dispatch(&vec![
        Completion::new(handle.0.to_bits(), -libc::ECANCELED, 0),
        Completion::new(handle.1.to_bits(), -libc::ETIME, 0),
    ]);
    match link.poll_progress(handle, &mut reactor, &context) {
        Poll::Ready((first, second)) => {
            assert_eq!(first, Err(Errno { code: libc::ECANCELED }));
            assert_eq!(second, Err(Errno { code: libc::ETIME }));
        }
        Poll::Pending => panic!("both completions were dispatched"),
    }
    assert_eq!(reactor.live_count(), 0);
}

#[test]
fn premature_drop_post_submission() {
    let (_, waker) = counter();
    let context = Context::from_waker(&waker);
    let mut reactor = Reactor::new(64);
    let (freed, read) = reading(1 << 20);
    let mut submission = Single::new(read).build_submission();

    assert!(matches!(submission.poll(&mut reactor, &context), Poll::Pending));
    let entries = reactor.take_unsubmitted();
    assert_eq!(entries.len(), 1);

    assert!(submission.can_drop(&reactor));
    submission.cancel(&mut reactor);
    drop(submission);
    assert_eq!(freed.load(Ordering::SeqCst), 0);
    assert_eq!(reactor.live_count(), 1);

    let completion = Completion::new(entries[0].get_user_data(), 4096, 0);
    assert_eq!(reactor.dispatch(&vec![completion]), 1);
    assert_eq!(freed.load(Ordering::SeqCst), 1);
    assert_eq!(reactor.live_count(), 0);
}

#[test]
fn multishot_completions() {
    let (_, waker) = counter();
    let context = Context::from_waker(&waker);
    let mut reactor = Reactor::new(64);
    let id = reactor.queue_submission(io_uring::opcode::Nop::new().build(), Some(&context));
    reactor.take_unsubmitted();

    let bits = id.to_bits();
    reactor.dispatch(&vec![
        Completion::new(bits, 1, 2),
        Completion::new(bits, 2, 2),
        Completion::new(bits, 3, 0),
    ]);
    assert_eq!(reactor.poll_completion(id, &context), Poll::Ready(Completion::new(bits, 1, 2)));
    assert_eq!(reactor.poll_completion(id, &context), Poll::Ready(Completion::new(bits, 2, 2)));
    assert!(reactor.is_live(id));
    assert_eq!(reactor.poll_completion(id, &context), Poll::Ready(Completion::new(bits, 3, 0)));
    assert!(!reactor.is_live(id));
    assert_eq!(reactor.live_count(), 0);
}

#[test]
fn multishot_completions_taken_one_by_one() {
    let (_, waker) = counter();
    let context = Context::from_waker(&waker);
    let mut reactor = Reactor::new(64);
    let id = reactor.queue_submission(io_uring::opcode::Nop::new().build(), Some(&context));
    reactor.take_unsubmitted();
    let bits = id.to_bits();

    for (result, flags) in [(1, 2), (2, 2), (3, 0)] {
        assert!(reactor.is_live(id));
        assert_eq!(reactor.dispatch(&vec![Completion::new(bits, result, flags)]), 1);
        assert_eq!(
            reactor.poll_completion(id, &context),
            Poll::Ready(Completion::new(bits, result, flags))
        );
    }
    assert!(!reactor.is_live(id));
}

#[test]
fn cancellation_from_staging() {
    let (counter, waker) = counter();
    let context = Context::from_waker(&waker);
    let mut reactor = Reactor::new(64);
    let id = reactor.queue_submission(io_uring::opcode::Nop::new().build(), Some(&context));
    reactor.ignore_operation(id, None);

    let entries = reactor.take_unsubmitted();
    assert!(entries.iter().all(|entry| !id.tags(entry)));
    assert!(entries.is_empty());
    assert_eq!(Reactor::wanted_completions(entries.len(), true), 1);
    assert_eq!(reactor.dispatch(&Vec::new()), 0);
    assert_eq!(reactor.live_count(), 0);
    assert_eq!(counter.woken.load(Ordering::SeqCst), 0);
}
