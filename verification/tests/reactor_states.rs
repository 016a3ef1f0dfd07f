use io_uring::opcode;
use io_uring::squeue::Entry;
use std::sync::atomic::{AtomicUsize, Ordering};
use std::sync::Arc;
use std::task::{Context, Poll, Wake, Waker};
use uring_playground::entry::Completion;
use uring_playground::reactor::{OperationId, Reactor};
use uring_playground::state::Allocations;

struct Counter {
    woken: AtomicUsize,
}

impl Wake for Counter {
    fn wake(self: Arc<Self>) {
        self.woken.fetch_add(1, Ordering::SeqCst);
    }
}

fn counter() -> (Arc<Counter>, Waker) {
    let counter = Arc::new(Counter { woken: AtomicUsize::new(0) });
    (counter.clone(), Waker::from(counter))
}

fn woken(counter: &Arc<Counter>) -> usize {
    counter.woken.load(Ordering::SeqCst)
}

struct Watched {
    dropped: Arc<AtomicUsize>,
}

impl Drop for Watched {
    fn drop(&mut self) {
        self.dropped.fetch_add(1, Ordering::SeqCst);
    }
}

fn watched() -> (Arc<AtomicUsize>, Option<Allocations>) {
    let dropped = Arc::new(AtomicUsize::new(0));
    let data: Allocations = Box::new(Watched { dropped: dropped.clone() });
    (dropped, Some(data))
}

fn nop() -> Entry {
    opcode::Nop::new().build()
}

fn done(id: OperationId) -> Completion {
    Completion::new(id.to_bits(), 0, 0)
}

fn partial(id: OperationId, result: i32) -> Completion {
    Completion::new(id.to_bits(), result, 2)
}

#[test]
fn new_reactor_is_empty() {
    let reactor = Reactor::new(64);
    assert_eq!(reactor.live_count(), 0);
    assert_eq!(reactor.staged_count(), 0);
    let zero = Reactor::new(0);
    assert_eq!(zero.live_count(), 0);
    assert_eq!(zero.staged_count(), 0);
}

#[test]
fn queue_makes_a_live_staged_slot() {
    let (_, waker) = counter();
    let context = Context::from_waker(&waker);
    let mut reactor = Reactor::new(2);
    let id = reactor.queue_submission(nop(), Some(&context));
    assert!(reactor.is_live(id));
    assert!(reactor.is_staged(id));
    assert!(reactor.can_poll(id));
    assert_eq!(reactor.live_count(), 1);
    assert_eq!(reactor.staged_count(), 1);
}

#[test]
fn queue_grows_past_the_capacity_given() {
    let mut reactor = Reactor::new(1);
    let ids: Vec<OperationId> = (0..10).map(|_| reactor.queue_submission(nop(), None)).collect();
    assert_eq!(reactor.live_count(), 10);
    assert_eq!(reactor.staged_count(), 10);
    for id in &ids {
        assert!(reactor.is_live(*id));
    }
    let entries = reactor.take_unsubmitted();
    for (entry, id) in entries.iter().zip(&ids) {
        assert_eq!(entry.get_user_data(), id.to_bits());
    }
}

#[test]
fn take_unsubmitted_keeps_the_order_and_the_slots() {
    let mut reactor = Reactor::new(4);
    let first = reactor.queue_submission(nop(), None);
    let second = reactor.queue_submission(nop(), None);
    let third = reactor.queue_submission(nop(), None);
    let entries = reactor.take_unsubmitted();
    let seen: Vec<u64> = entries.iter().map(|entry| entry.get_user_data()).collect();
    assert_eq!(seen, vec![first.to_bits(), second.to_bits(), third.to_bits()]);
    assert_eq!(reactor.staged_count(), 0);
    assert_eq!(reactor.live_count(), 3);
    assert!(!reactor.is_staged(first));
    assert!(reactor.is_live(first));
    assert!(reactor.take_unsubmitted().is_empty());
}

#[test]
fn poll_of_a_waiting_operation_is_pending() {
    let (_, waker) = counter();
    let context = Context::from_waker(&waker);
    let mut reactor = Reactor::new(2);
    let id = reactor.queue_submission(nop(), Some(&context));
    assert!(matches!(reactor.poll_completion(id, &context), Poll::Pending));
    assert!(matches!(reactor.poll_completion(id, &context), Poll::Pending));
    assert!(reactor.is_live(id));
}

#[test]
fn poll_replaces_the_waker_of_another_task() {
    let (first_counter, first_waker) = counter();
    let (second_counter, second_waker) = counter();
    let first = Context::from_waker(&first_waker);
    let second = Context::from_waker(&second_waker);
    let mut reactor = Reactor::new(2);
    let id = reactor.queue_submission(nop(), Some(&first));
    reactor.take_unsubmitted();
    assert!(matches!(reactor.poll_completion(id, &second), Poll::Pending));
    assert_eq!(reactor.dispatch(&vec![done(id)]), 1);
    assert_eq!(woken(&first_counter), 0);
    assert_eq!(woken(&second_counter), 1);
}

#[test]
fn completion_wakes_the_queueing_task() {
    let (counter, waker) = counter();
    let context = Context::from_waker(&waker);
    let mut reactor = Reactor::new(2);
    let id = reactor.queue_submission(nop(), Some(&context));
    reactor.take_unsubmitted();
    assert_eq!(woken(&counter), 0);
    assert_eq!(reactor.dispatch(&vec![done(id)]), 1);
    assert_eq!(woken(&counter), 1);
}

#[test]
fn complete_returns_the_waker_to_signal() {
    let (counter, waker) = counter();
    let context = Context::from_waker(&waker);
    let mut reactor = Reactor::new(2);
    let id = reactor.queue_submission(nop(), Some(&context));
    reactor.take_unsubmitted();
    let notify = reactor.complete(partial(id, 1));
    assert_eq!(woken(&counter), 0);
    notify.expect("a task waits").wake();
    assert_eq!(woken(&counter), 1);
    assert!(reactor.complete(partial(id, 2)).is_none());
    assert!(reactor.complete(done(id)).is_none());
    assert_eq!(woken(&counter), 1);
}

#[test]
fn final_completion_is_handed_out_and_frees_the_slot() {
    let (_, waker) = counter();
    let context = Context::from_waker(&waker);
    let mut reactor = Reactor::new(2);
    let id = reactor.queue_submission(nop(), Some(&context));
    reactor.take_unsubmitted();
    reactor.dispatch(&vec![Completion::new(id.to_bits(), 7, 0)]);
    match reactor.poll_completion(id, &context) {
        Poll::Ready(entry) => assert_eq!(entry, Completion::new(id.to_bits(), 7, 0)),
        Poll::Pending => panic!("a completion is held"),
    }
    assert!(!reactor.is_live(id));
    assert!(!reactor.can_poll(id));
    assert_eq!(reactor.live_count(), 0);
}

#[test]
fn completion_that_announces_more_keeps_the_slot() {
    let (counter, waker) = counter();
    let context = Context::from_waker(&waker);
    let mut reactor = Reactor::new(2);
    let id = reactor.queue_submission(nop(), Some(&context));
    reactor.take_unsubmitted();
    reactor.dispatch(&vec![partial(id, 1)]);
    assert!(matches!(reactor.poll_completion(id, &context), Poll::Ready(entry) if entry.result() == 1));
    assert!(reactor.is_live(id));
    assert!(matches!(reactor.poll_completion(id, &context), Poll::Pending));
    reactor.dispatch(&vec![done(id)]);
    assert_eq!(woken(&counter), 2);
    assert!(matches!(reactor.poll_completion(id, &context), Poll::Ready(entry) if entry.result() == 0));
    assert!(!reactor.is_live(id));
}

#[test]
fn buffered_completions_come_out_oldest_first() {
    let (counter, waker) = counter();
    let context = Context::from_waker(&waker);
    let mut reactor = Reactor::new(2);
    let id = reactor.queue_submission(nop(), Some(&context));
    reactor.take_unsubmitted();
    let handled = reactor.dispatch(&vec![partial(id, 10), partial(id, 20), done(id)]);
    assert_eq!(handled, 3);
    assert_eq!(woken(&counter), 1);

    assert!(matches!(reactor.poll_completion(id, &context), Poll::Ready(entry) if entry.result() == 10));
    assert_eq!(woken(&counter), 2);
    assert!(reactor.is_live(id));
    assert!(matches!(reactor.poll_completion(id, &context), Poll::Ready(entry) if entry.result() == 20));
    assert_eq!(woken(&counter), 3);
    assert!(reactor.is_live(id));
    assert!(matches!(reactor.poll_completion(id, &context), Poll::Ready(entry) if entry.result() == 0));
    assert_eq!(woken(&counter), 3);
    assert!(!reactor.is_live(id));
}

#[test]
fn take_completion_says_when_the_task_is_to_be_woken_again() {
    let (counter, waker) = counter();
    let context = Context::from_waker(&waker);
    let mut reactor = Reactor::new(2);
    let id = reactor.queue_submission(nop(), Some(&context));
    reactor.take_unsubmitted();
    assert_eq!(reactor.take_completion(id, &context), (Poll::Pending, false));
    reactor.dispatch(&vec![partial(id, 1), partial(id, 2), done(id)]);
    let before = woken(&counter);
    assert_eq!(reactor.take_completion(id, &context), (Poll::Ready(partial(id, 1)), true));
    assert_eq!(reactor.take_completion(id, &context), (Poll::Ready(partial(id, 2)), true));
    assert_eq!(reactor.take_completion(id, &context), (Poll::Ready(done(id)), false));
    assert_eq!(woken(&counter), before);
    assert!(!reactor.is_live(id));
}

#[test]
fn take_completion_of_a_single_completion_wakes_nobody() {
    let (_, waker) = counter();
    let context = Context::from_waker(&waker);
    let mut reactor = Reactor::new(2);
    let id = reactor.queue_submission(nop(), Some(&context));
    reactor.take_unsubmitted();
    reactor.dispatch(&vec![partial(id, 5)]);
    assert_eq!(reactor.take_completion(id, &context), (Poll::Ready(partial(id, 5)), false));
    assert!(reactor.is_live(id));
    assert_eq!(reactor.take_completion(id, &context), (Poll::Pending, false));
}

#[test]
fn last_buffered_completion_that_announces_more_leaves_a_waiting_slot() {
    let (counter, waker) = counter();
    let context = Context::from_waker(&waker);
    let mut reactor = Reactor::new(2);
    let id = reactor.queue_submission(nop(), Some(&context));
    reactor.take_unsubmitted();
    reactor.dispatch(&vec![partial(id, 1), partial(id, 2)]);
    assert!(matches!(reactor.poll_completion(id, &context), Poll::Ready(entry) if entry.result() == 1));
    assert!(matches!(reactor.poll_completion(id, &context), Poll::Ready(entry) if entry.result() == 2));
    assert!(reactor.is_live(id));
    assert!(matches!(reactor.poll_completion(id, &context), Poll::Pending));
    let before = woken(&counter);
    reactor.dispatch(&vec![done(id)]);
    assert_eq!(woken(&counter), before + 1);
    assert!(matches!(reactor.poll_completion(id, &context), Poll::Ready(entry) if entry.result() == 0));
    assert!(!reactor.is_live(id));
}

#[test]
fn operation_queued_without_a_waiter_can_be_awaited_later() {
    let (counter, waker) = counter();
    let context = Context::from_waker(&waker);
    let mut reactor = Reactor::new(2);
    let id = reactor.queue_submission(nop(), None);
    reactor.take_unsubmitted();
    assert!(reactor.can_poll(id));
    assert!(matches!(reactor.poll_completion(id, &context), Poll::Pending));
    reactor.dispatch(&vec![done(id)]);
    assert_eq!(woken(&counter), 1);
    assert!(matches!(reactor.poll_completion(id, &context), Poll::Ready(_)));
    assert!(!reactor.is_live(id));
}

#[test]
fn unawaited_operation_is_freed_by_its_last_completion() {
    let mut reactor = Reactor::new(2);
    let id = reactor.queue_submission(nop(), None);
    reactor.take_unsubmitted();
    reactor.dispatch(&vec![partial(id, 1)]);
    assert!(reactor.is_live(id));
    reactor.dispatch(&vec![done(id)]);
    assert!(!reactor.is_live(id));
    assert_eq!(reactor.live_count(), 0);
}

#[test]
fn ignore_of_a_staged_operation_removes_it() {
    let (dropped, data) = watched();
    let mut reactor = Reactor::new(2);
    let id = reactor.queue_submission(nop(), None);
    reactor.ignore_operation(id, data);
    assert_eq!(dropped.load(Ordering::SeqCst), 1);
    assert!(!reactor.is_live(id));
    assert!(!reactor.is_staged(id));
    assert_eq!(reactor.live_count(), 0);
    assert_eq!(reactor.staged_count(), 0);
    assert!(reactor.take_unsubmitted().is_empty());
}

#[test]
fn ignore_of_a_staged_operation_keeps_the_order_of_the_others() {
    let mut reactor = Reactor::new(4);
    let first = reactor.queue_submission(nop(), None);
    let second = reactor.queue_submission(nop(), None);
    let third = reactor.queue_submission(nop(), None);
    let fourth = reactor.queue_submission(nop(), None);
    reactor.ignore_operation(second, None);
    assert_eq!(reactor.staged_count(), 3);
    assert!(reactor.is_staged(first) && reactor.is_staged(third) && reactor.is_staged(fourth));
    let seen: Vec<u64> = reactor
        .take_unsubmitted()
        .iter()
        .map(|entry| entry.get_user_data())
        .collect();
    assert_eq!(seen, vec![first.to_bits(), third.to_bits(), fourth.to_bits()]);
}

#[test]
fn ignore_of_a_submitted_operation_keeps_the_data_until_the_last_completion() {
    let (counter, waker) = counter();
    let context = Context::from_waker(&waker);
    let (dropped, data) = watched();
    let mut reactor = Reactor::new(2);
    let id = reactor.queue_submission(nop(), Some(&context));
    reactor.take_unsubmitted();
    reactor.ignore_operation(id, data);
    assert_eq!(dropped.load(Ordering::SeqCst), 0);
    assert!(reactor.is_live(id));
    assert!(!reactor.can_poll(id));

    reactor.dispatch(&vec![partial(id, 1)]);
    assert_eq!(dropped.load(Ordering::SeqCst), 0);
    assert!(reactor.is_live(id));

    reactor.dispatch(&vec![done(id)]);
    assert_eq!(dropped.load(Ordering::SeqCst), 1);
    assert!(!reactor.is_live(id));
    assert_eq!(woken(&counter), 0);
}

#[test]
fn ignore_after_the_last_completion_frees_at_once() {
    let (_, waker) = counter();
    let context = Context::from_waker(&waker);
    let (dropped, data) = watched();
    let mut reactor = Reactor::new(2);
    let id = reactor.queue_submission(nop(), Some(&context));
    reactor.take_unsubmitted();
    reactor.dispatch(&vec![done(id)]);
    reactor.ignore_operation(id, data);
    assert!(!reactor.is_live(id));
    assert_eq!(dropped.load(Ordering::SeqCst), 1);
}

#[test]
fn ignore_with_a_held_completion_that_announces_more_keeps_the_slot() {
    let (_, waker) = counter();
    let context = Context::from_waker(&waker);
    let (dropped, data) = watched();
    let mut reactor = Reactor::new(2);
    let id = reactor.queue_submission(nop(), Some(&context));
    reactor.take_unsubmitted();
    reactor.dispatch(&vec![partial(id, 1)]);
    reactor.ignore_operation(id, data);
    assert!(reactor.is_live(id));
    assert_eq!(dropped.load(Ordering::SeqCst), 0);
    reactor.dispatch(&vec![done(id)]);
    assert!(!reactor.is_live(id));
    assert_eq!(dropped.load(Ordering::SeqCst), 1);
}

#[test]
fn ignore_while_buffering_goes_by_the_last_completion() {
    let (_, waker) = counter();
    let context = Context::from_waker(&waker);
    let mut reactor = Reactor::new(4);

    let open = reactor.queue_submission(nop(), Some(&context));
    let closed = reactor.queue_submission(nop(), Some(&context));
    reactor.take_unsubmitted();
    reactor.dispatch(&vec![
        partial(open, 1),
        partial(open, 2),
        partial(closed, 1),
        done(closed),
    ]);

    let (open_dropped, open_data) = watched();
    reactor.ignore_operation(open, open_data);
    assert!(reactor.is_live(open));
    assert_eq!(open_dropped.load(Ordering::SeqCst), 0);

    let (closed_dropped, closed_data) = watched();
    reactor.ignore_operation(closed, closed_data);
    assert!(!reactor.is_live(closed));
    assert_eq!(closed_dropped.load(Ordering::SeqCst), 1);

    reactor.dispatch(&vec![done(open)]);
    assert!(!reactor.is_live(open));
    assert_eq!(open_dropped.load(Ordering::SeqCst), 1);
}

#[test]
fn ignoring_again_replaces_what_is_kept() {
    let (first_dropped, first_data) = watched();
    let (second_dropped, second_data) = watched();
    let mut reactor = Reactor::new(2);
    let id = reactor.queue_submission(nop(), None);
    reactor.take_unsubmitted();
    reactor.ignore_operation(id, first_data);
    assert_eq!(first_dropped.load(Ordering::SeqCst), 0);
    reactor.ignore_operation(id, second_data);
    assert_eq!(first_dropped.load(Ordering::SeqCst), 1);
    assert_eq!(second_dropped.load(Ordering::SeqCst), 0);
    assert!(reactor.is_live(id));
    reactor.dispatch(&vec![done(id)]);
    assert_eq!(second_dropped.load(Ordering::SeqCst), 1);
}

#[test]
fn dispatch_stops_at_a_completion_of_no_operation() {
    let (_, waker) = counter();
    let context = Context::from_waker(&waker);
    let mut reactor = Reactor::new(4);
    let id = reactor.queue_submission(nop(), Some(&context));
    reactor.take_unsubmitted();
    let stray = Completion::new(id.to_bits() ^ (1 << 40), 0, 0);
    assert!(!reactor.routes(&stray));
    assert!(reactor.routes(&done(id)));
    let handled = reactor.dispatch(&vec![partial(id, 1), stray, done(id)]);
    assert_eq!(handled, 1);
    assert!(reactor.is_live(id));
    assert!(matches!(reactor.poll_completion(id, &context), Poll::Ready(entry) if entry.result() == 1));
}

#[test]
fn completions_with_bits_of_no_index_are_not_routed() {
    let mut reactor = Reactor::new(4);
    let id = reactor.queue_submission(nop(), None);
    reactor.take_unsubmitted();
    assert!(!reactor.routes(&Completion::new(0, 0, 0)));
    assert!(!reactor.routes(&Completion::new(id.to_bits() & 0xffff_ffff, 0, 0)));
    assert_eq!(reactor.dispatch(&vec![Completion::new(7, 0, 0)]), 0);
    assert!(reactor.is_live(id));
}

#[test]
fn completion_of_a_staged_entry_is_not_routed() {
    let mut reactor = Reactor::new(4);
    let id = reactor.queue_submission(nop(), None);
    assert!(!reactor.routes(&done(id)));
    assert_eq!(reactor.dispatch(&vec![done(id)]), 0);
    assert!(reactor.is_live(id));
    reactor.take_unsubmitted();
    assert!(reactor.routes(&done(id)));
}

#[test]
fn completion_after_the_slot_was_freed_is_not_routed() {
    let mut reactor = Reactor::new(4);
    let id = reactor.queue_submission(nop(), None);
    reactor.take_unsubmitted();
    assert_eq!(reactor.dispatch(&vec![done(id), done(id)]), 1);
    assert!(!reactor.routes(&done(id)));
}

#[test]
fn stale_identifier_does_not_name_the_next_operation_in_its_slot() {
    let mut reactor = Reactor::new(1);
    let old = reactor.queue_submission(nop(), None);
    reactor.ignore_operation(old, None);
    let new = reactor.queue_submission(nop(), None);
    assert_eq!(old.to_bits() & 0xffff_ffff, new.to_bits() & 0xffff_ffff);
    assert_ne!(old.to_bits(), new.to_bits());
    assert!(!reactor.is_live(old));
    assert!(reactor.is_live(new));
    reactor.take_unsubmitted();
    assert_eq!(reactor.dispatch(&vec![done(old)]), 0);
    assert!(reactor.is_live(new));
}

#[test]
fn queue_chain_links_all_but_the_last() {
    let mut reactor = Reactor::new(4);
    let alone = reactor.queue_submission(nop(), None);
    let ids = reactor.queue_chain(vec![nop(), nop(), nop()], None);
    assert_eq!(ids.len(), 3);
    let entries = reactor.take_unsubmitted();
    assert_eq!(entries.len(), 4);
    assert_eq!(entries[0].get_user_data(), alone.to_bits());
    for (entry, id) in entries[1..].iter().zip(&ids) {
        assert_eq!(entry.get_user_data(), id.to_bits());
    }
    let shown: Vec<String> = entries.iter().map(|entry| format!("{entry:?}")).collect();
    assert!(shown[0].contains("flags: 0"), "{}", shown[0]);
    assert!(shown[1].contains("flags: 4"), "{}", shown[1]);
    assert!(shown[2].contains("flags: 4"), "{}", shown[2]);
    assert!(shown[3].contains("flags: 0"), "{}", shown[3]);
}

#[test]
fn pushable_counts_single_entries_up_to_the_free_slots() {
    let mut reactor = Reactor::new(4);
    assert_eq!(reactor.pushable(0), 0);
    assert_eq!(reactor.pushable(3), 0);
    for _ in 0..3 {
        reactor.queue_submission(nop(), None);
    }
    assert_eq!(reactor.pushable(0), 0);
    assert_eq!(reactor.pushable(1), 1);
    assert_eq!(reactor.pushable(2), 2);
    assert_eq!(reactor.pushable(3), 3);
    assert_eq!(reactor.pushable(4), 3);
    assert_eq!(reactor.pushable(usize::MAX), 3);
}

#[test]
fn pushable_never_ends_inside_a_chain() {
    let mut reactor = Reactor::new(4);
    reactor.queue_submission(nop(), None);
    reactor.queue_chain(vec![nop(), nop(), nop()], None);
    reactor.queue_submission(nop(), None);
    assert_eq!(reactor.pushable(0), 0);
    assert_eq!(reactor.pushable(1), 1);
    assert_eq!(reactor.pushable(2), 1);
    assert_eq!(reactor.pushable(3), 1);
    assert_eq!(reactor.pushable(4), 4);
    assert_eq!(reactor.pushable(5), 5);
    assert_eq!(reactor.pushable(6), 5);
}

#[test]
fn take_pushable_hands_a_chain_out_whole_or_not_at_all() {
    let mut reactor = Reactor::new(4);
    let alone = reactor.queue_submission(nop(), None);
    let ids = reactor.queue_chain(vec![nop(), nop(), nop()], None);

    let first = reactor.take_pushable(2);
    assert_eq!(first.len(), 1);
    assert!(alone.tags(&first[0]));
    assert_eq!(reactor.staged_count(), 3);
    assert!(!reactor.is_staged(alone));
    assert!(reactor.is_live(alone));

    assert!(reactor.take_pushable(2).is_empty());
    assert!(reactor.take_pushable(0).is_empty());
    assert_eq!(reactor.staged_count(), 3);

    let chain = reactor.take_pushable(3);
    assert_eq!(chain.len(), 3);
    for (entry, id) in chain.iter().zip(&ids) {
        assert!(id.tags(entry));
    }
    assert!(format!("{:?}", chain[0]).contains("flags: 4"));
    assert!(format!("{:?}", chain[1]).contains("flags: 4"));
    assert!(format!("{:?}", chain[2]).contains("flags: 0"));
    assert_eq!(reactor.staged_count(), 0);
    assert_eq!(reactor.live_count(), 4);
    assert!(reactor.take_pushable(8).is_empty());
}

#[test]
fn take_pushable_takes_what_fits_of_several_chains() {
    let mut reactor = Reactor::new(4);
    let first = reactor.queue_chain(vec![nop(), nop()], None);
    let second = reactor.queue_chain(vec![nop(), nop()], None);
    assert_eq!(reactor.pushable(1), 0);
    assert_eq!(reactor.pushable(3), 2);
    let taken = reactor.take_pushable(3);
    assert_eq!(taken.len(), 2);
    assert!(first[0].tags(&taken[0]) && first[1].tags(&taken[1]));
    let rest = reactor.take_pushable(2);
    assert_eq!(rest.len(), 2);
    assert!(second[0].tags(&rest[0]) && second[1].tags(&rest[1]));
}

#[test]
fn pushable_follows_entries_that_were_taken_back() {
    let mut reactor = Reactor::new(4);
    let ids = reactor.queue_chain(vec![nop(), nop(), nop()], None);
    reactor.ignore_operation(ids[1], None);
    assert_eq!(reactor.staged_count(), 2);
    assert_eq!(reactor.pushable(1), 0);
    assert_eq!(reactor.pushable(2), 2);
    reactor.ignore_operation(ids[2], None);
    assert_eq!(reactor.pushable(1), 1);
    let taken = reactor.take_pushable(1);
    assert!(ids[0].tags(&taken[0]));
}

#[test]
fn queue_chain_of_one_or_none() {
    let mut reactor = Reactor::new(4);
    assert!(reactor.queue_chain(Vec::new(), None).is_empty());
    assert_eq!(reactor.staged_count(), 0);
    let ids = reactor.queue_chain(vec![nop()], None);
    assert_eq!(ids.len(), 1);
    let entries = reactor.take_unsubmitted();
    assert_eq!(entries.len(), 1);
    assert!(format!("{:?}", entries[0]).contains("flags: 0"));
    assert!(ids[0].tags(&entries[0]));
}

#[test]
fn staging_and_ignoring_many_leaves_nothing() {
    let mut reactor = Reactor::new(8);
    let ids: Vec<OperationId> = (0..100).map(|_| reactor.queue_submission(nop(), None)).collect();
    assert_eq!(reactor.live_count(), 100);
    assert_eq!(reactor.staged_count(), 100);
    for id in ids.iter().rev().step_by(2) {
        reactor.ignore_operation(*id, None);
    }
    assert_eq!(reactor.live_count(), 50);
    for id in ids.iter().rev().skip(1).step_by(2) {
        reactor.ignore_operation(*id, None);
    }
    assert_eq!(reactor.live_count(), 0);
    assert_eq!(reactor.staged_count(), 0);
    assert!(reactor.take_unsubmitted().is_empty());
}

#[test]
fn ignore_of_a_staged_operation_is_as_if_never_queued() {
    let mut reactor = Reactor::new(4);
    let kept = reactor.queue_submission(nop(), None);
    let gone = reactor.queue_submission(nop(), None);
    reactor.ignore_operation(gone, None);
    assert_eq!(reactor.live_count(), 1);
    assert_eq!(reactor.staged_count(), 1);
    assert!(reactor.is_live(kept) && reactor.is_staged(kept));
    let entries = reactor.take_unsubmitted();
    assert_eq!(entries.len(), 1);
    assert!(kept.tags(&entries[0]));
    assert!(!gone.tags(&entries[0]));
}
