//! The reactor: queueing entries, polling for their completions, ignoring
//! operations, and the decisions of the progress engine.
use crate::entry::{entry_user_data, link_entry, Completion, Errno};
use crate::model::{
    lemma_chained_step, lemma_pushable, lemma_pushed_wf, lemma_queued_wf, lemma_staged_position,
    lemma_unstage_wf, lemma_with_state_wf, notifier_of, ReactorView,
};
use crate::slots::{
    arena_get, arena_get_mut, arena_insert, arena_len, arena_remove, arena_states,
    arena_with_capacity, index_bits, names_index,
};
use crate::staging::{
    staged_entries, staged_links, staging_contains, staging_drain, staging_drain_front,
    staging_insert, staging_len, staging_linked_at, staging_shift_remove, staging_with_capacity,
    Staging,
};
use crate::state::{Allocations, OperationState};
use crate::wake::{clone_waker, context_waker, wake, wake_by_ref, waker_of, will_wake};
use io_uring::squeue::Entry;
use std::collections::VecDeque;
use std::task::{Context, Poll, Waker};
use thunderdome::{Arena, Index};
use vstd::prelude::*;

verus! {

/// Reads `libc::ETIME`, the error number with which the kernel reports
/// that a timer has expired. Its value differs between machines.
#[verifier::external_body]
fn timer_expired() -> Errno {
    Errno { code: libc::ETIME }
}

/// Handle to a queued operation: an arena index, whose generation keeps a
/// stale handle from naming a later operation in the same slot.
#[derive(Debug, Clone, Copy)]
#[must_use]
pub struct OperationId(Index);

impl View for OperationId {
    type V = u64;

    /// The bit pattern of the identifier.
    closed spec fn view(&self) -> u64 {
        index_bits(self.0)
    }
}

impl OperationId {
    /// The bit pattern of the identifier, which the kernel carries as user
    /// data from the submission to its completions.
    pub fn to_bits(&self) -> (bits: u64)
        ensures
            bits == self@,
            names_index(bits),
    {
        self.0.to_bits()
    }

    /// Whether a submission entry carries this identifier as its user data.
    pub fn tags(&self, entry: &Entry) -> (tagged: bool)
        ensures
            tagged == (entry_user_data(*entry) == self@),
    {
        entry.get_user_data() == self.0.to_bits()
    }
}

/// Reactor for queueing operations and tracking their completions.
///
/// Entries are held back in a staging buffer until the caller drains them
/// to push them to the kernel, so that an operation that is cancelled
/// before that never reaches the kernel at all.
#[must_use]
pub struct Reactor {
    slots: Arena<OperationState>,
    unsubmitted: Staging,
}

impl View for Reactor {
    type V = ReactorView;

    closed spec fn view(&self) -> ReactorView {
        ReactorView {
            states: arena_states(self.slots).map_values(|state: OperationState| state@),
            staged: staged_entries(self.unsubmitted),
            links: staged_links(self.unsubmitted),
        }
    }
}

impl Reactor {
    /// The reactor's bookkeeping is well formed. This holds of every
    /// reactor that `new` made and that only the methods below changed.
    pub closed spec fn inv(&self) -> bool {
        self@.wf()
    }

    /// What the reactor keeps true of its bookkeeping.
    pub proof fn lemma_inv(self)
        ensures
            self.inv() == self@.wf(),
    {
    }

    /// Make a reactor that knows of no operation, with room set aside for
    /// `entries` of them.
    pub fn new(entries: u32) -> (reactor: Self)
        ensures
            reactor.inv(),
            reactor@ == ReactorView::empty(),
    {
        let capacity = entries as usize;
        let reactor = Reactor {
            slots: arena_with_capacity(capacity),
            unsubmitted: staging_with_capacity(capacity),
        };
        assert(reactor@.states =~= Map::empty());
        reactor
    }

    /// The number of operations that have a slot.
    pub fn live_count(&self) -> (count: usize)
        ensures
            count == self@.states.len(),
    {
        assert(self@.states.dom() =~= arena_states(self.slots).dom());
        arena_len(&self.slots)
    }

    /// The number of entries that wait to be pushed to the kernel.
    pub fn staged_count(&self) -> (count: usize)
        ensures
            count == self@.staged.len(),
    {
        staging_len(&self.unsubmitted)
    }

    /// Queue an entry for submission and return the identifier of its
    /// operation. The entry's user data is overwritten with the bits of
    /// that identifier. With a context, the operation starts out waiting
    /// for the context's task; without, nobody waits for it yet.
    pub fn queue_submission(&mut self, entry: Entry, context: Option<&Context>) -> (id:
        OperationId)
        requires
            old(self).inv(),
            old(self)@.states.len() < u32::MAX,
        ensures
            final(self).inv(),
            !old(self)@.is_live(id@),
            names_index(id@),
            final(self)@ == old(self)@.queued(id@, entry, notifier_of(context)),
            final(self)@.is_live(id@),
            entry_user_data(final(self)@.staged.last().1) == id@,
    {
        self.queue_entry(entry, context, false)
    }

    /// Queue an entry, on its own or as linked to the entry that is queued
    /// next.
    fn queue_entry(&mut self, entry: Entry, context: Option<&Context>, linked: bool) -> (id:
        OperationId)
        requires
            old(self).inv(),
            old(self)@.states.len() < u32::MAX,
        ensures
            final(self).inv(),
            !old(self)@.is_live(id@),
            names_index(id@),
            final(self)@ == old(self)@.queued_as(id@, entry, notifier_of(context), linked),
            final(self)@.is_live(id@),
            entry_user_data(final(self)@.staged.last().1) == id@,
    {
        proof {
            assert(self@.states.dom() =~= arena_states(self.slots).dom());
        }
        let initial = match context {
            Some(context) => OperationState::Waiting(clone_waker(waker_of(context))),
            None => OperationState::Ignored(None),
        };
        let ghost before = self@;
        let index = arena_insert(&mut self.slots, initial);
        let bits = index.to_bits();
        let tagged = entry.user_data(bits);
        proof {
            lemma_staged_position(before.staged, bits);
        }
        staging_insert(&mut self.unsubmitted, bits, tagged, linked);
        proof {
            assert(self@.states =~= before.states.insert(bits, initial@));
            lemma_queued_wf(before, bits, entry, notifier_of(context), linked);
        }
        OperationId(index)
    }

    /// Queue a chain of entries that the kernel is to execute in order,
    /// and return their identifiers in the same order. Every entry but the
    /// last is given the link flag. The entries are staged one after the
    /// other, with nothing between them.
    pub fn queue_chain(&mut self, entries: Vec<Entry>, context: Option<&Context>) -> (ids: Vec<
        OperationId,
    >)
        requires
            old(self).inv(),
            old(self)@.states.len() + entries.len() <= u32::MAX,
        ensures
            final(self).inv(),
            ids.len() == entries.len(),
            forall|i: int| 0 <= i < ids.len() ==> !old(self)@.is_live(#[trigger] ids[i]@),
            forall|i: int, j: int| 0 <= i < j < ids.len() ==> ids[i]@ != ids[j]@,
            final(self)@ == old(self)@.chained(
                ids@.map_values(|id: OperationId| id@),
                entries@,
                notifier_of(context),
            ),
    {
        let ghost before = self@;
        let ghost notifier = notifier_of(context);
        let count = entries.len();
        let mut ids: Vec<OperationId> = Vec::with_capacity(count);
        proof {
            let keys = ids@.map_values(|id: OperationId| id@);
            assert(before.chained_upto(keys, entries@, notifier, 0).states =~= before.states);
        }
        for entry in chain: entries
            invariant
                self.inv(),
                count == chain.seq().len(),
                ids.len() == chain.index(),
                notifier == notifier_of(context),
                before.states.dom().finite(),
                before.states.len() + count <= u32::MAX,
                self@.states.len() == before.states.len() + chain.index(),
                forall|id: u64| before.is_live(id) ==> self@.is_live(id),
                forall|i: int| 0 <= i < ids.len() ==> self@.is_live(#[trigger] ids[i]@),
                forall|i: int| 0 <= i < ids.len() ==> !before.is_live(#[trigger] ids[i]@),
                forall|i: int, j: int| 0 <= i < j < ids.len() ==> ids[i]@ != ids[j]@,
                self@ == before.chained_upto(
                    ids@.map_values(|id: OperationId| id@),
                    chain.seq(),
                    notifier,
                    chain.index() as int,
                ),
        {
            let ghost keys = ids@.map_values(|id: OperationId| id@);
            let ghost so_far = self@;
            let linked = ids.len() + 1 < count;
            let entry = if linked {
                link_entry(entry)
            } else {
                entry
            };
            let id = self.queue_entry(entry, context, linked);
            ids.push(id);
            proof {
                lemma_chained_step(before, keys, chain.seq(), notifier, id@);
                assert(ids@.map_values(|id: OperationId| id@) =~= keys.push(id@));
            }
        }
        ids
    }

    /// Whether the operation has a slot.
    pub fn is_live(&self, id: OperationId) -> (live: bool)
        ensures
            live == self@.is_live(id@),
    {
        arena_get(&self.slots, id.0).is_some()
    }

    /// Whether the operation has a slot and may be polled.
    pub fn can_poll(&self, id: OperationId) -> (pollable: bool)
        ensures
            pollable == self@.can_poll(id@),
    {
        match arena_get(&self.slots, id.0) {
            Some(OperationState::Ignored(Some(_))) => false,
            Some(_) => true,
            None => false,
        }
    }

    /// Take the oldest completion that is held for the operation, if there
    /// is one, and say whether the polling task is to be woken at once
    /// because more completions stay behind it.
    ///
    /// The slot is freed with the last completion unless more are
    /// announced. Where no completion is handed out, or more are
    /// announced, the context's task is the one to be woken from now on.
    pub fn take_completion(&mut self, id: OperationId, context: &Context) -> (taken: (
        Poll<Completion>,
        bool,
    ))
        requires
            old(self).inv(),
            old(self)@.can_poll(id@),
        ensures
            final(self).inv(),
            taken.0 == old(self)@.states[id@].poll_result(),
            taken.1 == old(self)@.states[id@].poll_rewakes(),
            taken.0 matches Poll::Ready(entry) ==> entry.user_data == id@,
            old(self)@.polled_into(final(self)@, id@, context_waker(*context)),
            final(self)@.states.len() <= old(self)@.states.len(),
    {
        let ghost before = self@;
        let ghost notifier = context_waker(*context);
        proof {
            lemma_with_state_wf(before, id@, before.states[id@].after_poll(notifier, true));
            lemma_with_state_wf(before, id@, before.states[id@].after_poll(notifier, false));
        }
        let current = waker_of(context);
        let index = id.0;
        let slot = arena_get_mut(&mut self.slots, index);
        let taken = match slot {
            OperationState::Waiting(stored) => {
                if !will_wake(stored, current) {
                    *stored = clone_waker(current);
                }
                (Poll::Pending, false)
            },
            OperationState::Completed(entry) => {
                let entry = *entry;
                if entry.more() {
                    *slot = OperationState::Waiting(clone_waker(current));
                } else {
                    arena_remove(&mut self.slots, index);
                }
                (Poll::Ready(entry), false)
            },
            OperationState::Buffering(entries) => {
                match entries.pop_front() {
                    None => (Poll::Pending, false),
                    Some(entry) => {
                        let rewake = entries.len() > 0;
                        if !rewake {
                            if entry.more() {
                                *slot = OperationState::Waiting(clone_waker(current));
                            } else {
                                arena_remove(&mut self.slots, index);
                            }
                        }
                        (Poll::Ready(entry), rewake)
                    },
                }
            },
            OperationState::Ignored(_) => {
                *slot = OperationState::Waiting(clone_waker(current));
                (Poll::Pending, false)
            },
        };
        proof {
            let kept = before.polled(id@, notifier, true);
            let replaced = before.polled(id@, notifier, false);
            assert(self@.states =~= kept.states || self@.states =~= replaced.states);
            assert(self@.states.dom() =~= before.states.dom() || self@.states.dom()
                =~= before.states.dom().remove(id@));
        }
        taken
    }

    /// Poll for a completion of the operation.
    ///
    /// A completion that is held is handed out, the oldest first; the slot
    /// is freed with the last one unless more are announced. Else the
    /// answer is pending, and the context's task is the one to be woken
    /// from now on. Where completions stay behind the one handed out, the
    /// task is woken at once.
    pub fn poll_completion(&mut self, id: OperationId, context: &Context) -> (progress: Poll<
        Completion,
    >)
        requires
            old(self).inv(),
            old(self)@.can_poll(id@),
        ensures
            final(self).inv(),
            progress == old(self)@.states[id@].poll_result(),
            progress matches Poll::Ready(entry) ==> entry.user_data == id@,
            old(self)@.polled_into(final(self)@, id@, context_waker(*context)),
            final(self)@.states.len() <= old(self)@.states.len(),
    {
        let (progress, rewake) = self.take_completion(id, context);
        if rewake {
            wake_by_ref(waker_of(context));
        }
        progress
    }

    /// Whether the operation's entry still waits to be pushed to the kernel.
    pub fn is_staged(&self, id: OperationId) -> (staged: bool)
        ensures
            staged == self@.is_staged(id@),
    {
        staging_contains(&self.unsubmitted, id.0.to_bits())
    }

    /// Mark an operation as ignored.
    ///
    /// An entry that still waits is taken back and its slot freed at once:
    /// the kernel never learns of it, and `data` is dropped. Else the
    /// operation is from now on ignored and `data` is kept alive for it,
    /// unless its final completion has arrived already, in which case the
    /// slot is freed and `data` dropped.
    pub fn ignore_operation(&mut self, id: OperationId, data: Option<Allocations>)
        requires
            old(self).inv(),
            old(self)@.is_live(id@),
        ensures
            final(self).inv(),
            final(self)@ == old(self)@.ignored(id@, data),
    {
        let ghost before = self@;
        let index = id.0;
        let bits = index.to_bits();
        proof {
            lemma_staged_position(before.staged, bits);
            if before.is_staged(bits) {
                lemma_unstage_wf(before, bits);
            } else {
                lemma_with_state_wf(before, bits, before.states[bits].after_ignore(data));
            }
        }
        if staging_shift_remove(&mut self.unsubmitted, bits).is_some() {
            arena_remove(&mut self.slots, index);
            assert(self@.states =~= before.ignored(bits, data).states);
            return ;
        }
        let slot = arena_get_mut(&mut self.slots, index);
        let mut previous = OperationState::Ignored(data);
        std::mem::swap(slot, &mut previous);
        let settled = match previous {
            OperationState::Waiting(_) => false,
            OperationState::Ignored(_) => false,
            OperationState::Completed(entry) => !entry.more(),
            OperationState::Buffering(entries) => {
                let held = entries.len();
                held > 0 && !entries[held - 1].more()
            },
        };
        if settled {
            arena_remove(&mut self.slots, index);
        }
        assert(self@.states =~= before.ignored(bits, data).states);
    }

    /// Hand out every entry that waits, in the order in which they were
    /// queued, for the caller to push them to the kernel's submission ring.
    /// Each carries the bits of its operation's identifier as user data.
    pub fn take_unsubmitted(&mut self) -> (entries: Vec<Entry>)
        requires
            old(self).inv(),
        ensures
            final(self).inv(),
            final(self)@ == old(self)@.drained(),
            entries@ == old(self)@.staged_entries(),
            forall|i: int|
                0 <= i < entries.len() ==> entry_user_data(#[trigger] entries[i]) == old(
                    self,
                )@.staged[i].0 && old(self)@.is_live(old(self)@.staged[i].0),
    {
        let ghost before = self@;
        let entries = staging_drain(&mut self.unsubmitted);
        proof {
            assert forall|i: int| 0 <= i < entries.len() implies entry_user_data(
                #[trigger] entries[i],
            ) == before.staged[i].0 && before.is_live(before.staged[i].0) by {
                assert(before.states.contains_key(before.staged[i].0));
            }
        }
        entries
    }

    /// How many of the entries that wait may be pushed when the kernel's
    /// submission ring has `free` slots: as many as there is room for, less
    /// those of a chain that would not go in whole.
    pub fn pushable(&self, free: usize) -> (count: usize)
        requires
            self.inv(),
        ensures
            count == self@.pushable(free as int),
            count <= free,
            self@.fits(count as int),
    {
        let waiting = staging_len(&self.unsubmitted);
        if free >= waiting {
            proof {
                lemma_pushable(self@, free as int);
            }
            return waiting;
        }
        let mut count = free;
        while count > 0 && staging_linked_at(&self.unsubmitted, count - 1)
            invariant
                self.inv(),
                waiting == self@.staged.len(),
                count <= free < waiting,
                self@.pushable(free as int) == self@.pushable(count as int),
            decreases count,
        {
            count = count - 1;
        }
        proof {
            lemma_pushable(self@, count as int);
        }
        count
    }

    /// Hand out the entries that may be pushed when the kernel's submission
    /// ring has `free` slots, in the order in which they were queued. A
    /// chain is handed out whole or stays behind.
    pub fn take_pushable(&mut self, free: usize) -> (entries: Vec<Entry>)
        requires
            old(self).inv(),
        ensures
            final(self).inv(),
            entries.len() == old(self)@.pushable(free as int),
            entries.len() <= free,
            old(self)@.fits(entries.len() as int),
            entries@ == old(self)@.staged_entries().take(entries.len() as int),
            final(self)@ == old(self)@.pushed(entries.len() as int),
    {
        let ghost before = self@;
        let count = self.pushable(free);
        let entries = staging_drain_front(&mut self.unsubmitted, count);
        proof {
            lemma_pushed_wf(before, count as int);
            assert(entries@ =~= before.staged_entries().take(count as int));
        }
        entries
    }

    /// How many completions the kernel is asked to wait for: one if nothing
    /// was pushed and no completion is there to be read, else none.
    pub fn wanted_completions(pushed: usize, completions_empty: bool) -> (wanted: usize)
        ensures
            wanted == if pushed == 0 && completions_empty {
                1usize
            } else {
                0usize
            },
    {
        if pushed == 0 && completions_empty {
            1
        } else {
            0
        }
    }

    /// Whether an error of the kernel's submit call reports no more than
    /// that the time to wait has passed, which is no failure.
    pub fn timeout_passed(raw_os_error: Option<i32>) -> (passed: bool)
        ensures
            raw_os_error.is_none() ==> !passed,
    {
        timer_expired().reported_by(raw_os_error)
    }

    /// Whether a completion belongs to an operation that has a slot and
    /// whose entry was handed on to the kernel.
    pub fn routes(&self, entry: &Completion) -> (routed: bool)
        requires
            self.inv(),
        ensures
            routed == self@.routes(*entry),
    {
        match Index::from_bits(entry.user_data) {
            Some(index) => arena_get(&self.slots, index).is_some() && !staging_contains(
                &self.unsubmitted,
                entry.user_data,
            ),
            None => false,
        }
    }

    /// Take in one completion and return the waker that is to be
    /// signalled for it, if a task waits.
    ///
    /// A waiting operation holds the completion from now on. Further
    /// completions queue up behind one that was not taken. For an ignored
    /// operation the completion is dropped, and with the final one the
    /// slot is freed together with what was kept alive in it.
    pub fn complete(&mut self, entry: Completion) -> (notify: Option<Waker>)
        requires
            old(self).inv(),
            old(self)@.routes(entry),
        ensures
            final(self).inv(),
            final(self)@ == old(self)@.completed(entry),
            notify == old(self)@.notified(entry),
    {
        let ghost before = self@;
        proof {
            lemma_with_state_wf(
                before,
                entry.user_data,
                before.states[entry.user_data].after_completion(entry),
            );
        }
        let index = match Index::from_bits(entry.user_data) {
            Some(index) => index,
            None => {
                proof {
                    assert(false);
                }
                return None;
            },
        };
        let slot = arena_get_mut(&mut self.slots, index);
        let notify = match slot {
            OperationState::Waiting(_) => {
                let mut previous = OperationState::Completed(entry);
                std::mem::swap(slot, &mut previous);
                match previous {
                    OperationState::Waiting(waker) => Some(waker),
                    _ => None,
                }
            },
            OperationState::Completed(held) => {
                let mut entries = VecDeque::with_capacity(2);
                entries.push_back(*held);
                entries.push_back(entry);
                assert(entries@ =~= seq![*held, entry]);
                *slot = OperationState::Buffering(entries);
                None
            },
            OperationState::Buffering(entries) => {
                entries.push_back(entry);
                None
            },
            OperationState::Ignored(_) => {
                if !entry.more() {
                    arena_remove(&mut self.slots, index);
                }
                None
            },
        };
        assert(self@.states =~= before.completed(entry).states);
        notify
    }

    /// Take in completions in the order in which the kernel delivered them,
    /// and signal the waiting task of each. Stops at the first that
    /// belongs to no operation; returns how many were taken in.
    pub fn dispatch(&mut self, entries: &[Completion]) -> (handled: usize)
        requires
            old(self).inv(),
        ensures
            final(self).inv(),
            handled <= entries.len(),
            old(self)@.routes_all(entries@.take(handled as int)),
            final(self)@ == old(self)@.dispatched(entries@.take(handled as int)),
            handled < entries.len() ==> !final(self)@.routes(entries[handled as int]),
    {
        let ghost before = self@;
        let mut handled: usize = 0;
        while handled < entries.len()
            invariant
                self.inv(),
                handled <= entries.len(),
                before.routes_all(entries@.take(handled as int)),
                self@ == before.dispatched(entries@.take(handled as int)),
            ensures
                handled <= entries.len(),
                handled < entries.len() ==> !self@.routes(entries[handled as int]),
            decreases entries.len() - handled,
        {
            let entry = entries[handled];
            if !self.routes(&entry) {
                break ;
            }
            let notify = self.complete(entry);
            if let Some(waker) = notify {
                wake(waker);
            }
            proof {
                let next = entries@.take(handled + 1);
                assert(next.drop_last() =~= entries@.take(handled as int));
            }
            handled = handled + 1;
        }
        handled
    }
}

} // verus!
