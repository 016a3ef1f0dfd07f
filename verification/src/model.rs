//! The reactor as contracts see it: the state of every operation it knows
//! of, the entries that wait to be pushed to the kernel, and the steps that
//! lead from one such picture to the next.
use crate::entry::{entry_user_data, linked_entry, tagged_entry, Completion};
use crate::slots::names_index;
use crate::staging::{staged_position, staged_values};
use crate::state::{Allocations, StateView};
use crate::wake::context_waker;
use io_uring::squeue::Entry;
use std::task::{Context, Waker};
use vstd::prelude::*;

verus! {

/// The waker that a context brings along, if a context was given.
pub open spec fn notifier_of(context: Option<&Context>) -> Option<Waker> {
    match context {
        Some(context) => Some(context_waker(*context)),
        None => None,
    }
}

/// One operation of a batch as a poll of the batch finds it: its
/// identifier, and whether its output was produced already.
pub struct Member {
    pub id: u64,
    pub finished: bool,
}

/// The reactor's bookkeeping as contracts see it.
pub struct ReactorView {
    /// The state of every operation that has a slot, under the bits of its
    /// identifier.
    pub states: Map<u64, StateView>,
    /// The entries that were queued and not yet handed on to the kernel,
    /// in the order in which they were queued, each with the bits of its
    /// identifier.
    pub staged: Seq<(u64, Entry)>,
    /// For each entry that waits, whether it was queued as linked to the
    /// entry behind it: a chain ends with an entry that is not.
    pub links: Seq<bool>,
}

impl ReactorView {
    /// A reactor that knows of no operation.
    pub open spec fn empty() -> ReactorView {
        ReactorView { states: Map::empty(), staged: Seq::empty(), links: Seq::empty() }
    }

    /// Whether the operation has a slot.
    pub open spec fn is_live(self, id: u64) -> bool {
        self.states.contains_key(id)
    }

    /// Whether the operation's entry still waits to be pushed to the kernel.
    pub open spec fn is_staged(self, id: u64) -> bool {
        staged_position(self.staged, id).is_some()
    }

    /// Whether the operation has a slot and may be polled.
    pub open spec fn can_poll(self, id: u64) -> bool {
        self.is_live(id) && self.states[id].pollable()
    }

    /// The state of the operation, if it has a slot.
    pub open spec fn slot(self, id: u64) -> Option<StateView> {
        if self.states.contains_key(id) {
            Some(self.states[id])
        } else {
            None
        }
    }

    /// What the reactor keeps true of its bookkeeping at all times.
    pub open spec fn wf(self) -> bool {
        &&& self.states.dom().finite()
        &&& self.links.len() == self.staged.len()
        &&& forall|id: u64| self.states.contains_key(id) ==> names_index(id)
        &&& forall|id: u64|
            self.states.contains_key(id) ==> (#[trigger] self.states[id]).carries(id)
        &&& forall|i: int|
            0 <= i < self.staged.len() ==> {
                &&& self.states.contains_key((#[trigger] self.staged[i]).0)
                &&& entry_user_data(self.staged[i].1) == self.staged[i].0
                &&& self.states[self.staged[i].0].unseen()
            }
        &&& forall|i: int, j: int|
            0 <= i < j < self.staged.len() ==> (#[trigger] self.staged[i]).0 != (
            #[trigger] self.staged[j]).0
    }

    /// The reactor after `entry` was queued under the identifier `id`, on
    /// its own or as linked to the entry that is queued next.
    pub open spec fn queued_as(
        self,
        id: u64,
        entry: Entry,
        notifier: Option<Waker>,
        linked: bool,
    ) -> ReactorView {
        ReactorView {
            states: self.states.insert(id, StateView::initial(notifier)),
            staged: self.staged.push((id, tagged_entry(entry, id))),
            links: self.links.push(linked),
        }
    }

    /// The reactor after `entry` was queued on its own under the
    /// identifier `id`.
    pub open spec fn queued(self, id: u64, entry: Entry, notifier: Option<Waker>) -> ReactorView {
        self.queued_as(id, entry, notifier, false)
    }

    /// The `at`-th entry of a chain as it is queued: every entry but the
    /// last is given the link flag.
    pub open spec fn chain_entry(entries: Seq<Entry>, at: int) -> Entry {
        if at + 1 < entries.len() {
            linked_entry(entries[at])
        } else {
            entries[at]
        }
    }

    /// The `at`-th entry of a chain as the kernel is to see it, with the
    /// identifier that it was queued under and that it carries.
    pub open spec fn chain_link(entries: Seq<Entry>, ids: Seq<u64>, at: int) -> (u64, Entry) {
        (ids[at], tagged_entry(Self::chain_entry(entries, at), ids[at]))
    }

    /// The reactor after the first `upto` entries of a chain were queued
    /// under the identifiers `ids`.
    pub open spec fn chained_upto(
        self,
        ids: Seq<u64>,
        entries: Seq<Entry>,
        notifier: Option<Waker>,
        upto: int,
    ) -> ReactorView {
        ReactorView {
            states: Map::new(
                |id: u64| self.states.contains_key(id) || ids.take(upto).contains(id),
                |id: u64|
                    if ids.take(upto).contains(id) {
                        StateView::initial(notifier)
                    } else {
                        self.states[id]
                    },
            ),
            staged: self.staged + Seq::new(
                upto as nat,
                |at: int| Self::chain_link(entries, ids, at),
            ),
            links: self.links + Seq::new(upto as nat, |at: int| at + 1 < entries.len()),
        }
    }

    /// The reactor after a chain of entries was queued under the
    /// identifiers `ids`: the entries follow those that waited before, in
    /// their order and with nothing between them.
    pub open spec fn chained(self, ids: Seq<u64>, entries: Seq<Entry>, notifier: Option<Waker>)
        -> ReactorView {
        self.chained_upto(ids, entries, notifier, entries.len() as int)
    }

    /// The reactor after the state of `id` was replaced, or its slot freed.
    pub open spec fn with_state(self, id: u64, state: Option<StateView>) -> ReactorView {
        ReactorView {
            states: match state {
                Some(state) => self.states.insert(id, state),
                None => self.states.remove(id),
            },
            staged: self.staged,
            links: self.links,
        }
    }

    /// The reactor after `id` was polled by the task that `notifier` wakes.
    pub open spec fn polled(self, id: u64, notifier: Waker, kept: bool) -> ReactorView {
        self.with_state(id, self.states[id].after_poll(notifier, kept))
    }

    /// Whether `after` is the reactor after `id` was polled by the task that
    /// `notifier` wakes, whether or not a waker that was stored stays.
    pub open spec fn polled_into(self, after: ReactorView, id: u64, notifier: Waker) -> bool {
        after == self.polled(id, notifier, true) || after == self.polled(id, notifier, false)
    }

    /// Whether a member of a batch is through: its output was produced
    /// before, or a completion is there for it.
    pub open spec fn member_ready(self, member: Member) -> bool {
        member.finished || self.states[member.id].poll_result() is Ready
    }

    /// Whether every member of a batch is through.
    pub open spec fn batch_ready(self, members: Seq<Member>) -> bool {
        forall|at: int| 0 <= at < members.len() ==> self.member_ready(#[trigger] members[at])
    }

    /// Whether a poll of a batch gets as far as the member at `at`: all
    /// members before it are through.
    pub open spec fn reaches(self, members: Seq<Member>, at: int) -> bool {
        forall|before: int| 0 <= before < at ==> self.member_ready(#[trigger] members[before])
    }

    /// Whether the members of a batch can be polled: those whose output is
    /// still to come have a slot and may be polled, and no two members
    /// share an identifier.
    pub open spec fn members_pollable(self, members: Seq<Member>) -> bool {
        &&& forall|at: int|
            0 <= at < members.len() && !(#[trigger] members[at]).finished ==> self.can_poll(
                members[at].id,
            )
        &&& forall|i: int, j: int|
            0 <= i < j < members.len() ==> (#[trigger] members[i]).id != (#[trigger] members[j]).id
    }

    /// Whether `after` is the reactor after a batch was polled by the task
    /// that `notifier` wakes. The members are polled in order, those
    /// apart whose output was produced before, and the poll ends with the
    /// first member that is not through. Nothing else changes.
    pub open spec fn batch_polled_into(
        self,
        after: ReactorView,
        members: Seq<Member>,
        notifier: Waker,
    ) -> bool {
        &&& after.staged == self.staged
        &&& after.links == self.links
        &&& forall|id: u64|
            (forall|at: int| 0 <= at < members.len() ==> (#[trigger] members[at]).id != id)
                ==> #[trigger] after.slot(id) == self.slot(id)
        &&& forall|at: int|
            0 <= at < members.len() ==> {
                let member = #[trigger] members[at];
                if !member.finished && self.reaches(members, at) {
                    ||| after.slot(member.id) == self.states[member.id].after_poll(notifier, true)
                    ||| after.slot(member.id) == self.states[member.id].after_poll(
                        notifier,
                        false,
                    )
                } else {
                    after.slot(member.id) == self.slot(member.id)
                }
            }
    }

    /// Whether the members of a batch can be given up: those whose output
    /// is still to come have a slot, and no two members share an
    /// identifier. A member whose output was produced has no slot any
    /// more, and nothing is asked of it.
    pub open spec fn members_droppable(self, members: Seq<Member>) -> bool {
        &&& forall|at: int|
            0 <= at < members.len() && !(#[trigger] members[at]).finished ==> self.is_live(
                members[at].id,
            )
        &&& forall|i: int, j: int|
            0 <= i < j < members.len() ==> (#[trigger] members[i]).id != (#[trigger] members[j]).id
    }

    /// The reactor after a member of a batch was given up: its operation
    /// is ignored with what was handed over for it, unless its output was
    /// produced already, in which case the kernel is done with it and
    /// nothing happens.
    pub open spec fn given_up(self, member: Member, data: Option<Allocations>) -> ReactorView {
        if member.finished {
            self
        } else {
            self.ignored(member.id, data)
        }
    }

    /// The reactor after the members of a batch were given up one after
    /// the other.
    pub open spec fn given_up_all(self, members: Seq<Member>, data: Seq<Option<Allocations>>)
        -> ReactorView
        decreases members.len(),
    {
        if members.len() == 0 {
            self
        } else {
            self.given_up_all(members.drop_last(), data.drop_last()).given_up(
                members.last(),
                data.last(),
            )
        }
    }

    /// Whether the operations have slots, no two of them the same.
    pub open spec fn all_live(self, ids: Seq<u64>) -> bool {
        &&& forall|at: int| 0 <= at < ids.len() ==> self.is_live(#[trigger] ids[at])
        &&& forall|i: int, j: int| 0 <= i < j < ids.len() ==> ids[i] != ids[j]
    }

    /// The reactor after the operations were ignored one after the other,
    /// each with what was handed over for it.
    pub open spec fn ignored_all(self, ids: Seq<u64>, data: Seq<Option<Allocations>>) -> ReactorView
        decreases ids.len(),
    {
        if ids.len() == 0 {
            self
        } else {
            self.ignored_all(ids.drop_last(), data.drop_last()).ignored(ids.last(), data.last())
        }
    }

    /// The reactor after `id` was ignored: an entry that still waits is
    /// taken back together with its slot, and what was handed over with it
    /// is dropped; else the state moves as `StateView::after_ignore` says.
    pub open spec fn ignored(self, id: u64, data: Option<Allocations>) -> ReactorView {
        match staged_position(self.staged, id) {
            Some(at) => ReactorView {
                states: self.states.remove(id),
                staged: self.staged.remove(at),
                links: self.links.remove(at),
            },
            None => self.with_state(id, self.states[id].after_ignore(data)),
        }
    }

    /// The reactor after every waiting entry was handed on to the kernel.
    pub open spec fn drained(self) -> ReactorView {
        ReactorView { states: self.states, staged: Seq::empty(), links: Seq::empty() }
    }

    /// Whether the first `count` entries that wait can be handed on to the
    /// kernel without parting a chain: none is taken, or all are, or the
    /// last one taken is not linked to the one behind it.
    pub open spec fn fits(self, count: int) -> bool {
        &&& 0 <= count <= self.staged.len()
        &&& count == 0 || count == self.staged.len() || !self.links[count - 1]
    }

    /// How many of the entries that wait may be pushed when the kernel's
    /// ring has `free` slots: as many as there is room for, less those of
    /// a chain that would not go in whole.
    pub open spec fn pushable(self, free: int) -> int
        decreases free,
    {
        if free <= 0 {
            0
        } else if free <= self.staged.len() && self.fits(free) {
            free
        } else if free > self.staged.len() {
            self.staged.len() as int
        } else {
            self.pushable(free - 1)
        }
    }

    /// The reactor after the first `count` entries that wait were handed on
    /// to the kernel.
    pub open spec fn pushed(self, count: int) -> ReactorView {
        ReactorView {
            states: self.states,
            staged: self.staged.skip(count),
            links: self.links.skip(count),
        }
    }

    /// The entries that the kernel is handed when the reactor is drained.
    pub open spec fn staged_entries(self) -> Seq<Entry> {
        staged_values(self.staged)
    }

    /// Whether a completion belongs to an operation that has a slot and
    /// whose entry the kernel was handed.
    pub open spec fn routes(self, entry: Completion) -> bool {
        self.is_live(entry.user_data) && !self.is_staged(entry.user_data)
    }

    /// The reactor after a completion has arrived.
    pub open spec fn completed(self, entry: Completion) -> ReactorView {
        self.with_state(
            entry.user_data,
            self.states[entry.user_data].after_completion(entry),
        )
    }

    /// The waker that is signalled when the completion arrives.
    pub open spec fn notified(self, entry: Completion) -> Option<Waker> {
        self.states[entry.user_data].notified()
    }

    /// Whether completions can be dispatched one after the other: each
    /// belongs to an operation that has a slot when its turn comes.
    pub open spec fn routes_all(self, entries: Seq<Completion>) -> bool
        decreases entries.len(),
    {
        entries.len() > 0 ==> {
            &&& self.routes_all(entries.drop_last())
            &&& self.dispatched(entries.drop_last()).routes(entries.last())
        }
    }

    /// The reactor after the completions have arrived in order.
    pub open spec fn dispatched(self, entries: Seq<Completion>) -> ReactorView
        decreases entries.len(),
    {
        if entries.len() == 0 {
            self
        } else {
            self.dispatched(entries.drop_last()).completed(entries.last())
        }
    }
}

/// A key that is staged is the key of the entry at its position.
pub proof fn lemma_staged_position(staged: Seq<(u64, Entry)>, id: u64)
    ensures
        match staged_position(staged, id) {
            Some(at) => 0 <= at < staged.len() && staged[at].0 == id,
            None => forall|i: int| 0 <= i < staged.len() ==> (#[trigger] staged[i]).0 != id,
        },
{
}

/// Queueing an entry under an identifier that names an index and has no
/// slot keeps the bookkeeping well formed.
pub proof fn lemma_queued_wf(
    view: ReactorView,
    id: u64,
    entry: Entry,
    notifier: Option<Waker>,
    linked: bool,
)
    requires
        view.wf(),
        !view.is_live(id),
        names_index(id),
        entry_user_data(tagged_entry(entry, id)) == id,
    ensures
        view.queued_as(id, entry, notifier, linked).wf(),
{
    let after = view.queued_as(id, entry, notifier, linked);
    assert forall|i: int| 0 <= i < view.staged.len() implies #[trigger] after.staged[i]
        == view.staged[i] && view.staged[i].0 != id by {
        assert(view.states.contains_key(view.staged[i].0));
    }
}

/// What the number of entries that may be pushed comes to: all of them
/// where there is room for all, and the number of free slots itself where
/// that many can go without parting a chain.
pub proof fn lemma_pushable(view: ReactorView, free: int)
    requires
        view.links.len() == view.staged.len(),
        0 <= free,
    ensures
        free >= view.staged.len() ==> view.pushable(free) == view.staged.len(),
        free <= view.staged.len() && view.fits(free) ==> view.pushable(free) == free,
        free > 0 && free < view.staged.len() && !view.fits(free) ==> view.pushable(free)
            == view.pushable(free - 1),
        0 <= view.pushable(free) <= free,
        view.fits(view.pushable(free)),
    decreases free,
{
    if free > 0 {
        lemma_pushable(view, free - 1);
    }
}

/// Handing the first entries on to the kernel keeps the bookkeeping well
/// formed.
pub proof fn lemma_pushed_wf(view: ReactorView, count: int)
    requires
        view.wf(),
        0 <= count <= view.staged.len(),
    ensures
        view.pushed(count).wf(),
{
    let after = view.pushed(count);
    assert forall|i: int| 0 <= i < after.staged.len() implies #[trigger] after.staged[i]
        == view.staged[i + count] by {}
}

/// Replacing the state of an operation, or freeing its slot, keeps the
/// bookkeeping well formed, as long as an operation whose entry still
/// waits keeps its slot and stays unseen.
pub proof fn lemma_with_state_wf(view: ReactorView, id: u64, state: Option<StateView>)
    requires
        view.wf(),
        view.is_live(id),
        view.is_staged(id) ==> (state matches Some(next) && next.unseen()),
        state matches Some(next) ==> next.carries(id),
    ensures
        view.with_state(id, state).wf(),
{
    lemma_staged_position(view.staged, id);
}

/// Taking back an entry that still waits, together with its slot, keeps
/// the bookkeeping well formed.
pub proof fn lemma_unstage_wf(view: ReactorView, id: u64)
    requires
        view.wf(),
        view.is_staged(id),
    ensures
        view.ignored(id, None).wf(),
        forall|data: Option<Allocations>|
            #[trigger] view.ignored(id, data) == view.ignored(id, None),
{
    let after = view.ignored(id, None);
    let at = staged_position(view.staged, id).unwrap();
    lemma_staged_position(view.staged, id);
    assert forall|i: int| 0 <= i < after.staged.len() implies #[trigger] after.staged[i]
        == view.staged[if i < at {
        i
    } else {
        i + 1
    }] by {}
}

/// After a chain was queued, each of its operations has a slot and is in
/// the state of an operation that was just queued; every other slot is as
/// it was.
pub proof fn lemma_chained_slots(
    view: ReactorView,
    ids: Seq<u64>,
    entries: Seq<Entry>,
    notifier: Option<Waker>,
)
    requires
        ids.len() == entries.len(),
    ensures
        forall|at: int|
            0 <= at < ids.len() ==> view.chained(ids, entries, notifier).slot(#[trigger] ids[at])
                == Some(StateView::initial(notifier)),
        forall|id: u64|
            !ids.contains(id) ==> #[trigger] view.chained(ids, entries, notifier).slot(id)
                == view.slot(id),
{
    assert(ids.take(entries.len() as int) =~= ids);
}

/// Queueing the next entry of a chain.
pub proof fn lemma_chained_step(
    view: ReactorView,
    ids: Seq<u64>,
    entries: Seq<Entry>,
    notifier: Option<Waker>,
    id: u64,
)
    requires
        ids.len() < entries.len(),
    ensures
        view.chained_upto(ids.push(id), entries, notifier, ids.len() as int + 1)
            == view.chained_upto(ids, entries, notifier, ids.len() as int).queued_as(
            id,
            ReactorView::chain_entry(entries, ids.len() as int),
            notifier,
            ids.len() + 1 < entries.len(),
        ),
{
    let count = ids.len() as int;
    let grown = ids.push(id);
    let after = view.chained_upto(grown, entries, notifier, count + 1);
    let queued = view.chained_upto(ids, entries, notifier, count).queued_as(
        id,
        ReactorView::chain_entry(entries, count),
        notifier,
        count + 1 < entries.len(),
    );
    assert(after.links =~= queued.links);
    assert(grown.take(count + 1) =~= grown);
    assert(ids.take(count) =~= ids);
    assert forall|key: u64| grown.contains(key) <==> (ids.contains(key) || key == id) by {
        if grown.contains(key) {
            let at = choose|at: int| 0 <= at < grown.len() && grown[at] == key;
            assert(at < count ==> ids[at] == key);
        }
        if ids.contains(key) {
            let at = choose|at: int| 0 <= at < ids.len() && ids[at] == key;
            assert(grown[at] == key);
        }
        assert(grown[count] == id);
    }
    assert(after.states =~= queued.states);
    assert(after.staged =~= queued.staged) by {
        assert forall|at: int| 0 <= at < count implies ReactorView::chain_link(entries, grown, at)
            == ReactorView::chain_link(entries, ids, at) by {}
    }
}

/// Ignoring one more operation after others.
pub proof fn lemma_ignored_all_push(
    view: ReactorView,
    ids: Seq<u64>,
    data: Seq<Option<Allocations>>,
    id: u64,
    last: Option<Allocations>,
)
    requires
        ids.len() == data.len(),
    ensures
        view.ignored_all(ids.push(id), data.push(last)) == view.ignored_all(ids, data).ignored(
            id,
            last,
        ),
{
    assert(ids.push(id).drop_last() =~= ids);
    assert(data.push(last).drop_last() =~= data);
}

/// Giving one more member of a batch up after others.
pub proof fn lemma_given_up_all_push(
    view: ReactorView,
    members: Seq<Member>,
    data: Seq<Option<Allocations>>,
    member: Member,
    last: Option<Allocations>,
)
    requires
        members.len() == data.len(),
    ensures
        view.given_up_all(members.push(member), data.push(last)) == view.given_up_all(
            members,
            data,
        ).given_up(member, last),
{
    assert(members.push(member).drop_last() =~= members);
    assert(data.push(last).drop_last() =~= data);
}

/// Ignoring an operation leaves every other operation's slot as it was.
pub proof fn lemma_ignored_frame(view: ReactorView, id: u64, data: Option<Allocations>, other: u64)
    requires
        other != id,
    ensures
        view.ignored(id, data).slot(other) == view.slot(other),
{
}

} // verus!
