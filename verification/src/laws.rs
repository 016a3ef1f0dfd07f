//! What holds of the reactor's bookkeeping across its steps, stated over
//! the picture that the contracts of the steps use.
use crate::entry::{entry_user_data, linked_entry, tagged_entry, Completion};
use crate::model::{lemma_staged_position, lemma_unstage_wf, ReactorView};
use crate::staging::staged_position;
use crate::state::{Allocations, StateView};
use io_uring::squeue::Entry;
use std::task::{Poll, Waker};
use vstd::prelude::*;

verus! {

/// An operation that was just queued has a slot, and queueing it takes no
/// other operation's slot away.
pub proof fn law_queue_keeps_slots(
    view: ReactorView,
    id: u64,
    entry: Entry,
    notifier: Option<Waker>,
    other: u64,
)
    ensures
        view.queued(id, entry, notifier).is_live(id),
        view.is_live(other) ==> view.queued(id, entry, notifier).is_live(other),
{
}

/// A poll frees the polled operation's slot exactly when it hands out the
/// last completion that is held and that completion announces no more.
/// Once the slot is freed the operation cannot be polled again. No poll
/// frees the slot of another operation.
pub proof fn law_poll_frees_drained_slot(
    view: ReactorView,
    id: u64,
    notifier: Waker,
    kept: bool,
    other: u64,
)
    requires
        view.can_poll(id),
    ensures
        ({
            let after = view.polled(id, notifier, kept);
            &&& !after.is_live(id) <==> (match view.states[id] {
                StateView::Completed(entry) => !entry.has_more(),
                StateView::Buffering(entries) => entries.len() == 1 && !entries[0].has_more(),
                _ => false,
            })
            &&& !after.is_live(id) ==> (view.states[id].poll_result() matches Poll::Ready(entry)
                && !entry.has_more())
            &&& !after.is_live(id) ==> !after.can_poll(id)
            &&& other != id ==> after.slot(other) == view.slot(other)
        }),
{
}

/// A completion frees a slot only if the operation is ignored and the
/// completion is its last; the slot of another operation is never
/// touched.
pub proof fn law_completion_frees_ignored_slot(view: ReactorView, entry: Completion, other: u64)
    requires
        view.routes(entry),
    ensures
        ({
            let id = entry.user_data;
            &&& !view.completed(entry).is_live(id) <==> (view.states[id] is Ignored
                && !entry.has_more())
            &&& other != id ==> view.completed(entry).slot(other) == view.slot(other)
        }),
{
}

/// No slot is freed while the kernel owes the operation a completion.
/// Where a poll or an ignore frees a slot, the kernel never saw the
/// operation's entry, or the last completion that is held announces no
/// more. Where a completion frees a slot, it is that completion which
/// announces no more.
pub proof fn law_freed_slot_is_owed_nothing(
    view: ReactorView,
    id: u64,
    notifier: Waker,
    kept: bool,
    data: Option<Allocations>,
    entry: Completion,
)
    requires
        view.wf(),
        view.is_live(id),
    ensures
        view.can_poll(id) && !view.polled(id, notifier, kept).is_live(id)
            ==> view.states[id].settled(),
        !view.ignored(id, data).is_live(id) ==> view.is_staged(id) || view.states[id].settled(),
        entry.user_data == id && !view.completed(entry).is_live(id) ==> !entry.has_more(),
{
    lemma_staged_position(view.staged, id);
}

/// No slot is kept once the operation's last completion was taken. Where
/// the completions that are held came as the kernel sends them, a poll
/// that hands out one that announces no more frees the slot; so does
/// ignoring an operation whose last completion is held, and so does the
/// last completion of an ignored operation.
pub proof fn law_last_completion_frees_slot(
    view: ReactorView,
    id: u64,
    notifier: Waker,
    kept: bool,
    data: Option<Allocations>,
    entry: Completion,
)
    requires
        view.wf(),
        view.is_live(id),
        view.states[id].orderly(),
    ensures
        view.can_poll(id) && (view.states[id].poll_result() matches Poll::Ready(taken)
            && !taken.has_more()) ==> !view.polled(id, notifier, kept).is_live(id),
        view.states[id].settled() ==> !view.ignored(id, data).is_live(id),
        entry.user_data == id && view.states[id] is Ignored && !entry.has_more()
            ==> !view.completed(entry).is_live(id),
{
    lemma_staged_position(view.staged, id);
    if let StateView::Buffering(entries) = view.states[id] {
        if entries.len() > 1 {
            assert(entries[0].has_more());
        }
    }
}

/// Completions that come as the kernel sends them are held in that
/// order: a state that is orderly stays so when it is polled, and when a
/// completion arrives while the last one that is held announces more.
pub proof fn law_steps_keep_order(state: StateView, notifier: Waker, kept: bool, entry: Completion)
    requires
        state.orderly(),
    ensures
        state.after_poll(notifier, kept) matches Some(next) ==> next.orderly(),
        !state.settled() && (state matches StateView::Buffering(entries) ==> entries.len() > 0)
            ==> (state.after_completion(entry) matches Some(next) ==> next.orderly()),
{
    match state {
        StateView::Buffering(entries) => {
            if entries.len() > 1 {
                let rest = entries.drop_first();
                assert forall|at: int| 0 <= at < rest.len() - 1 implies (
                #[trigger] rest[at]).has_more() by {
                    assert(rest[at] == entries[at + 1]);
                }
            }
            if entries.len() > 0 && !state.settled() {
                let grown = entries.push(entry);
                assert forall|at: int| 0 <= at < grown.len() - 1 implies (
                #[trigger] grown[at]).has_more() by {
                    assert(grown[at] == entries[at]);
                }
            }
        },
        StateView::Completed(previous) => {
            if !state.settled() {
                let grown = seq![previous, entry];
                assert forall|at: int| 0 <= at < grown.len() - 1 implies (
                #[trigger] grown[at]).has_more() by {
                    assert(grown[at] == previous);
                }
            }
        },
        _ => {},
    }
}

/// Every entry that waits carries the bits of its operation's identifier
/// as user data, and so does every entry that is handed on to the
/// kernel when the reactor is drained.
pub proof fn law_entries_carry_identifier(view: ReactorView, at: int)
    requires
        view.wf(),
        0 <= at < view.staged.len(),
    ensures
        entry_user_data(view.staged[at].1) == view.staged[at].0,
        view.staged_entries()[at] == view.staged[at].1,
        view.is_live(view.staged[at].0),
{
}

/// A chain of entries reaches the kernel in one piece: behind what waited
/// before stand the chain's entries, in their order and with nothing
/// between them, each but the last with the link flag, and draining the
/// reactor hands them on in that order.
pub proof fn law_chain_is_contiguous(
    view: ReactorView,
    ids: Seq<u64>,
    entries: Seq<Entry>,
    notifier: Option<Waker>,
    at: int,
)
    requires
        ids.len() == entries.len(),
        0 <= at < entries.len(),
    ensures
        view.chained(ids, entries, notifier).staged.len() == view.staged.len() + entries.len(),
        view.chained(ids, entries, notifier).staged.take(view.staged.len() as int) == view.staged,
        view.chained(ids, entries, notifier).staged[view.staged.len() + at].0 == ids[at],
        view.chained(ids, entries, notifier).staged_entries()[view.staged.len() + at]
            == tagged_entry(
            if at + 1 < entries.len() {
                linked_entry(entries[at])
            } else {
                entries[at]
            },
            ids[at],
        ),
{
    assert(view.chained(ids, entries, notifier).staged.take(view.staged.len() as int)
        =~= view.staged);
}

/// A chain goes to the kernel whole or not at all: of a reactor whose last
/// entries are a chain, no number of entries that may be handed on ends
/// inside the chain.
pub proof fn law_chain_is_pushed_whole(
    view: ReactorView,
    ids: Seq<u64>,
    entries: Seq<Entry>,
    notifier: Option<Waker>,
    count: int,
)
    requires
        view.wf(),
        ids.len() == entries.len(),
        view.chained(ids, entries, notifier).fits(count),
    ensures
        count <= view.staged.len() || count == view.staged.len() + entries.len(),
{
    let after = view.chained(ids, entries, notifier);
    if view.staged.len() < count < view.staged.len() + entries.len() {
        assert(after.links[count - 1]);
    }
}

/// Ignoring an operation whose entry still waits is as if it had never
/// been queued: the reactor is back where it was before.
pub proof fn law_ignore_staged_undoes_queue(
    view: ReactorView,
    id: u64,
    entry: Entry,
    notifier: Option<Waker>,
    data: Option<Allocations>,
)
    requires
        view.wf(),
        !view.is_live(id),
    ensures
        view.queued(id, entry, notifier).is_staged(id),
        view.queued(id, entry, notifier).ignored(id, data) == view,
{
    let queued = view.queued(id, entry, notifier);
    let last = view.staged.len() as int;
    assert(queued.staged[last].0 == id);
    assert forall|at: int| 0 <= at < last implies (#[trigger] queued.staged[at]).0 != id by {
        assert(view.states.contains_key(view.staged[at].0));
    }
    lemma_staged_position(queued.staged, id);
    let after = queued.ignored(id, data);
    assert(after.staged =~= view.staged);
    assert(after.states =~= view.states);
    assert(after.links =~= view.links);
}

/// Whether no entry has been handed on to the kernel: every operation that
/// has a slot has its entry waiting.
pub open spec fn nothing_submitted(view: ReactorView) -> bool {
    forall|id: u64| #[trigger] view.is_live(id) ==> view.is_staged(id)
}

/// Queueing keeps it true that nothing has been handed on to the kernel.
pub proof fn law_queue_submits_nothing(
    view: ReactorView,
    id: u64,
    entry: Entry,
    notifier: Option<Waker>,
)
    requires
        view.wf(),
        nothing_submitted(view),
    ensures
        nothing_submitted(view.queued(id, entry, notifier)),
{
    let queued = view.queued(id, entry, notifier);
    assert forall|key: u64| queued.is_live(key) implies queued.is_staged(key) by {
        if key == id {
            assert(queued.staged[view.staged.len() as int].0 == id);
        } else {
            assert(view.is_live(key));
            lemma_staged_position(view.staged, key);
            let at = staged_position(view.staged, key).unwrap();
            assert(queued.staged[at] == view.staged[at]);
        }
    }
}

/// Ignoring operations of which the kernel knows nothing takes them out
/// without a trace: the others keep their slots and stay unknown to the
/// kernel.
pub proof fn lemma_ignore_unsubmitted(
    view: ReactorView,
    ids: Seq<u64>,
    data: Seq<Option<Allocations>>,
)
    requires
        view.wf(),
        nothing_submitted(view),
        ids.len() == data.len(),
        ids.no_duplicates(),
        forall|at: int| 0 <= at < ids.len() ==> view.is_live(#[trigger] ids[at]),
    ensures
        view.ignored_all(ids, data).wf(),
        nothing_submitted(view.ignored_all(ids, data)),
        forall|id: u64| #[trigger]
            view.ignored_all(ids, data).is_live(id) <==> view.is_live(id) && !ids.contains(id),
    decreases ids.len(),
{
    if ids.len() > 0 {
        let rest = ids.drop_last();
        let before = view.ignored_all(rest, data.drop_last());
        let id = ids.last();
        lemma_ignore_unsubmitted(view, rest, data.drop_last());
        assert forall|key: u64| ids.contains(key) <==> rest.contains(key) || key == id by {
            if ids.contains(key) && key != id {
                let at = choose|at: int| 0 <= at < ids.len() && ids[at] == key;
                assert(rest[at] == key);
            }
            if rest.contains(key) {
                let at = choose|at: int| 0 <= at < rest.len() && rest[at] == key;
                assert(ids[at] == key);
            }
            assert(ids[ids.len() - 1] == id);
        }
        assert(!rest.contains(id)) by {
            if rest.contains(id) {
                let at = choose|at: int| 0 <= at < rest.len() && rest[at] == id;
                assert(ids[at] == ids[ids.len() - 1]);
            }
        }
        assert(before.is_live(id));
        lemma_unstage_wf(before, id);
        lemma_staged_position(before.staged, id);
        let after = before.ignored(id, data.last());
        let position = staged_position(before.staged, id).unwrap();
        assert forall|key: u64| after.is_live(key) implies after.is_staged(key) by {
            assert(before.is_live(key));
            lemma_staged_position(before.staged, key);
            let at = staged_position(before.staged, key).unwrap();
            let moved = if at < position {
                at
            } else {
                at - 1
            };
            assert(after.staged[moved] == before.staged[at]);
        }
        assert forall|key: u64| after.is_live(key) <==> view.is_live(key) && !ids.contains(
            key,
        ) by {
            assert(after.is_live(key) <==> before.is_live(key) && key != id);
        }
    }
}

/// Queueing entries and then ignoring every one of them, with none handed
/// on to the kernel in between, leaves no slot and no waiting entry.
pub proof fn law_ignoring_all_staged_leaves_nothing(
    view: ReactorView,
    ids: Seq<u64>,
    data: Seq<Option<Allocations>>,
)
    requires
        view.wf(),
        nothing_submitted(view),
        ids.len() == data.len(),
        ids.no_duplicates(),
        forall|id: u64| #[trigger] view.is_live(id) <==> ids.contains(id),
    ensures
        view.ignored_all(ids, data) == ReactorView::empty(),
{
    assert forall|at: int| 0 <= at < ids.len() implies view.is_live(#[trigger] ids[at]) by {
        assert(ids.contains(ids[at]));
    }
    lemma_ignore_unsubmitted(view, ids, data);
    let after = view.ignored_all(ids, data);
    assert forall|id: u64| !after.states.contains_key(id) by {
        assert(after.is_live(id) <==> view.is_live(id) && !ids.contains(id));
    }
    assert(after.states =~= Map::empty());
    assert(after.staged.len() == 0) by {
        if after.staged.len() > 0 {
            assert(after.states.contains_key(after.staged[0].0));
        }
    }
    assert(after.staged =~= Seq::empty());
    assert(after.links =~= Seq::empty());
}

} // verus!
