//! Chains of two to five operations that the kernel executes in order.
//!
//! The entries of a chain are queued one behind the other, each but the
//! last with the link flag. The kernel starts an operation of the chain
//! when the one before it has completed, and cancels the rest when one
//! fails.
use crate::batch::definition::Batch;
use crate::model::{
    lemma_chained_slots, lemma_given_up_all_push, notifier_of, Member, ReactorView,
};
use crate::operation::definition::Oneshot;
use crate::operation::wrapper::StashOutput;
use crate::reactor::{OperationId, Reactor};
use crate::state::Allocations;
use crate::wake::context_waker;
use io_uring::squeue::Entry;
use std::task::{Context, Poll, Waker};
use vstd::prelude::*;

verus! {

/// A member of a batch as a poll finds it.
pub open spec fn member_of<O: Oneshot>(member: StashOutput<O>, id: OperationId) -> Member {
    Member { id: id@, finished: member.stashed().is_some() }
}

/// Whether a member of a batch that is through may hand `output` out: the
/// output that it kept, or else what its operation makes of the
/// completion that the reactor holds for it.
pub open spec fn member_yields<O: Oneshot>(
    member: StashOutput<O>,
    id: OperationId,
    reactor: ReactorView,
    output: O::Output,
) -> bool {
    match member.stashed() {
        Some(kept) => output == kept,
        None => reactor.states[id@].poll_result() matches Poll::Ready(entry)
            && member.inner().completes(entry, output),
    }
}

/// Whether a member of a batch that is given up may hand `data` over to be
/// kept alive: nothing once its output is there, else what its operation
/// hands out.
pub open spec fn member_retains<O: Oneshot>(member: StashOutput<O>, data: Option<Allocations>)
    -> bool {
    if member.stashed().is_some() {
        data.is_none()
    } else {
        member.inner().retains(data)
    }
}

/// Poll one member of a batch, unless its output is there already, and
/// let it keep the output that a completion brings. Returns whether the
/// member is through.
fn poll_member<O: Oneshot>(
    member: &mut StashOutput<O>,
    id: OperationId,
    reactor: &mut Reactor,
    context: &Context,
) -> (ready: bool)
    requires
        old(member).sound(),
        old(reactor).inv(),
        old(member).stashed().is_none() ==> old(reactor)@.can_poll(id@) && old(
            member,
        ).inner().awaits(),
    ensures
        final(member).sound(),
        final(reactor).inv(),
        ready == final(member).stashed().is_some(),
        !ready ==> final(member).inner() == old(member).inner(),
        ready == old(reactor)@.member_ready(member_of(*old(member), id)),
        final(member).stashed() matches Some(output) ==> member_yields(
            *old(member),
            id,
            old(reactor)@,
            output,
        ),
        old(member).stashed().is_some() ==> final(reactor)@ == old(reactor)@
            && final(member).stashed() == old(member).stashed(),
        old(member).stashed().is_none() ==> old(reactor)@.polled_into(
            final(reactor)@,
            id@,
            context_waker(*context),
        ),
{
    if member.not_finished() {
        match reactor.poll_completion(id, context) {
            Poll::Ready(entry) => {
                member.handle_completion(entry);
                true
            },
            Poll::Pending => false,
        }
    } else {
        true
    }
}

/// Give one member of a batch up, unless its output is there already:
/// the reactor ignores its operation and takes over what the operation
/// needs kept alive. A member whose output is there has no slot any more
/// and holds nothing that the kernel could still touch.
fn drop_member<O: Oneshot>(member: &mut StashOutput<O>, id: OperationId, reactor: &mut Reactor)
    -> (data: Ghost<Option<Allocations>>)
    requires
        old(member).sound(),
        old(reactor).inv(),
        old(member).stashed().is_none() ==> old(reactor)@.is_live(id@),
    ensures
        final(member).sound(),
        final(reactor).inv(),
        final(member).stashed() == old(member).stashed(),
        member_retains(*old(member), data@),
        final(reactor)@ == old(reactor)@.given_up(member_of(*old(member), id), data@),
{
    if member.not_finished() {
        let data = member.take_required_allocations();
        let ghost handed = data;
        reactor.ignore_operation(id, data);
        Ghost(handed)
    } else {
        Ghost(None)
    }
}

/// Two operations that the kernel executes one after the other.
#[must_use]
pub struct Link2<A: Oneshot, B: Oneshot> {
    first: StashOutput<A>,
    second: StashOutput<B>,
}

/// The handle of a chain of two: the identifiers of its operations, in
/// their order.
pub type Handle2 = (OperationId, OperationId);

impl<A: Oneshot, B: Oneshot> Link2<A, B> {
    /// The first operation of the chain.
    pub closed spec fn first(&self) -> StashOutput<A> {
        self.first
    }

    /// The second operation of the chain.
    pub closed spec fn second(&self) -> StashOutput<B> {
        self.second
    }

    /// Whether each operation's output was produced and is kept.
    pub open spec fn finished(&self) -> Seq<bool> {
        seq![
            self.first().stashed().is_some(),
            self.second().stashed().is_some(),
        ]
    }

    /// What the operations rely on.
    pub open spec fn links_sound(&self) -> bool {
        &&& self.first().sound()
        &&& self.second().sound()
    }

    /// The identifiers that a handle holds, in the order of the operations.
    pub open spec fn ids(handle: Handle2) -> Seq<u64> {
        seq![handle.0@, handle.1@]
    }

    /// The operations as a poll finds them.
    pub open spec fn members(&self, handle: Handle2) -> Seq<Member> {
        Seq::new(
            2,
            |at: int| Member { id: Self::ids(handle)[at], finished: self.finished()[at] },
        )
    }

    pub fn new(first: A, second: B) -> (link: Self)
        ensures
            link.first().inner() == first,
            link.first().stashed().is_none(),
            link.second().inner() == second,
            link.second().stashed().is_none(),
    {
        Link2 {
            first: StashOutput::new(first),
            second: StashOutput::new(second),
        }
    }

    /// Add another operation at the end of the chain.
    pub fn link_more<C: Oneshot>(self, third: C) -> (link: Link3<A, B, C>)
        ensures
            link.first() == self.first(),
            link.second() == self.second(),
            link.third().inner() == third,
            link.third().stashed().is_none(),
    {
        Link3 {
            first: self.first,
            second: self.second,
            third: StashOutput::new(third),
        }
    }
}

impl<A: Oneshot, B: Oneshot> Batch for Link2<A, B> {
    type Handle = Handle2;

    type Output = (A::Output, B::Output);

    open spec fn sound(&self) -> bool {
        self.links_sound()
    }

    /// Each operation whose output is still to come may be handed its
    /// completion.
    open spec fn awaits(&self) -> bool {
        &&& self.first().stashed().is_none() ==> self.first().inner().awaits()
        &&& self.second().stashed().is_none() ==> self.second().inner().awaits()
    }

    open spec fn spec_width() -> nat {
        2
    }

    open spec fn pollable(&self, handle: Handle2, reactor: ReactorView) -> bool {
        reactor.members_pollable(self.members(handle))
    }

    open spec fn droppable(&self, handle: Handle2, reactor: ReactorView) -> bool {
        reactor.members_droppable(self.members(handle))
    }

    /// Each operation builds its entry, and the entries are queued as a
    /// chain, in the order of the operations, under identifiers that were
    /// not in use. No output is produced by that.
    open spec fn submits(
        &self,
        submitted: Self,
        handle: Handle2,
        before: ReactorView,
        after: ReactorView,
        notifier: Option<Waker>,
    ) -> bool {
        &&& submitted.finished() == self.finished()
        &&& forall|at: int| 0 <= at < 2 ==> !before.is_live(#[trigger] Self::ids(handle)[at])
        &&& exists|entries: Seq<Entry>|
            {
                &&& entries.len() == 2
                &&& self.first().inner().builds(entries[0])
                &&& self.second().inner().builds(entries[1])
                &&& after == #[trigger] before.chained(Self::ids(handle), entries, notifier)
            }
    }

    open spec fn ready(&self, handle: Handle2, reactor: ReactorView) -> bool {
        reactor.batch_ready(self.members(handle))
    }

    /// The operations are polled in order, up to the first that is not
    /// through.
    open spec fn polls(
        &self,
        handle: Handle2,
        before: ReactorView,
        after: ReactorView,
        notifier: Waker,
    ) -> bool {
        before.batch_polled_into(after, self.members(handle), notifier)
    }

    /// Each output is the one that its operation kept, or what the
    /// operation makes of the completion that the reactor holds for it.
    open spec fn yields(
        &self,
        handle: Handle2,
        reactor: ReactorView,
        output: (A::Output, B::Output),
    ) -> bool {
        &&& member_yields(self.first(), handle.0, reactor, output.0)
        &&& member_yields(self.second(), handle.1, reactor, output.1)
    }

    /// The operations whose output is still to come are ignored in order,
    /// each with what it hands out to be kept alive. Nothing is done for
    /// those whose output is there.
    open spec fn drops(&self, handle: Handle2, before: ReactorView, after: ReactorView)
        -> bool {
        exists|data: Seq<Option<Allocations>>|
            {
                &&& data.len() == 2
                &&& member_retains(self.first(), data[0])
                &&& member_retains(self.second(), data[1])
                &&& after == #[trigger] before.given_up_all(self.members(handle), data)
            }
    }

    fn width(&self) -> (width: usize) {
        2
    }

    fn submit_entries(&mut self, reactor: &mut Reactor, context: Option<&Context>) -> (handle:
        Handle2)
        ensures
            final(self).finished() == old(self).finished(),
    {
        let mut entries = Vec::with_capacity(2);
        entries.push(self.first.build_submission());
        entries.push(self.second.build_submission());
        let ghost built = entries@;
        let ids = reactor.queue_chain(entries, context);
        let handle = (ids[0], ids[1]);
        proof {
            let keys = ids@.map_values(|id: OperationId| id@);
            assert(keys =~= Self::ids(handle));
            lemma_chained_slots(old(reactor)@, keys, built, notifier_of(context));
        }
        handle
    }

    fn can_poll(&self, handle: Handle2, reactor: &Reactor) -> (allowed: bool) {
        let through = (!self.first.not_finished() || reactor.can_poll(handle.0))
            && (!self.second.not_finished() || reactor.can_poll(handle.1));
        let apart = handle.0.to_bits() != handle.1.to_bits();
        proof {
            let members = self.members(handle);
            assert(members[0].id == handle.0@);
            assert(members[1].id == handle.1@);
        }
        through && apart
    }

    /// The poll is pending with the first operation that is not through;
    /// once all are, their outputs are handed out together.
    fn poll_progress(&mut self, handle: Handle2, reactor: &mut Reactor, context: &Context) -> (
        progress: Poll<(A::Output, B::Output)>)
        ensures
            progress is Ready ==> final(self).finished() == seq![false, false],
    {
        proof {
            let members = self.members(handle);
            assert(members[0] == member_of(self.first, handle.0));
            assert(members[1] == member_of(self.second, handle.1));
        }
        if !poll_member(&mut self.first, handle.0, reactor, context) {
            return Poll::Pending;
        }
        if !poll_member(&mut self.second, handle.1, reactor, context) {
            return Poll::Pending;
        }
        match (self.first.take_output(), self.second.take_output()) {
            (Some(first), Some(second)) => Poll::Ready((first, second)),
            _ => Poll::Pending,
        }
    }

    fn can_drop(&self, handle: Handle2, reactor: &Reactor) -> (allowed: bool) {
        let live = (!self.first.not_finished() || reactor.is_live(handle.0))
            && (!self.second.not_finished() || reactor.is_live(handle.1));
        let apart = handle.0.to_bits() != handle.1.to_bits();
        proof {
            let members = self.members(handle);
            assert(members[0].id == handle.0@);
            assert(members[1].id == handle.1@);
        }
        live && apart
    }

    fn drop_operations(&mut self, handle: Handle2, reactor: &mut Reactor)
        ensures
            final(self).finished() == old(self).finished(),
    {
        let ghost before = reactor@;
        let ghost members = self.members(handle);
        let ghost done = Seq::<Member>::empty();
        let ghost data = Seq::<Option<Allocations>>::empty();
        proof {
            assert(members[0] == member_of(self.first, handle.0));
            assert(members[1] == member_of(self.second, handle.1));
        }
        let first = drop_member(&mut self.first, handle.0, reactor);
        proof {
            lemma_given_up_all_push(before, done, data, members[0], first@);
            done = done.push(members[0]);
            data = data.push(first@);
        }
        let second = drop_member(&mut self.second, handle.1, reactor);
        proof {
            lemma_given_up_all_push(before, done, data, members[1], second@);
            done = done.push(members[1]);
            data = data.push(second@);
            assert(done =~= members);
        }
    }
}

/// Three operations that the kernel executes one after the other.
#[must_use]
pub struct Link3<A: Oneshot, B: Oneshot, C: Oneshot> {
    first: StashOutput<A>,
    second: StashOutput<B>,
    third: StashOutput<C>,
}

/// The handle of a chain of three: the identifiers of its operations, in
/// their order.
pub type Handle3 = (OperationId, OperationId, OperationId);

impl<A: Oneshot, B: Oneshot, C: Oneshot> Link3<A, B, C> {
    /// The first operation of the chain.
    pub closed spec fn first(&self) -> StashOutput<A> {
        self.first
    }

    /// The second operation of the chain.
    pub closed spec fn second(&self) -> StashOutput<B> {
        self.second
    }

    /// The third operation of the chain.
    pub closed spec fn third(&self) -> StashOutput<C> {
        self.third
    }

    /// Whether each operation's output was produced and is kept.
    pub open spec fn finished(&self) -> Seq<bool> {
        seq![
            self.first().stashed().is_some(),
            self.second().stashed().is_some(),
            self.third().stashed().is_some(),
        ]
    }

    /// What the operations rely on.
    pub open spec fn links_sound(&self) -> bool {
        &&& self.first().sound()
        &&& self.second().sound()
        &&& self.third().sound()
    }

    /// The identifiers that a handle holds, in the order of the operations.
    pub open spec fn ids(handle: Handle3) -> Seq<u64> {
        seq![handle.0@, handle.1@, handle.2@]
    }

    /// The operations as a poll finds them.
    pub open spec fn members(&self, handle: Handle3) -> Seq<Member> {
        Seq::new(
            3,
            |at: int| Member { id: Self::ids(handle)[at], finished: self.finished()[at] },
        )
    }

    pub fn new(first: A, second: B, third: C) -> (link: Self)
        ensures
            link.first().inner() == first,
            link.first().stashed().is_none(),
            link.second().inner() == second,
            link.second().stashed().is_none(),
            link.third().inner() == third,
            link.third().stashed().is_none(),
    {
        Link3 {
            first: StashOutput::new(first),
            second: StashOutput::new(second),
            third: StashOutput::new(third),
        }
    }

    /// Add another operation at the end of the chain.
    pub fn link_more<D: Oneshot>(self, fourth: D) -> (link: Link4<A, B, C, D>)
        ensures
            link.first() == self.first(),
            link.second() == self.second(),
            link.third() == self.third(),
            link.fourth().inner() == fourth,
            link.fourth().stashed().is_none(),
    {
        Link4 {
            first: self.first,
            second: self.second,
            third: self.third,
            fourth: StashOutput::new(fourth),
        }
    }
}

impl<A: Oneshot, B: Oneshot, C: Oneshot> Batch for Link3<A, B, C> {
    type Handle = Handle3;

    type Output = (A::Output, B::Output, C::Output);

    open spec fn sound(&self) -> bool {
        self.links_sound()
    }

    /// Each operation whose output is still to come may be handed its
    /// completion.
    open spec fn awaits(&self) -> bool {
        &&& self.first().stashed().is_none() ==> self.first().inner().awaits()
        &&& self.second().stashed().is_none() ==> self.second().inner().awaits()
        &&& self.third().stashed().is_none() ==> self.third().inner().awaits()
    }

    open spec fn spec_width() -> nat {
        3
    }

    open spec fn pollable(&self, handle: Handle3, reactor: ReactorView) -> bool {
        reactor.members_pollable(self.members(handle))
    }

    open spec fn droppable(&self, handle: Handle3, reactor: ReactorView) -> bool {
        reactor.members_droppable(self.members(handle))
    }

    /// Each operation builds its entry, and the entries are queued as a
    /// chain, in the order of the operations, under identifiers that were
    /// not in use. No output is produced by that.
    open spec fn submits(
        &self,
        submitted: Self,
        handle: Handle3,
        before: ReactorView,
        after: ReactorView,
        notifier: Option<Waker>,
    ) -> bool {
        &&& submitted.finished() == self.finished()
        &&& forall|at: int| 0 <= at < 3 ==> !before.is_live(#[trigger] Self::ids(handle)[at])
        &&& exists|entries: Seq<Entry>|
            {
                &&& entries.len() == 3
                &&& self.first().inner().builds(entries[0])
                &&& self.second().inner().builds(entries[1])
                &&& self.third().inner().builds(entries[2])
                &&& after == #[trigger] before.chained(Self::ids(handle), entries, notifier)
            }
    }

    open spec fn ready(&self, handle: Handle3, reactor: ReactorView) -> bool {
        reactor.batch_ready(self.members(handle))
    }

    /// The operations are polled in order, up to the first that is not
    /// through.
    open spec fn polls(
        &self,
        handle: Handle3,
        before: ReactorView,
        after: ReactorView,
        notifier: Waker,
    ) -> bool {
        before.batch_polled_into(after, self.members(handle), notifier)
    }

    /// Each output is the one that its operation kept, or what the
    /// operation makes of the completion that the reactor holds for it.
    open spec fn yields(
        &self,
        handle: Handle3,
        reactor: ReactorView,
        output: (A::Output, B::Output, C::Output),
    ) -> bool {
        &&& member_yields(self.first(), handle.0, reactor, output.0)
        &&& member_yields(self.second(), handle.1, reactor, output.1)
        &&& member_yields(self.third(), handle.2, reactor, output.2)
    }

    /// The operations whose output is still to come are ignored in order,
    /// each with what it hands out to be kept alive. Nothing is done for
    /// those whose output is there.
    open spec fn drops(&self, handle: Handle3, before: ReactorView, after: ReactorView)
        -> bool {
        exists|data: Seq<Option<Allocations>>|
            {
                &&& data.len() == 3
                &&& member_retains(self.first(), data[0])
                &&& member_retains(self.second(), data[1])
                &&& member_retains(self.third(), data[2])
                &&& after == #[trigger] before.given_up_all(self.members(handle), data)
            }
    }

    fn width(&self) -> (width: usize) {
        3
    }

    fn submit_entries(&mut self, reactor: &mut Reactor, context: Option<&Context>) -> (handle:
        Handle3)
        ensures
            final(self).finished() == old(self).finished(),
    {
        let mut entries = Vec::with_capacity(3);
        entries.push(self.first.build_submission());
        entries.push(self.second.build_submission());
        entries.push(self.third.build_submission());
        let ghost built = entries@;
        let ids = reactor.queue_chain(entries, context);
        let handle = (ids[0], ids[1], ids[2]);
        proof {
            let keys = ids@.map_values(|id: OperationId| id@);
            assert(keys =~= Self::ids(handle));
            lemma_chained_slots(old(reactor)@, keys, built, notifier_of(context));
        }
        handle
    }

    fn can_poll(&self, handle: Handle3, reactor: &Reactor) -> (allowed: bool) {
        let through = (!self.first.not_finished() || reactor.can_poll(handle.0))
            && (!self.second.not_finished() || reactor.can_poll(handle.1))
            && (!self.third.not_finished() || reactor.can_poll(handle.2));
        let apart = handle.0.to_bits() != handle.1.to_bits()
            && handle.0.to_bits() != handle.2.to_bits()
            && handle.1.to_bits() != handle.2.to_bits();
        proof {
            let members = self.members(handle);
            assert(members[0].id == handle.0@);
            assert(members[1].id == handle.1@);
            assert(members[2].id == handle.2@);
        }
        through && apart
    }

    /// The poll is pending with the first operation that is not through;
    /// once all are, their outputs are handed out together.
    fn poll_progress(&mut self, handle: Handle3, reactor: &mut Reactor, context: &Context) -> (
        progress: Poll<(A::Output, B::Output, C::Output)>)
        ensures
            progress is Ready ==> final(self).finished() == seq![false, false, false],
    {
        proof {
            let members = self.members(handle);
            assert(members[0] == member_of(self.first, handle.0));
            assert(members[1] == member_of(self.second, handle.1));
            assert(members[2] == member_of(self.third, handle.2));
        }
        if !poll_member(&mut self.first, handle.0, reactor, context) {
            return Poll::Pending;
        }
        if !poll_member(&mut self.second, handle.1, reactor, context) {
            return Poll::Pending;
        }
        if !poll_member(&mut self.third, handle.2, reactor, context) {
            return Poll::Pending;
        }
        match (self.first.take_output(), self.second.take_output(), self.third.take_output()) {
            (Some(first), Some(second), Some(third)) => Poll::Ready((first, second, third)),
            _ => Poll::Pending,
        }
    }

    fn can_drop(&self, handle: Handle3, reactor: &Reactor) -> (allowed: bool) {
        let live = (!self.first.not_finished() || reactor.is_live(handle.0))
            && (!self.second.not_finished() || reactor.is_live(handle.1))
            && (!self.third.not_finished() || reactor.is_live(handle.2));
        let apart = handle.0.to_bits() != handle.1.to_bits()
            && handle.0.to_bits() != handle.2.to_bits()
            && handle.1.to_bits() != handle.2.to_bits();
        proof {
            let members = self.members(handle);
            assert(members[0].id == handle.0@);
            assert(members[1].id == handle.1@);
            assert(members[2].id == handle.2@);
        }
        live && apart
    }

    fn drop_operations(&mut self, handle: Handle3, reactor: &mut Reactor)
        ensures
            final(self).finished() == old(self).finished(),
    {
        let ghost before = reactor@;
        let ghost members = self.members(handle);
        let ghost done = Seq::<Member>::empty();
        let ghost data = Seq::<Option<Allocations>>::empty();
        proof {
            assert(members[0] == member_of(self.first, handle.0));
            assert(members[1] == member_of(self.second, handle.1));
            assert(members[2] == member_of(self.third, handle.2));
        }
        let first = drop_member(&mut self.first, handle.0, reactor);
        proof {
            lemma_given_up_all_push(before, done, data, members[0], first@);
            done = done.push(members[0]);
            data = data.push(first@);
        }
        let second = drop_member(&mut self.second, handle.1, reactor);
        proof {
            lemma_given_up_all_push(before, done, data, members[1], second@);
            done = done.push(members[1]);
            data = data.push(second@);
        }
        let third = drop_member(&mut self.third, handle.2, reactor);
        proof {
            lemma_given_up_all_push(before, done, data, members[2], third@);
            done = done.push(members[2]);
            data = data.push(third@);
            assert(done =~= members);
        }
    }
}

/// Four operations that the kernel executes one after the other.
#[must_use]
pub struct Link4<A: Oneshot, B: Oneshot, C: Oneshot, D: Oneshot> {
    first: StashOutput<A>,
    second: StashOutput<B>,
    third: StashOutput<C>,
    fourth: StashOutput<D>,
}

/// The handle of a chain of four: the identifiers of its operations, in
/// their order.
pub type Handle4 = (OperationId, OperationId, OperationId, OperationId);

impl<A: Oneshot, B: Oneshot, C: Oneshot, D: Oneshot> Link4<A, B, C, D> {
    /// The first operation of the chain.
    pub closed spec fn first(&self) -> StashOutput<A> {
        self.first
    }

    /// The second operation of the chain.
    pub closed spec fn second(&self) -> StashOutput<B> {
        self.second
    }

    /// The third operation of the chain.
    pub closed spec fn third(&self) -> StashOutput<C> {
        self.third
    }

    /// The fourth operation of the chain.
    pub closed spec fn fourth(&self) -> StashOutput<D> {
        self.fourth
    }

    /// Whether each operation's output was produced and is kept.
    pub open spec fn finished(&self) -> Seq<bool> {
        seq![
            self.first().stashed().is_some(),
            self.second().stashed().is_some(),
            self.third().stashed().is_some(),
            self.fourth().stashed().is_some(),
        ]
    }

    /// What the operations rely on.
    pub open spec fn links_sound(&self) -> bool {
        &&& self.first().sound()
        &&& self.second().sound()
        &&& self.third().sound()
        &&& self.fourth().sound()
    }

    /// The identifiers that a handle holds, in the order of the operations.
    pub open spec fn ids(handle: Handle4) -> Seq<u64> {
        seq![handle.0@, handle.1@, handle.2@, handle.3@]
    }

    /// The operations as a poll finds them.
    pub open spec fn members(&self, handle: Handle4) -> Seq<Member> {
        Seq::new(
            4,
            |at: int| Member { id: Self::ids(handle)[at], finished: self.finished()[at] },
        )
    }

    pub fn new(first: A, second: B, third: C, fourth: D) -> (link: Self)
        ensures
            link.first().inner() == first,
            link.first().stashed().is_none(),
            link.second().inner() == second,
            link.second().stashed().is_none(),
            link.third().inner() == third,
            link.third().stashed().is_none(),
            link.fourth().inner() == fourth,
            link.fourth().stashed().is_none(),
    {
        Link4 {
            first: StashOutput::new(first),
            second: StashOutput::new(second),
            third: StashOutput::new(third),
            fourth: StashOutput::new(fourth),
        }
    }

    /// Add another operation at the end of the chain.
    pub fn link_more<E: Oneshot>(self, fifth: E) -> (link: Link5<A, B, C, D, E>)
        ensures
            link.first() == self.first(),
            link.second() == self.second(),
            link.third() == self.third(),
            link.fourth() == self.fourth(),
            link.fifth().inner() == fifth,
            link.fifth().stashed().is_none(),
    {
        Link5 {
            first: self.first,
            second: self.second,
            third: self.third,
            fourth: self.fourth,
            fifth: StashOutput::new(fifth),
        }
    }
}

impl<A: Oneshot, B: Oneshot, C: Oneshot, D: Oneshot> Batch for Link4<A, B, C, D> {
    type Handle = Handle4;

    type Output = (A::Output, B::Output, C::Output, D::Output);

    open spec fn sound(&self) -> bool {
        self.links_sound()
    }

    /// Each operation whose output is still to come may be handed its
    /// completion.
    open spec fn awaits(&self) -> bool {
        &&& self.first().stashed().is_none() ==> self.first().inner().awaits()
        &&& self.second().stashed().is_none() ==> self.second().inner().awaits()
        &&& self.third().stashed().is_none() ==> self.third().inner().awaits()
        &&& self.fourth().stashed().is_none() ==> self.fourth().inner().awaits()
    }

    open spec fn spec_width() -> nat {
        4
    }

    open spec fn pollable(&self, handle: Handle4, reactor: ReactorView) -> bool {
        reactor.members_pollable(self.members(handle))
    }

    open spec fn droppable(&self, handle: Handle4, reactor: ReactorView) -> bool {
        reactor.members_droppable(self.members(handle))
    }

    /// Each operation builds its entry, and the entries are queued as a
    /// chain, in the order of the operations, under identifiers that were
    /// not in use. No output is produced by that.
    open spec fn submits(
        &self,
        submitted: Self,
        handle: Handle4,
        before: ReactorView,
        after: ReactorView,
        notifier: Option<Waker>,
    ) -> bool {
        &&& submitted.finished() == self.finished()
        &&& forall|at: int| 0 <= at < 4 ==> !before.is_live(#[trigger] Self::ids(handle)[at])
        &&& exists|entries: Seq<Entry>|
            {
                &&& entries.len() == 4
                &&& self.first().inner().builds(entries[0])
                &&& self.second().inner().builds(entries[1])
                &&& self.third().inner().builds(entries[2])
                &&& self.fourth().inner().builds(entries[3])
                &&& after == #[trigger] before.chained(Self::ids(handle), entries, notifier)
            }
    }

    open spec fn ready(&self, handle: Handle4, reactor: ReactorView) -> bool {
        reactor.batch_ready(self.members(handle))
    }

    /// The operations are polled in order, up to the first that is not
    /// through.
    open spec fn polls(
        &self,
        handle: Handle4,
        before: ReactorView,
        after: ReactorView,
        notifier: Waker,
    ) -> bool {
        before.batch_polled_into(after, self.members(handle), notifier)
    }

    /// Each output is the one that its operation kept, or what the
    /// operation makes of the completion that the reactor holds for it.
    open spec fn yields(
        &self,
        handle: Handle4,
        reactor: ReactorView,
        output: (A::Output, B::Output, C::Output, D::Output),
    ) -> bool {
        &&& member_yields(self.first(), handle.0, reactor, output.0)
        &&& member_yields(self.second(), handle.1, reactor, output.1)
        &&& member_yields(self.third(), handle.2, reactor, output.2)
        &&& member_yields(self.fourth(), handle.3, reactor, output.3)
    }

    /// The operations whose output is still to come are ignored in order,
    /// each with what it hands out to be kept alive. Nothing is done for
    /// those whose output is there.
    open spec fn drops(&self, handle: Handle4, before: ReactorView, after: ReactorView)
        -> bool {
        exists|data: Seq<Option<Allocations>>|
            {
                &&& data.len() == 4
                &&& member_retains(self.first(), data[0])
                &&& member_retains(self.second(), data[1])
                &&& member_retains(self.third(), data[2])
                &&& member_retains(self.fourth(), data[3])
                &&& after == #[trigger] before.given_up_all(self.members(handle), data)
            }
    }

    fn width(&self) -> (width: usize) {
        4
    }

    fn submit_entries(&mut self, reactor: &mut Reactor, context: Option<&Context>) -> (handle:
        Handle4)
        ensures
            final(self).finished() == old(self).finished(),
    {
        let mut entries = Vec::with_capacity(4);
        entries.push(self.first.build_submission());
        entries.push(self.second.build_submission());
        entries.push(self.third.build_submission());
        entries.push(self.fourth.build_submission());
        let ghost built = entries@;
        let ids = reactor.queue_chain(entries, context);
        let handle = (ids[0], ids[1], ids[2], ids[3]);
        proof {
            let keys = ids@.map_values(|id: OperationId| id@);
            assert(keys =~= Self::ids(handle));
            lemma_chained_slots(old(reactor)@, keys, built, notifier_of(context));
        }
        handle
    }

    fn can_poll(&self, handle: Handle4, reactor: &Reactor) -> (allowed: bool) {
        let through = (!self.first.not_finished() || reactor.can_poll(handle.0))
            && (!self.second.not_finished() || reactor.can_poll(handle.1))
            && (!self.third.not_finished() || reactor.can_poll(handle.2))
            && (!self.fourth.not_finished() || reactor.can_poll(handle.3));
        let apart = handle.0.to_bits() != handle.1.to_bits()
            && handle.0.to_bits() != handle.2.to_bits()
            && handle.0.to_bits() != handle.3.to_bits()
            && handle.1.to_bits() != handle.2.to_bits()
            && handle.1.to_bits() != handle.3.to_bits()
            && handle.2.to_bits() != handle.3.to_bits();
        proof {
            let members = self.members(handle);
            assert(members[0].id == handle.0@);
            assert(members[1].id == handle.1@);
            assert(members[2].id == handle.2@);
            assert(members[3].id == handle.3@);
        }
        through && apart
    }

    /// The poll is pending with the first operation that is not through;
    /// once all are, their outputs are handed out together.
    fn poll_progress(&mut self, handle: Handle4, reactor: &mut Reactor, context: &Context) -> (
        progress: Poll<(A::Output, B::Output, C::Output, D::Output)>)
        ensures
            progress is Ready ==> final(self).finished() == seq![false, false, false, false],
    {
        proof {
            let members = self.members(handle);
            assert(members[0] == member_of(self.first, handle.0));
            assert(members[1] == member_of(self.second, handle.1));
            assert(members[2] == member_of(self.third, handle.2));
            assert(members[3] == member_of(self.fourth, handle.3));
        }
        if !poll_member(&mut self.first, handle.0, reactor, context) {
            return Poll::Pending;
        }
        if !poll_member(&mut self.second, handle.1, reactor, context) {
            return Poll::Pending;
        }
        if !poll_member(&mut self.third, handle.2, reactor, context) {
            return Poll::Pending;
        }
        if !poll_member(&mut self.fourth, handle.3, reactor, context) {
            return Poll::Pending;
        }
        match (
            self.first.take_output(),
            self.second.take_output(),
            self.third.take_output(),
            self.fourth.take_output(),
        ) {
            (Some(first), Some(second), Some(third), Some(fourth)) => Poll::Ready(
                (first, second, third, fourth),
            ),
            _ => Poll::Pending,
        }
    }

    fn can_drop(&self, handle: Handle4, reactor: &Reactor) -> (allowed: bool) {
        let live = (!self.first.not_finished() || reactor.is_live(handle.0))
            && (!self.second.not_finished() || reactor.is_live(handle.1))
            && (!self.third.not_finished() || reactor.is_live(handle.2))
            && (!self.fourth.not_finished() || reactor.is_live(handle.3));
        let apart = handle.0.to_bits() != handle.1.to_bits()
            && handle.0.to_bits() != handle.2.to_bits()
            && handle.0.to_bits() != handle.3.to_bits()
            && handle.1.to_bits() != handle.2.to_bits()
            && handle.1.to_bits() != handle.3.to_bits()
            && handle.2.to_bits() != handle.3.to_bits();
        proof {
            let members = self.members(handle);
            assert(members[0].id == handle.0@);
            assert(members[1].id == handle.1@);
            assert(members[2].id == handle.2@);
            assert(members[3].id == handle.3@);
        }
        live && apart
    }

    fn drop_operations(&mut self, handle: Handle4, reactor: &mut Reactor)
        ensures
            final(self).finished() == old(self).finished(),
    {
        let ghost before = reactor@;
        let ghost members = self.members(handle);
        let ghost done = Seq::<Member>::empty();
        let ghost data = Seq::<Option<Allocations>>::empty();
        proof {
            assert(members[0] == member_of(self.first, handle.0));
            assert(members[1] == member_of(self.second, handle.1));
            assert(members[2] == member_of(self.third, handle.2));
            assert(members[3] == member_of(self.fourth, handle.3));
        }
        let first = drop_member(&mut self.first, handle.0, reactor);
        proof {
            lemma_given_up_all_push(before, done, data, members[0], first@);
            done = done.push(members[0]);
            data = data.push(first@);
        }
        let second = drop_member(&mut self.second, handle.1, reactor);
        proof {
            lemma_given_up_all_push(before, done, data, members[1], second@);
            done = done.push(members[1]);
            data = data.push(second@);
        }
        let third = drop_member(&mut self.third, handle.2, reactor);
        proof {
            lemma_given_up_all_push(before, done, data, members[2], third@);
            done = done.push(members[2]);
            data = data.push(third@);
        }
        let fourth = drop_member(&mut self.fourth, handle.3, reactor);
        proof {
            lemma_given_up_all_push(before, done, data, members[3], fourth@);
            done = done.push(members[3]);
            data = data.push(fourth@);
            assert(done =~= members);
        }
    }
}

/// Five operations that the kernel executes one after the other.
#[must_use]
pub struct Link5<A: Oneshot, B: Oneshot, C: Oneshot, D: Oneshot, E: Oneshot> {
    first: StashOutput<A>,
    second: StashOutput<B>,
    third: StashOutput<C>,
    fourth: StashOutput<D>,
    fifth: StashOutput<E>,
}

/// The handle of a chain of five: the identifiers of its operations, in
/// their order.
pub type Handle5 = (OperationId, OperationId, OperationId, OperationId, OperationId);

impl<A: Oneshot, B: Oneshot, C: Oneshot, D: Oneshot, E: Oneshot> Link5<A, B, C, D, E> {
    /// The first operation of the chain.
    pub closed spec fn first(&self) -> StashOutput<A> {
        self.first
    }

    /// The second operation of the chain.
    pub closed spec fn second(&self) -> StashOutput<B> {
        self.second
    }

    /// The third operation of the chain.
    pub closed spec fn third(&self) -> StashOutput<C> {
        self.third
    }

    /// The fourth operation of the chain.
    pub closed spec fn fourth(&self) -> StashOutput<D> {
        self.fourth
    }

    /// The fifth operation of the chain.
    pub closed spec fn fifth(&self) -> StashOutput<E> {
        self.fifth
    }

    /// Whether each operation's output was produced and is kept.
    pub open spec fn finished(&self) -> Seq<bool> {
        seq![
            self.first().stashed().is_some(),
            self.second().stashed().is_some(),
            self.third().stashed().is_some(),
            self.fourth().stashed().is_some(),
            self.fifth().stashed().is_some(),
        ]
    }

    /// What the operations rely on.
    pub open spec fn links_sound(&self) -> bool {
        &&& self.first().sound()
        &&& self.second().sound()
        &&& self.third().sound()
        &&& self.fourth().sound()
        &&& self.fifth().sound()
    }

    /// The identifiers that a handle holds, in the order of the operations.
    pub open spec fn ids(handle: Handle5) -> Seq<u64> {
        seq![handle.0@, handle.1@, handle.2@, handle.3@, handle.4@]
    }

    /// The operations as a poll finds them.
    pub open spec fn members(&self, handle: Handle5) -> Seq<Member> {
        Seq::new(
            5,
            |at: int| Member { id: Self::ids(handle)[at], finished: self.finished()[at] },
        )
    }

    pub fn new(first: A, second: B, third: C, fourth: D, fifth: E) -> (link: Self)
        ensures
            link.first().inner() == first,
            link.first().stashed().is_none(),
            link.second().inner() == second,
            link.second().stashed().is_none(),
            link.third().inner() == third,
            link.third().stashed().is_none(),
            link.fourth().inner() == fourth,
            link.fourth().stashed().is_none(),
            link.fifth().inner() == fifth,
            link.fifth().stashed().is_none(),
    {
        Link5 {
            first: StashOutput::new(first),
            second: StashOutput::new(second),
            third: StashOutput::new(third),
            fourth: StashOutput::new(fourth),
            fifth: StashOutput::new(fifth),
        }
    }
}

impl<A: Oneshot, B: Oneshot, C: Oneshot, D: Oneshot, E: Oneshot> Batch for Link5<A, B, C, D, E> {
    type Handle = Handle5;

    type Output = (A::Output, B::Output, C::Output, D::Output, E::Output);

    open spec fn sound(&self) -> bool {
        self.links_sound()
    }

    /// Each operation whose output is still to come may be handed its
    /// completion.
    open spec fn awaits(&self) -> bool {
        &&& self.first().stashed().is_none() ==> self.first().inner().awaits()
        &&& self.second().stashed().is_none() ==> self.second().inner().awaits()
        &&& self.third().stashed().is_none() ==> self.third().inner().awaits()
        &&& self.fourth().stashed().is_none() ==> self.fourth().inner().awaits()
        &&& self.fifth().stashed().is_none() ==> self.fifth().inner().awaits()
    }

    open spec fn spec_width() -> nat {
        5
    }

    open spec fn pollable(&self, handle: Handle5, reactor: ReactorView) -> bool {
        reactor.members_pollable(self.members(handle))
    }

    open spec fn droppable(&self, handle: Handle5, reactor: ReactorView) -> bool {
        reactor.members_droppable(self.members(handle))
    }

    /// Each operation builds its entry, and the entries are queued as a
    /// chain, in the order of the operations, under identifiers that were
    /// not in use. No output is produced by that.
    open spec fn submits(
        &self,
        submitted: Self,
        handle: Handle5,
        before: ReactorView,
        after: ReactorView,
        notifier: Option<Waker>,
    ) -> bool {
        &&& submitted.finished() == self.finished()
        &&& forall|at: int| 0 <= at < 5 ==> !before.is_live(#[trigger] Self::ids(handle)[at])
        &&& exists|entries: Seq<Entry>|
            {
                &&& entries.len() == 5
                &&& self.first().inner().builds(entries[0])
                &&& self.second().inner().builds(entries[1])
                &&& self.third().inner().builds(entries[2])
                &&& self.fourth().inner().builds(entries[3])
                &&& self.fifth().inner().builds(entries[4])
                &&& after == #[trigger] before.chained(Self::ids(handle), entries, notifier)
            }
    }

    open spec fn ready(&self, handle: Handle5, reactor: ReactorView) -> bool {
        reactor.batch_ready(self.members(handle))
    }

    /// The operations are polled in order, up to the first that is not
    /// through.
    open spec fn polls(
        &self,
        handle: Handle5,
        before: ReactorView,
        after: ReactorView,
        notifier: Waker,
    ) -> bool {
        before.batch_polled_into(after, self.members(handle), notifier)
    }

    /// Each output is the one that its operation kept, or what the
    /// operation makes of the completion that the reactor holds for it.
    open spec fn yields(
        &self,
        handle: Handle5,
        reactor: ReactorView,
        output: (A::Output, B::Output, C::Output, D::Output, E::Output),
    ) -> bool {
        &&& member_yields(self.first(), handle.0, reactor, output.0)
        &&& member_yields(self.second(), handle.1, reactor, output.1)
        &&& member_yields(self.third(), handle.2, reactor, output.2)
        &&& member_yields(self.fourth(), handle.3, reactor, output.3)
        &&& member_yields(self.fifth(), handle.4, reactor, output.4)
    }

    /// The operations whose output is still to come are ignored in order,
    /// each with what it hands out to be kept alive. Nothing is done for
    /// those whose output is there.
    open spec fn drops(&self, handle: Handle5, before: ReactorView, after: ReactorView)
        -> bool {
        exists|data: Seq<Option<Allocations>>|
            {
                &&& data.len() == 5
                &&& member_retains(self.first(), data[0])
                &&& member_retains(self.second(), data[1])
                &&& member_retains(self.third(), data[2])
                &&& member_retains(self.fourth(), data[3])
                &&& member_retains(self.fifth(), data[4])
                &&& after == #[trigger] before.given_up_all(self.members(handle), data)
            }
    }

    fn width(&self) -> (width: usize) {
        5
    }

    fn submit_entries(&mut self, reactor: &mut Reactor, context: Option<&Context>) -> (handle:
        Handle5)
        ensures
            final(self).finished() == old(self).finished(),
    {
        let mut entries = Vec::with_capacity(5);
        entries.push(self.first.build_submission());
        entries.push(self.second.build_submission());
        entries.push(self.third.build_submission());
        entries.push(self.fourth.build_submission());
        entries.push(self.fifth.build_submission());
        let ghost built = entries@;
        let ids = reactor.queue_chain(entries, context);
        let handle = (ids[0], ids[1], ids[2], ids[3], ids[4]);
        proof {
            let keys = ids@.map_values(|id: OperationId| id@);
            assert(keys =~= Self::ids(handle));
            lemma_chained_slots(old(reactor)@, keys, built, notifier_of(context));
        }
        handle
    }

    fn can_poll(&self, handle: Handle5, reactor: &Reactor) -> (allowed: bool) {
        let through = (!self.first.not_finished() || reactor.can_poll(handle.0))
            && (!self.second.not_finished() || reactor.can_poll(handle.1))
            && (!self.third.not_finished() || reactor.can_poll(handle.2))
            && (!self.fourth.not_finished() || reactor.can_poll(handle.3))
            && (!self.fifth.not_finished() || reactor.can_poll(handle.4));
        let apart = handle.0.to_bits() != handle.1.to_bits()
            && handle.0.to_bits() != handle.2.to_bits()
            && handle.0.to_bits() != handle.3.to_bits()
            && handle.0.to_bits() != handle.4.to_bits()
            && handle.1.to_bits() != handle.2.to_bits()
            && handle.1.to_bits() != handle.3.to_bits()
            && handle.1.to_bits() != handle.4.to_bits()
            && handle.2.to_bits() != handle.3.to_bits()
            && handle.2.to_bits() != handle.4.to_bits()
            && handle.3.to_bits() != handle.4.to_bits();
        proof {
            let members = self.members(handle);
            assert(members[0].id == handle.0@);
            assert(members[1].id == handle.1@);
            assert(members[2].id == handle.2@);
            assert(members[3].id == handle.3@);
            assert(members[4].id == handle.4@);
        }
        through && apart
    }

    /// The poll is pending with the first operation that is not through;
    /// once all are, their outputs are handed out together.
    fn poll_progress(&mut self, handle: Handle5, reactor: &mut Reactor, context: &Context) -> (
        progress: Poll<(A::Output, B::Output, C::Output, D::Output, E::Output)>)
        ensures
            progress is Ready ==> final(self).finished() == seq![false, false, false, false, false],
    {
        proof {
            let members = self.members(handle);
            assert(members[0] == member_of(self.first, handle.0));
            assert(members[1] == member_of(self.second, handle.1));
            assert(members[2] == member_of(self.third, handle.2));
            assert(members[3] == member_of(self.fourth, handle.3));
            assert(members[4] == member_of(self.fifth, handle.4));
        }
        if !poll_member(&mut self.first, handle.0, reactor, context) {
            return Poll::Pending;
        }
        if !poll_member(&mut self.second, handle.1, reactor, context) {
            return Poll::Pending;
        }
        if !poll_member(&mut self.third, handle.2, reactor, context) {
            return Poll::Pending;
        }
        if !poll_member(&mut self.fourth, handle.3, reactor, context) {
            return Poll::Pending;
        }
        if !poll_member(&mut self.fifth, handle.4, reactor, context) {
            return Poll::Pending;
        }
        match (
            self.first.take_output(),
            self.second.take_output(),
            self.third.take_output(),
            self.fourth.take_output(),
            self.fifth.take_output(),
        ) {
            (Some(first), Some(second), Some(third), Some(fourth), Some(fifth)) => Poll::Ready(
                (first, second, third, fourth, fifth),
            ),
            _ => Poll::Pending,
        }
    }

    fn can_drop(&self, handle: Handle5, reactor: &Reactor) -> (allowed: bool) {
        let live = (!self.first.not_finished() || reactor.is_live(handle.0))
            && (!self.second.not_finished() || reactor.is_live(handle.1))
            && (!self.third.not_finished() || reactor.is_live(handle.2))
            && (!self.fourth.not_finished() || reactor.is_live(handle.3))
            && (!self.fifth.not_finished() || reactor.is_live(handle.4));
        let apart = handle.0.to_bits() != handle.1.to_bits()
            && handle.0.to_bits() != handle.2.to_bits()
            && handle.0.to_bits() != handle.3.to_bits()
            && handle.0.to_bits() != handle.4.to_bits()
            && handle.1.to_bits() != handle.2.to_bits()
            && handle.1.to_bits() != handle.3.to_bits()
            && handle.1.to_bits() != handle.4.to_bits()
            && handle.2.to_bits() != handle.3.to_bits()
            && handle.2.to_bits() != handle.4.to_bits()
            && handle.3.to_bits() != handle.4.to_bits();
        proof {
            let members = self.members(handle);
            assert(members[0].id == handle.0@);
            assert(members[1].id == handle.1@);
            assert(members[2].id == handle.2@);
            assert(members[3].id == handle.3@);
            assert(members[4].id == handle.4@);
        }
        live && apart
    }

    fn drop_operations(&mut self, handle: Handle5, reactor: &mut Reactor)
        ensures
            final(self).finished() == old(self).finished(),
    {
        let ghost before = reactor@;
        let ghost members = self.members(handle);
        let ghost done = Seq::<Member>::empty();
        let ghost data = Seq::<Option<Allocations>>::empty();
        proof {
            assert(members[0] == member_of(self.first, handle.0));
            assert(members[1] == member_of(self.second, handle.1));
            assert(members[2] == member_of(self.third, handle.2));
            assert(members[3] == member_of(self.fourth, handle.3));
            assert(members[4] == member_of(self.fifth, handle.4));
        }
        let first = drop_member(&mut self.first, handle.0, reactor);
        proof {
            lemma_given_up_all_push(before, done, data, members[0], first@);
            done = done.push(members[0]);
            data = data.push(first@);
        }
        let second = drop_member(&mut self.second, handle.1, reactor);
        proof {
            lemma_given_up_all_push(before, done, data, members[1], second@);
            done = done.push(members[1]);
            data = data.push(second@);
        }
        let third = drop_member(&mut self.third, handle.2, reactor);
        proof {
            lemma_given_up_all_push(before, done, data, members[2], third@);
            done = done.push(members[2]);
            data = data.push(third@);
        }
        let fourth = drop_member(&mut self.fourth, handle.3, reactor);
        proof {
            lemma_given_up_all_push(before, done, data, members[3], fourth@);
            done = done.push(members[3]);
            data = data.push(fourth@);
        }
        let fifth = drop_member(&mut self.fifth, handle.4, reactor);
        proof {
            lemma_given_up_all_push(before, done, data, members[4], fifth@);
            done = done.push(members[4]);
            data = data.push(fifth@);
            assert(done =~= members);
        }
    }
}

} // verus!
