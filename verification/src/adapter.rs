//! Readiness-based I/O on top of the reactor: the registrations that an
//! I/O object keeps with the kernel's poll interface, and the steps that
//! wait for readiness and that shut the object down.
use crate::entry::{entry_opcode, Completion, Errno};
use crate::model::{lemma_ignored_all_push, lemma_ignored_frame, ReactorView};
use crate::operation::general::completion_status;
use crate::reactor::{OperationId, Reactor};
use crate::state::Allocations;
use crate::wake::context_waker;
use io_uring::squeue::Entry;
use std::task::{Context, Poll, Waker};
use vstd::prelude::*;

verus! {

/// The opcode of a request that asks once whether a file is ready.
pub const OPCODE_POLL_ADD: u32 = 6;

/// The opcode of a request that withdraws a poll request.
pub const OPCODE_POLL_REMOVE: u32 = 7;

/// The opcode of a request that shuts a socket down.
pub const OPCODE_SHUTDOWN: u32 = 34;

/// The entry that `opcode::PollAdd` builds to ask once whether the file
/// can be read.
pub uninterp spec fn poll_readable_request(fd: i32) -> Entry;

/// The entry that `opcode::PollAdd` builds to ask once whether the file
/// can be written.
pub uninterp spec fn poll_writable_request(fd: i32) -> Entry;

/// The entry that `opcode::PollRemove` builds to withdraw the poll request
/// that was submitted with the user data.
pub uninterp spec fn poll_remove_request(user_data: u64) -> Entry;

/// The entry that `opcode::Shutdown` builds to shut both directions of
/// the socket down.
pub uninterp spec fn shutdown_request(fd: i32) -> Entry;

/// Builds the entry of `opcode::PollAdd` that asks once whether the file
/// can be read, with the flag `libc::POLLIN`.
#[verifier::external_body]
fn poll_readable_entry(fd: i32) -> (entry: Entry)
    ensures
        entry == poll_readable_request(fd),
        entry_opcode(entry) == OPCODE_POLL_ADD,
{
    io_uring::opcode::PollAdd::new(io_uring::types::Fd(fd), libc::POLLIN as u32).build()
}

/// Builds the entry of `opcode::PollAdd` that asks once whether the file
/// can be written, with the flag `libc::POLLOUT`.
#[verifier::external_body]
fn poll_writable_entry(fd: i32) -> (entry: Entry)
    ensures
        entry == poll_writable_request(fd),
        entry_opcode(entry) == OPCODE_POLL_ADD,
{
    io_uring::opcode::PollAdd::new(io_uring::types::Fd(fd), libc::POLLOUT as u32).build()
}

/// Builds the entry of `opcode::PollRemove`, which withdraws the poll
/// request that was submitted with the user data.
#[verifier::external_body]
fn poll_remove_entry(user_data: u64) -> (entry: Entry)
    ensures
        entry == poll_remove_request(user_data),
        entry_opcode(entry) == OPCODE_POLL_REMOVE,
{
    io_uring::opcode::PollRemove::new(user_data).build()
}

/// Builds the entry of `opcode::Shutdown` that shuts both directions of
/// the socket down, with `libc::SHUT_RDWR`.
#[verifier::external_body]
fn shutdown_entry(fd: i32) -> (entry: Entry)
    ensures
        entry == shutdown_request(fd),
        entry_opcode(entry) == OPCODE_SHUTDOWN,
{
    io_uring::opcode::Shutdown::new(io_uring::types::Fd(fd), libc::SHUT_RDWR).build()
}

/// The poll request for a file: whether it can be written, or read.
pub open spec fn poll_request(fd: i32, writable: bool) -> Entry {
    if writable {
        poll_writable_request(fd)
    } else {
        poll_readable_request(fd)
    }
}

/// What a poll for readiness answers, given what the reactor answers for
/// the poll request: the request's status once its completion is there.
pub open spec fn readiness(progress: Poll<Completion>) -> Poll<Result<(), Errno>> {
    match progress {
        Poll::Ready(entry) => Poll::Ready(completion_status(entry)),
        Poll::Pending => Poll::Pending,
    }
}

/// The identifier's bits, if there is an identifier.
pub open spec fn bits_of(id: Option<OperationId>) -> Option<u64> {
    match id {
        Some(id) => Some(id@),
        None => None,
    }
}

/// Whether a registration can be polled on the reactor: a request that is
/// in flight has a slot and may be polled; where none is, the reactor
/// has room for one.
pub open spec fn registration_pollable(id: Option<u64>, reactor: ReactorView) -> bool {
    match id {
        Some(id) => reactor.can_poll(id),
        None => reactor.states.len() < u32::MAX,
    }
}

/// Whether a shutdown can be polled on the reactor: the request in flight,
/// if there is one, has a slot and may be polled, and the reactor has
/// room for the request that follows it.
pub open spec fn shutdown_pollable(id: Option<u64>, reactor: ReactorView) -> bool {
    &&& reactor.states.len() < u32::MAX
    &&& id matches Some(id) ==> reactor.can_poll(id)
}

/// The status that an entry's result stands for.
fn status(entry: Completion) -> (status: Result<(), Errno>)
    ensures
        status == completion_status(entry),
{
    match entry.outcome() {
        Ok(_) => Ok(()),
        Err(errno) => Err(errno),
    }
}

/// Wait for readiness through one registration: make the poll request if
/// none is in flight, then ask the reactor for its completion. With the
/// completion the registration ends.
fn poll_interest(
    slot: &mut Option<OperationId>,
    fd: i32,
    writable: bool,
    reactor: &mut Reactor,
    context: &Context,
) -> (progress: Poll<Result<(), Errno>>)
    requires
        old(reactor).inv(),
        registration_pollable(bits_of(*old(slot)), old(reactor)@),
    ensures
        final(reactor).inv(),
        match *old(slot) {
            Some(id) => {
                &&& old(reactor)@.polled_into(final(reactor)@, id@, context_waker(*context))
                &&& progress == readiness(old(reactor)@.states[id@].poll_result())
                &&& bits_of(*final(slot)) == if progress is Ready {
                    None
                } else {
                    Some(id@)
                }
            },
            None => {
                &&& progress is Pending
                &&& *final(slot) matches Some(id) && !old(reactor)@.is_live(id@)
                    && final(reactor)@ == old(reactor)@.queued(
                    id@,
                    poll_request(fd, writable),
                    Some(context_waker(*context)),
                )
            },
        },
{
    let id = match *slot {
        Some(id) => id,
        None => {
            let entry = if writable {
                poll_writable_entry(fd)
            } else {
                poll_readable_entry(fd)
            };
            let id = reactor.queue_submission(entry, Some(context));
            *slot = Some(id);
            id
        },
    };
    let ghost polled = reactor@;
    let progress = reactor.poll_completion(id, context);
    proof {
        if old(slot).is_none() {
            assert(reactor@.states =~= polled.states);
        }
    }
    match progress {
        Poll::Ready(entry) => {
            *slot = None;
            Poll::Ready(status(entry))
        },
        Poll::Pending => Poll::Pending,
    }
}

/// The registrations that an I/O object keeps with the kernel's poll
/// interface: at most one request each for reading and for writing, and
/// one request that shuts the object down or withdraws one of the others.
pub struct Readiness {
    read: Option<OperationId>,
    write: Option<OperationId>,
    shutdown: Option<OperationId>,
}

impl Readiness {
    /// The poll request for reading that is in flight.
    pub closed spec fn reading(&self) -> Option<u64> {
        bits_of(self.read)
    }

    /// The poll request for writing that is in flight.
    pub closed spec fn writing(&self) -> Option<u64> {
        bits_of(self.write)
    }

    /// The request in flight that withdraws a poll request or shuts the
    /// object down.
    pub closed spec fn closing(&self) -> Option<u64> {
        bits_of(self.shutdown)
    }

    /// The requests in flight: for reading, for writing, for closing.
    pub open spec fn registered(&self) -> Seq<u64> {
        let reading = match self.reading() {
            Some(id) => seq![id],
            None => Seq::empty(),
        };
        let writing = match self.writing() {
            Some(id) => seq![id],
            None => Seq::empty(),
        };
        let closing = match self.closing() {
            Some(id) => seq![id],
            None => Seq::empty(),
        };
        reading + writing + closing
    }

    pub fn new() -> (registrations: Self)
        ensures
            registrations.reading().is_none(),
            registrations.writing().is_none(),
            registrations.closing().is_none(),
    {
        Readiness { read: None, write: None, shutdown: None }
    }

    /// Whether `poll_readable` can be called with the reactor.
    pub fn can_poll_readable(&self, reactor: &Reactor) -> (allowed: bool)
        ensures
            allowed == registration_pollable(self.reading(), reactor@),
    {
        match self.read {
            Some(id) => reactor.can_poll(id),
            None => reactor.live_count() < u32::MAX as usize,
        }
    }

    /// Whether `poll_writable` can be called with the reactor.
    pub fn can_poll_writable(&self, reactor: &Reactor) -> (allowed: bool)
        ensures
            allowed == registration_pollable(self.writing(), reactor@),
    {
        match self.write {
            Some(id) => reactor.can_poll(id),
            None => reactor.live_count() < u32::MAX as usize,
        }
    }

    /// Whether `poll_shutdown` can be called with the reactor.
    pub fn can_poll_shutdown(&self, reactor: &Reactor) -> (allowed: bool)
        ensures
            allowed == shutdown_pollable(self.closing(), reactor@),
    {
        let room = reactor.live_count() < u32::MAX as usize;
        match self.shutdown {
            Some(id) => room && reactor.can_poll(id),
            None => room,
        }
    }

    /// Wait until the file can be read. A poll request is made if none is
    /// in flight. Once its completion is there the registration ends, and
    /// the answer is the request's status: on success the caller reads,
    /// and comes back here if there was nothing to read after all.
    pub fn poll_readable(&mut self, fd: i32, reactor: &mut Reactor, context: &Context) -> (progress:
        Poll<Result<(), Errno>>)
        requires
            old(reactor).inv(),
            registration_pollable(old(self).reading(), old(reactor)@),
        ensures
            final(reactor).inv(),
            final(self).writing() == old(self).writing(),
            final(self).closing() == old(self).closing(),
            match old(self).reading() {
                Some(id) => {
                    &&& old(reactor)@.polled_into(final(reactor)@, id, context_waker(*context))
                    &&& progress == readiness(old(reactor)@.states[id].poll_result())
                    &&& final(self).reading() == if progress is Ready {
                        None
                    } else {
                        Some(id)
                    }
                },
                None => {
                    &&& progress is Pending
                    &&& final(self).reading() matches Some(id) && !old(reactor)@.is_live(id)
                        && final(reactor)@ == old(reactor)@.queued(
                        id,
                        poll_readable_request(fd),
                        Some(context_waker(*context)),
                    )
                },
            },
    {
        poll_interest(&mut self.read, fd, false, reactor, context)
    }

    /// Wait until the file can be written, as `poll_readable` does for
    /// reading.
    pub fn poll_writable(&mut self, fd: i32, reactor: &mut Reactor, context: &Context) -> (progress:
        Poll<Result<(), Errno>>)
        requires
            old(reactor).inv(),
            registration_pollable(old(self).writing(), old(reactor)@),
        ensures
            final(reactor).inv(),
            final(self).reading() == old(self).reading(),
            final(self).closing() == old(self).closing(),
            match old(self).writing() {
                Some(id) => {
                    &&& old(reactor)@.polled_into(final(reactor)@, id, context_waker(*context))
                    &&& progress == readiness(old(reactor)@.states[id].poll_result())
                    &&& final(self).writing() == if progress is Ready {
                        None
                    } else {
                        Some(id)
                    }
                },
                None => {
                    &&& progress is Pending
                    &&& final(self).writing() matches Some(id) && !old(reactor)@.is_live(id)
                        && final(reactor)@ == old(reactor)@.queued(
                        id,
                        poll_writable_request(fd),
                        Some(context_waker(*context)),
                    )
                },
            },
    {
        poll_interest(&mut self.write, fd, true, reactor, context)
    }

    /// The poll request that a shutdown withdraws next: the one for reading
    /// if there is one, else the one for writing.
    pub open spec fn withdrawn_next(&self) -> Option<u64> {
        if self.reading().is_some() {
            self.reading()
        } else {
            self.writing()
        }
    }

    /// Whether `after` holds the registrations that are left of `self` once
    /// the request in flight has completed: the poll request that was
    /// being withdrawn is gone, and no request is in flight.
    pub open spec fn withdrawn_into(&self, after: Readiness) -> bool {
        &&& after.closing().is_none()
        &&& after.reading().is_none()
        &&& after.writing() == if self.reading().is_some() {
            self.writing()
        } else {
            None
        }
    }

    /// Whether `after` holds the registrations of `self` with the next
    /// request in flight, and `reactor` is what `before` becomes when that
    /// request is queued for the task that `notifier` wakes.
    pub open spec fn requested_into(
        &self,
        after: Readiness,
        fd: i32,
        before: ReactorView,
        reactor: ReactorView,
        notifier: Waker,
    ) -> bool {
        &&& after.reading() == self.reading()
        &&& after.writing() == self.writing()
        &&& after.closing().is_some()
        &&& !before.is_live(after.closing().unwrap())
        &&& reactor == before.queued(
            after.closing().unwrap(),
            self.next_request(fd),
            Some(notifier),
        )
    }

    /// The request that a shutdown makes next: it withdraws the poll
    /// request for reading, else the one for writing, and once there is
    /// none it shuts the socket down.
    pub open spec fn next_request(&self, fd: i32) -> Entry {
        match self.withdrawn_next() {
            Some(target) => poll_remove_request(target),
            None => shutdown_request(fd),
        }
    }

    /// Whether the request that was in flight has completed well and has
    /// withdrawn a poll request: `left` holds the registrations that are
    /// left of `self`, and `polled` is what `before` becomes when the
    /// completion is taken by the task that `notifier` wakes.
    pub open spec fn withdrew_into(
        &self,
        left: Readiness,
        before: ReactorView,
        polled: ReactorView,
        notifier: Waker,
    ) -> bool {
        &&& self.closing() matches Some(closing)
        &&& before.polled_into(polled, closing, notifier)
        &&& before.states[closing].poll_result() matches Poll::Ready(entry)
        &&& completion_status(entry).is_ok()
        &&& self.withdrawn_next().is_some()
        &&& self.withdrawn_into(left)
    }

    /// Shut the socket down, one step at a time.
    ///
    /// While a request is in flight, its completion is awaited. With the
    /// completion of a request that withdrew a poll request, that poll
    /// request is forgotten, and an error ends the call. With the
    /// completion of the shutdown request the call ends with its status.
    /// Where no request is in flight, or one has just completed well, the
    /// next is made: it withdraws the poll request for reading, else the
    /// one for writing, and once there is none it shuts the socket down.
    pub fn poll_shutdown(&mut self, fd: i32, reactor: &mut Reactor, context: &Context) -> (progress:
        Poll<Result<(), Errno>>)
        requires
            old(reactor).inv(),
            shutdown_pollable(old(self).closing(), old(reactor)@),
        ensures
            final(reactor).inv(),
            match old(self).closing() {
                Some(closing) => match old(reactor)@.states[closing].poll_result() {
                    Poll::Pending => {
                        &&& progress is Pending
                        &&& final(self).reading() == old(self).reading()
                        &&& final(self).writing() == old(self).writing()
                        &&& final(self).closing() == old(self).closing()
                        &&& old(reactor)@.polled_into(
                            final(reactor)@,
                            closing,
                            context_waker(*context),
                        )
                    },
                    Poll::Ready(entry) => if old(self).withdrawn_next().is_some()
                        && completion_status(entry).is_ok() {
                        &&& progress is Pending
                        &&& exists|left: Readiness, polled: ReactorView|
                            {
                                &&& #[trigger] old(self).withdrew_into(
                                    left,
                                    old(reactor)@,
                                    polled,
                                    context_waker(*context),
                                )
                                &&& left.requested_into(
                                    *final(self),
                                    fd,
                                    polled,
                                    final(reactor)@,
                                    context_waker(*context),
                                )
                            }
                    } else {
                        &&& progress == Poll::Ready(completion_status(entry))
                        &&& old(self).withdrawn_into(*final(self))
                        &&& old(reactor)@.polled_into(
                            final(reactor)@,
                            closing,
                            context_waker(*context),
                        )
                    },
                },
                None => {
                    &&& progress is Pending
                    &&& old(self).requested_into(
                        *final(self),
                        fd,
                        old(reactor)@,
                        final(reactor)@,
                        context_waker(*context),
                    )
                },
            },
    {
        let ghost notifier = context_waker(*context);
        let ghost left = *self;
        let ghost polled = reactor@;
        let ghost step = 0int;
        loop
            invariant
                reactor.inv(),
                notifier == context_waker(*context),
                0 <= step <= 2,
                step == 0 ==> *self == *old(self) && reactor@ == old(reactor)@ && shutdown_pollable(
                    self.closing(),
                    reactor@,
                ),
                step == 0 ==> left == *old(self) && polled == old(reactor)@,
                step >= 1 ==> left.closing().is_none(),
                step == 1 ==> *self == left && reactor@ == polled && reactor@.states.len()
                    < u32::MAX,
                step == 1 ==> old(self).withdrew_into(left, old(reactor)@, polled, notifier),
                step == 2 ==> left.requested_into(*self, fd, polled, reactor@, notifier),
                step == 2 ==> (left == *old(self) && polled == old(reactor)@) || old(
                    self,
                ).withdrew_into(left, old(reactor)@, polled, notifier),
            decreases 2 - step,
        {
            let reads = self.read.is_some();
            let target = if reads {
                self.read
            } else {
                self.write
            };
            match (target, self.shutdown) {
                (Some(_), Some(id)) => {
                    let ghost before = reactor@;
                    let progress = reactor.poll_completion(id, context);
                    match progress {
                        Poll::Pending => {
                            proof {
                                if step == 2 {
                                    assert(reactor@.states =~= before.states);
                                }
                            }
                            return Poll::Pending;
                        },
                        Poll::Ready(entry) => {
                            self.shutdown = None;
                            if reads {
                                self.read = None;
                            } else {
                                self.write = None;
                            }
                            if let Err(errno) = status(entry) {
                                return Poll::Ready(Err(errno));
                            }
                            proof {
                                left = *self;
                                polled = reactor@;
                                step = 1;
                            }
                        },
                    }
                },
                (Some(target), None) => {
                    let entry = poll_remove_entry(target.to_bits());
                    let id = reactor.queue_submission(entry, Some(context));
                    self.shutdown = Some(id);
                    proof {
                        assert(reactor@ == polled.queued(
                            self.closing().unwrap(),
                            entry,
                            Some(notifier),
                        ));
                        step = 2;
                    }
                },
                (None, Some(id)) => {
                    let ghost before = reactor@;
                    let progress = reactor.poll_completion(id, context);
                    match progress {
                        Poll::Pending => {
                            proof {
                                if step == 2 {
                                    assert(reactor@.states =~= before.states);
                                }
                            }
                            return Poll::Pending;
                        },
                        Poll::Ready(entry) => {
                            self.shutdown = None;
                            return Poll::Ready(status(entry));
                        },
                    }
                },
                (None, None) => {
                    let entry = shutdown_entry(fd);
                    let id = reactor.queue_submission(entry, Some(context));
                    self.shutdown = Some(id);
                    proof {
                        assert(reactor@ == polled.queued(
                            self.closing().unwrap(),
                            entry,
                            Some(notifier),
                        ));
                        step = 2;
                    }
                },
            }
        }
    }

    /// Whether `release` can be called with the reactor: every request in
    /// flight has a slot, and no two are the same.
    pub fn can_release(&self, reactor: &Reactor) -> (allowed: bool)
        ensures
            allowed == reactor@.all_live(self.registered()),
    {
        let live = (match self.read {
            Some(id) => reactor.is_live(id),
            None => true,
        }) && (match self.write {
            Some(id) => reactor.is_live(id),
            None => true,
        }) && (match self.shutdown {
            Some(id) => reactor.is_live(id),
            None => true,
        });
        let apart = (match (self.read, self.write) {
            (Some(first), Some(second)) => first.to_bits() != second.to_bits(),
            _ => true,
        }) && (match (self.read, self.shutdown) {
            (Some(first), Some(second)) => first.to_bits() != second.to_bits(),
            _ => true,
        }) && (match (self.write, self.shutdown) {
            (Some(first), Some(second)) => first.to_bits() != second.to_bits(),
            _ => true,
        });
        proof {
            let ids = self.registered();
            if self.read.is_some() {
                assert(ids[0] == self.read.unwrap()@);
            }
            if self.write.is_some() {
                assert(ids[if self.read.is_some() { 1int } else { 0int }] == self.write.unwrap()@);
            }
            if self.shutdown.is_some() {
                assert(ids[ids.len() - 1] == self.shutdown.unwrap()@);
            }
        }
        live && apart
    }

    /// Give every request in flight up, as is due when the I/O object is
    /// dropped: the reactor is told to ignore each of them.
    pub fn release(&mut self, reactor: &mut Reactor)
        requires
            old(reactor).inv(),
            old(reactor)@.all_live(old(self).registered()),
        ensures
            final(reactor).inv(),
            final(self).registered() == Seq::<u64>::empty(),
            final(reactor)@ == old(reactor)@.ignored_all(
                old(self).registered(),
                Seq::new(old(self).registered().len(), |at: int| None::<Allocations>),
            ),
    {
        let ghost before = reactor@;
        let ghost ids = self.registered();
        let ghost done = Seq::<u64>::empty();
        let ghost data = Seq::<Option<Allocations>>::empty();
        proof {
            if self.read.is_some() {
                assert(ids[0] == self.read.unwrap()@);
            }
            if self.write.is_some() {
                assert(ids[if self.read.is_some() { 1int } else { 0int }] == self.write.unwrap()@);
            }
            if self.shutdown.is_some() {
                assert(ids[ids.len() - 1] == self.shutdown.unwrap()@);
            }
        }
        if let Some(id) = self.read.take() {
            proof {
                assert(ids[0] == id@);
                lemma_ignored_all_push(before, done, data, id@, None);
                if self.write.is_some() {
                    lemma_ignored_frame(reactor@, id@, None, self.write.unwrap()@);
                }
                if self.shutdown.is_some() {
                    lemma_ignored_frame(reactor@, id@, None, self.shutdown.unwrap()@);
                }
                done = done.push(id@);
                data = data.push(None);
            }
            reactor.ignore_operation(id, None);
        }
        if let Some(id) = self.write.take() {
            proof {
                lemma_ignored_all_push(before, done, data, id@, None);
                if self.shutdown.is_some() {
                    lemma_ignored_frame(reactor@, id@, None, self.shutdown.unwrap()@);
                }
                done = done.push(id@);
                data = data.push(None);
            }
            reactor.ignore_operation(id, None);
        }
        if let Some(id) = self.shutdown.take() {
            proof {
                lemma_ignored_all_push(before, done, data, id@, None);
                done = done.push(id@);
                data = data.push(None);
            }
            reactor.ignore_operation(id, None);
        }
        proof {
            assert(done =~= ids);
            assert(data =~= Seq::new(ids.len(), |at: int| None::<Allocations>));
        }
    }
}

} // verus!
