//! Operations that touch no file: the no-op and the linked timeout.
use crate::entry::{entry_opcode, Completion, Errno};
use crate::operation::definition::{Oneshot, Operation};
use crate::state::Allocations;
use io_uring::squeue::Entry;
use io_uring::types::{TimeoutFlags, Timespec};
use std::time::{Duration, SystemTime};
use vstd::prelude::*;

verus! {

/// The kernel's time value: seconds and nanoseconds.
#[verifier::external_type_specification]
#[verifier::external_body]
pub struct ExTimespec(Timespec);

/// The flags of a timeout, which say how its time is to be read.
#[verifier::external_type_specification]
#[verifier::external_body]
pub struct ExTimeoutFlags(TimeoutFlags);

/// std's point in time on the system clock.
#[verifier::external_type_specification]
#[verifier::external_body]
pub struct ExSystemTime(SystemTime);

/// The opcode of a request that does nothing.
pub const OPCODE_NOP: u32 = 0;

/// The opcode of a request that limits the time of the request it is
/// linked behind.
pub const OPCODE_LINK_TIMEOUT: u32 = 15;

/// The time value that `Timespec::from` makes of a duration: its whole
/// seconds and the nanoseconds beyond them.
pub uninterp spec fn timespec_from(duration: Duration) -> Timespec;

/// The time value that `Timespec::new` makes when it is given seconds with
/// `Timespec::sec` and nanoseconds with `Timespec::nsec`.
pub uninterp spec fn timespec_at(seconds: u64, nanoseconds: u32) -> Timespec;

/// The duration that `SystemTime::duration_since` finds between the start
/// of the Unix epoch and a time, if the time is not before it.
pub uninterp spec fn since_epoch_of(time: SystemTime) -> Option<Duration>;

/// Builds the entry of `opcode::Nop`, whose opcode is that of the no-op.
#[verifier::external_body]
fn nop_entry() -> (entry: Entry)
    ensures
        entry_opcode(entry) == OPCODE_NOP,
{
    io_uring::opcode::Nop::new().build()
}

/// Converts a duration with `Timespec::from`.
#[verifier::external_body]
fn timespec_of(duration: Duration) -> (time: Timespec)
    ensures
        time == timespec_from(duration),
{
    Timespec::from(duration)
}

/// Calls `Timespec::new` and gives the time value its seconds and
/// nanoseconds with `Timespec::sec` and `Timespec::nsec`.
#[verifier::external_body]
fn timespec_with(seconds: u64, nanoseconds: u32) -> (time: Timespec)
    ensures
        time == timespec_at(seconds, nanoseconds),
{
    Timespec::new().sec(seconds).nsec(nanoseconds)
}

/// Calls `SystemTime::duration_since` with the start of the Unix epoch,
/// which fails for a time before it.
#[verifier::external_body]
fn since_epoch(time: SystemTime) -> (elapsed: Option<Duration>)
    ensures
        elapsed == since_epoch_of(time),
{
    time.duration_since(std::time::UNIX_EPOCH).ok()
}

/// Calls `TimeoutFlags::empty`: the time counts from the submission.
#[verifier::external_body]
fn relative_flags() -> TimeoutFlags {
    TimeoutFlags::empty()
}

/// Joins `TimeoutFlags::ABS` and `TimeoutFlags::REALTIME`: the time is a
/// point on the system's real-time clock.
#[verifier::external_body]
fn absolute_flags() -> TimeoutFlags {
    TimeoutFlags::ABS | TimeoutFlags::REALTIME
}

/// Builds the entry of `opcode::LinkTimeout`, which points at the time
/// value and whose opcode is that of the linked timeout.
#[verifier::external_body]
fn link_timeout_entry(time: &Timespec, flags: TimeoutFlags) -> (entry: Entry)
    ensures
        entry_opcode(entry) == OPCODE_LINK_TIMEOUT,
{
    io_uring::opcode::LinkTimeout::new(time).flags(flags).build()
}

/// Operation that does nothing.
#[must_use]
#[non_exhaustive]
pub struct Nop {}

impl Nop {
    pub fn new() -> Self {
        Nop {  }
    }
}

impl Operation for Nop {
    type Output = ();

    /// The entry asks for nothing to be done.
    open spec fn builds(&self, entry: Entry) -> bool {
        entry_opcode(entry) == OPCODE_NOP
    }

    /// Nothing has to be kept alive for the kernel.
    open spec fn retains(&self, data: Option<Allocations>) -> bool {
        data.is_none()
    }

    fn build_submission(&mut self) -> (entry: Entry) {
        nop_entry()
    }

    fn handle_completion(&mut self, entry: Completion) -> (output: Self::Output) {
    }

    fn take_required_allocations(&mut self) -> (data: Option<Allocations>) {
        None
    }
}

impl Oneshot for Nop {

}

/// Operation that puts a time limit on the operation it is linked behind.
///
/// When the limit passes first, the kernel cancels the operation before
/// it and this one reports that the time has expired. When the operation
/// before it ends first, this one reports that it was cancelled.
#[must_use]
pub struct LinkTimeout {
    time: Timespec,
    absolute: bool,
}

impl LinkTimeout {
    /// The time of the limit.
    pub closed spec fn time(&self) -> Timespec {
        self.time
    }

    /// Whether the time is a point on the system's real-time clock, and
    /// not a span that counts from the moment of submission.
    pub closed spec fn absolute_time(&self) -> bool {
        self.absolute
    }

    /// A limit that counts from the moment of submission.
    pub fn relative(duration: Duration) -> (limit: Self)
        ensures
            limit.time() == timespec_from(duration),
            !limit.absolute_time(),
    {
        LinkTimeout { time: timespec_of(duration), absolute: false }
    }

    /// A limit at a point in time. A time before the Unix epoch counts as
    /// its start.
    pub fn absolute(time: SystemTime) -> (limit: Self)
        ensures
            limit.time() == match since_epoch_of(time) {
                Some(elapsed) => timespec_from(elapsed),
                None => timespec_at(0, 0),
            },
            limit.absolute_time(),
    {
        let time = match since_epoch(time) {
            Some(duration) => timespec_of(duration),
            None => timespec_with(0, 0),
        };
        LinkTimeout { time, absolute: true }
    }

    /// The time of the limit.
    pub fn time_limit(&self) -> (time: Timespec)
        ensures
            time == self.time(),
    {
        self.time
    }

    /// Whether the time is a point on the system's real-time clock.
    pub fn is_absolute(&self) -> (absolute: bool)
        ensures
            absolute == self.absolute_time(),
    {
        self.absolute
    }
}

/// What a completion tells of an operation that yields no value: success,
/// or the error number.
pub open spec fn completion_status(entry: Completion) -> Result<(), Errno> {
    match entry.decoded() {
        Ok(_) => Ok(()),
        Err(errno) => Err(errno),
    }
}

impl Operation for LinkTimeout {
    type Output = Result<(), Errno>;

    /// The entry asks for a limit on the time of the request before it.
    open spec fn builds(&self, entry: Entry) -> bool {
        entry_opcode(entry) == OPCODE_LINK_TIMEOUT
    }

    /// The output is the status that the completion reports.
    open spec fn completes(&self, entry: Completion, output: Result<(), Errno>) -> bool {
        output == completion_status(entry)
    }

    /// Nothing has to be kept alive for the kernel.
    open spec fn retains(&self, data: Option<Allocations>) -> bool {
        data.is_none()
    }

    fn build_submission(&mut self) -> (entry: Entry)
        ensures
            final(self).time() == old(self).time(),
            final(self).absolute_time() == old(self).absolute_time(),
    {
        let flags = if self.absolute {
            absolute_flags()
        } else {
            relative_flags()
        };
        link_timeout_entry(&self.time, flags)
    }

    fn handle_completion(&mut self, entry: Completion) -> (output: Self::Output) {
        match entry.outcome() {
            Ok(_) => Ok(()),
            Err(errno) => Err(errno),
        }
    }

    fn take_required_allocations(&mut self) -> (data: Option<Allocations>) {
        None
    }
}

impl Oneshot for LinkTimeout {

}

} // verus!
