//! Kernel entries: the submission entries of `io_uring`, which the reactor
//! carries without looking inside, and the completions that it routes.
use io_uring::squeue::Entry;
use vstd::prelude::*;

verus! {

/// A submission entry of `io_uring`. Nothing of its contents is visible to
/// proofs but what the names below say.
#[verifier::external_type_specification]
#[verifier::external_body]
pub struct ExEntry(Entry);

/// The user data that `Entry::get_user_data` reads from an entry.
pub uninterp spec fn entry_user_data(entry: Entry) -> u64;

/// The opcode that `Entry::get_opcode` reads from an entry: the kind of
/// request that the entry asks of the kernel.
pub uninterp spec fn entry_opcode(entry: Entry) -> u32;

/// The entry that `Entry::user_data` makes of an entry and a user data value.
pub uninterp spec fn tagged_entry(entry: Entry, user_data: u64) -> Entry;

/// The entry that `Entry::flags` makes of an entry when it is given the link
/// flag.
pub uninterp spec fn linked_entry(entry: Entry) -> Entry;

/// `Entry::user_data` overwrites the user data field of the entry and leaves
/// the rest as it was.
pub assume_specification[ Entry::user_data ](entry: Entry, user_data: u64) -> (tagged: Entry)
    ensures
        tagged == tagged_entry(entry, user_data),
        entry_user_data(tagged) == user_data,
        entry_opcode(tagged) == entry_opcode(entry),
;

/// `Entry::get_user_data` reads the user data field.
pub assume_specification[ Entry::get_user_data ](entry: &Entry) -> (user_data: u64)
    ensures
        user_data == entry_user_data(*entry),
;

/// `Entry::get_opcode` reads the opcode field.
pub assume_specification[ Entry::get_opcode ](entry: &Entry) -> (opcode: u32)
    ensures
        opcode == entry_opcode(*entry),
;

/// Whether an entry asks the kernel for the kind of request that the
/// opcode stands for.
pub fn requests(entry: &Entry, opcode: u32) -> (asked: bool)
    ensures
        asked == (entry_opcode(*entry) == opcode),
{
    entry.get_opcode() == opcode
}

/// Calls `Entry::flags` with `Flags::IO_LINK`, which sets that bit among the
/// entry's flags and touches no other field, the user data included.
#[verifier::external_body]
pub(crate) fn link_entry(entry: Entry) -> (linked: Entry)
    ensures
        linked == linked_entry(entry),
        entry_user_data(linked) == entry_user_data(entry),
        entry_opcode(linked) == entry_opcode(entry),
{
    entry.flags(io_uring::squeue::Flags::IO_LINK)
}

/// `cqueue::more` tests the bit that announces further completions of the
/// same submission.
pub assume_specification[ io_uring::cqueue::more ](flags: u32) -> (more: bool)
    ensures
        more == flags_announce_more(flags),
;

/// Whether completion flags carry the "more completions to come" bit.
pub open spec fn flags_announce_more(flags: u32) -> bool {
    flags & 2 != 0
}

/// A platform error number, as the kernel reports it negated in a
/// completion's result.
#[derive(Clone, Copy, Debug, PartialEq, Eq, Structural)]
pub struct Errno {
    pub code: i32,
}

impl Errno {
    /// Whether an error of the operating system carries this error
    /// number.
    pub fn reported_by(&self, raw_os_error: Option<i32>) -> (reported: bool)
        ensures
            reported == (raw_os_error == Some(self.code)),
    {
        match raw_os_error {
            Some(code) => code == self.code,
            None => false,
        }
    }
}

/// What the kernel reports of one submission: the user data it was
/// submitted with, the result code and the completion flags.
#[derive(Clone, Copy, Debug, PartialEq, Eq, Structural)]
pub struct Completion {
    pub user_data: u64,
    pub result: i32,
    pub flags: u32,
}

impl Completion {
    pub fn new(user_data: u64, result: i32, flags: u32) -> (entry: Self)
        ensures
            entry == (Completion { user_data, result, flags }),
    {
        Completion { user_data, result, flags }
    }

    /// Whether further completions of the same submission will follow.
    pub open spec fn has_more(&self) -> bool {
        flags_announce_more(self.flags)
    }

    /// The outcome that the result code stands for: a count when it is not
    /// negative, else the error number, which is the result negated. The
    /// one result that has no negation stands for itself.
    pub open spec fn decoded(&self) -> Result<u32, Errno> {
        if self.result >= 0 {
            Ok(self.result as u32)
        } else if self.result == i32::MIN {
            Err(Errno { code: i32::MIN })
        } else {
            Err(Errno { code: (-self.result) as i32 })
        }
    }

    pub fn result(&self) -> (result: i32)
        ensures
            result == self.result,
    {
        self.result
    }

    pub fn user_data(&self) -> (user_data: u64)
        ensures
            user_data == self.user_data,
    {
        self.user_data
    }

    pub fn flags(&self) -> (flags: u32)
        ensures
            flags == self.flags,
    {
        self.flags
    }

    pub fn more(&self) -> (more: bool)
        ensures
            more == self.has_more(),
    {
        io_uring::cqueue::more(self.flags)
    }

    pub fn outcome(&self) -> (outcome: Result<u32, Errno>)
        ensures
            outcome == self.decoded(),
    {
        if self.result >= 0 {
            Ok(self.result as u32)
        } else if self.result == i32::MIN {
            Err(Errno { code: i32::MIN })
        } else {
            Err(Errno { code: -self.result })
        }
    }
}

} // verus!
