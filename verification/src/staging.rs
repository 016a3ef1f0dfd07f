//! The insertion-ordered map of `indexmap`, hashed with `fnv`, which holds
//! the entries that were queued and not yet pushed to the kernel.
use fnv::FnvBuildHasher;
use indexmap::IndexMap;
use io_uring::squeue::Entry;
use vstd::prelude::*;

verus! {

/// The map itself.
#[verifier::external_type_specification]
#[verifier::external_body]
#[verifier::reject_recursive_types(K)]
#[verifier::reject_recursive_types(V)]
#[verifier::reject_recursive_types(S)]
pub struct ExIndexMap<K, V, S>(IndexMap<K, V, S>);

/// The hasher of `fnv`.
#[verifier::external_type_specification]
#[verifier::external_body]
pub struct ExFnvHasher(fnv::FnvHasher);

/// std's builder of default hashers, which `FnvBuildHasher` is made of.
#[verifier::external_type_specification]
#[verifier::external_body]
#[verifier::reject_recursive_types(H)]
pub struct ExBuildHasherDefault<H>(std::hash::BuildHasherDefault<H>);

/// The staging buffer: entries under the bits of their operation, each
/// with the mark of whether it was staged as linked to the entry behind
/// it.
pub type Staging = IndexMap<u64, (Entry, bool), FnvBuildHasher>;

/// The entries that a staging buffer holds, in the order of insertion.
pub uninterp spec fn staged_entries(staging: Staging) -> Seq<(u64, Entry)>;

/// The marks that a staging buffer holds, one for each entry and in the
/// same order.
pub uninterp spec fn staged_links(staging: Staging) -> Seq<bool>;

/// The marks of a staging buffer that holds nothing.
pub open spec fn no_links() -> Seq<bool> {
    Seq::empty()
}

/// The marks that are left when the pair of a key is taken out.
pub open spec fn links_without(entries: Seq<(u64, Entry)>, links: Seq<bool>, key: u64) -> Seq<
    bool,
> {
    match staged_position(entries, key) {
        Some(at) => links.remove(at),
        None => links,
    }
}

/// The contents of a staging buffer that holds nothing.
pub open spec fn nothing_staged() -> Seq<(u64, Entry)> {
    Seq::empty()
}

/// The place of a key among staged entries, if it is there.
pub open spec fn staged_position(entries: Seq<(u64, Entry)>, key: u64) -> Option<int> {
    if exists|i: int| 0 <= i < entries.len() && (#[trigger] entries[i]).0 == key {
        Some(choose|i: int| 0 <= i < entries.len() && (#[trigger] entries[i]).0 == key)
    } else {
        None
    }
}

/// Calls `IndexMap::with_capacity_and_hasher`, which makes an empty map.
#[verifier::external_body]
pub(crate) fn staging_with_capacity(capacity: usize) -> (staging: Staging)
    ensures
        staged_entries(staging) == nothing_staged(),
        staged_links(staging) == no_links(),
{
    IndexMap::with_capacity_and_hasher(capacity, FnvBuildHasher::default())
}

/// Calls `IndexMap::len`.
#[verifier::external_body]
pub(crate) fn staging_len(staging: &Staging) -> (len: usize)
    ensures
        len == staged_entries(*staging).len(),
{
    staging.len()
}

/// Calls `IndexMap::contains_key`.
#[verifier::external_body]
pub(crate) fn staging_contains(staging: &Staging, key: u64) -> (found: bool)
    ensures
        found == staged_position(staged_entries(*staging), key).is_some(),
{
    staging.contains_key(&key)
}

/// Calls `IndexMap::insert` with a key that the map does not hold, which
/// puts the pair last in order.
#[verifier::external_body]
pub(crate) fn staging_insert(staging: &mut Staging, key: u64, entry: Entry, linked: bool)
    requires
        staged_position(staged_entries(*old(staging)), key).is_none(),
    ensures
        staged_entries(*final(staging)) == staged_entries(*old(staging)).push((key, entry)),
        staged_links(*final(staging)) == staged_links(*old(staging)).push(linked),
{
    staging.insert(key, (entry, linked));
}

/// The entries that are left when the pair of a key is taken out, if
/// there is one: the others keep their order.
pub open spec fn staged_without(entries: Seq<(u64, Entry)>, key: u64) -> Seq<(u64, Entry)> {
    match staged_position(entries, key) {
        Some(at) => entries.remove(at),
        None => entries,
    }
}

/// The entry that is staged under a key, if there is one.
pub open spec fn staged_under(entries: Seq<(u64, Entry)>, key: u64) -> Option<Entry> {
    match staged_position(entries, key) {
        Some(at) => Some(entries[at].1),
        None => None,
    }
}

/// Calls `IndexMap::shift_remove`, which takes out the pair of the key, if
/// there is one, hands its entry out and keeps the order of the others.
#[verifier::external_body]
pub(crate) fn staging_shift_remove(staging: &mut Staging, key: u64) -> (removed: Option<Entry>)
    ensures
        removed == staged_under(staged_entries(*old(staging)), key),
        staged_entries(*final(staging)) == staged_without(staged_entries(*old(staging)), key),
        staged_links(*final(staging)) == links_without(
            staged_entries(*old(staging)),
            staged_links(*old(staging)),
            key,
        ),
{
    staging.shift_remove(&key).map(|(entry, _)| entry)
}

/// The entries that are staged, in their order and without their keys.
pub open spec fn staged_values(entries: Seq<(u64, Entry)>) -> Seq<Entry> {
    Seq::new(entries.len(), |at: int| entries[at].1)
}

/// Calls `IndexMap::drain` over the whole map, which empties it and hands
/// the pairs out in order. The entries are collected, without their keys.
#[verifier::external_body]
pub(crate) fn staging_drain(staging: &mut Staging) -> (entries: Vec<Entry>)
    ensures
        entries@ == staged_values(staged_entries(*old(staging))),
        staged_entries(*final(staging)) == nothing_staged(),
        staged_links(*final(staging)) == no_links(),
{
    staging.drain(..).map(|(_, (entry, _))| entry).collect()
}

/// Calls `IndexMap::drain` over the first `count` pairs, which takes them
/// out, hands them out in order and keeps the others in their order. It
/// panics if the map holds fewer. The entries are collected, without
/// their keys and marks.
#[verifier::external_body]
pub(crate) fn staging_drain_front(staging: &mut Staging, count: usize) -> (entries: Vec<Entry>)
    requires
        count <= staged_entries(*old(staging)).len(),
    ensures
        entries@ == staged_values(staged_entries(*old(staging)).take(count as int)),
        staged_entries(*final(staging)) == staged_entries(*old(staging)).skip(count as int),
        staged_links(*final(staging)) == staged_links(*old(staging)).skip(count as int),
{
    staging.drain(..count).map(|(_, (entry, _))| entry).collect()
}

/// Indexes the map by position, which borrows the value at that place in
/// the order and panics if there is none. The mark is handed out.
#[verifier::external_body]
pub(crate) fn staging_linked_at(staging: &Staging, at: usize) -> (linked: bool)
    requires
        at < staged_entries(*staging).len(),
    ensures
        linked == staged_links(*staging)[at as int],
{
    staging[at].1
}

} // verus!
