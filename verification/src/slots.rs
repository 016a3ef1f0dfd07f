//! The generational arena of `thunderdome`, which holds the state of every
//! operation under an index that is never handed out twice while in use.
use crate::state::OperationState;
use thunderdome::{Arena, Index};
use vstd::prelude::*;

verus! {

/// An index into an arena: a slot and the generation of its content.
#[verifier::external_type_specification]
#[verifier::external_body]
pub struct ExIndex(Index);

/// The arena itself.
#[verifier::external_type_specification]
#[verifier::external_body]
#[verifier::reject_recursive_types(T)]
pub struct ExArena<T>(Arena<T>);

/// The 64 bits that `Index::to_bits` makes of an index: the generation in
/// the upper half, the slot in the lower.
pub uninterp spec fn index_bits(index: Index) -> u64;

/// What an arena holds, each value under the bits of its index.
pub uninterp spec fn arena_states(arena: Arena<OperationState>) -> Map<u64, OperationState>;

/// The contents of an arena that holds nothing.
pub open spec fn empty_states() -> Map<u64, OperationState> {
    Map::empty()
}

/// Whether 64 bits can be those of an index: the generation is never zero.
pub open spec fn names_index(bits: u64) -> bool {
    bits >> 32 != 0
}

/// `Index::to_bits` packs generation and slot; the generation is not zero.
pub assume_specification[ Index::to_bits ](index: Index) -> (bits: u64)
    ensures
        bits == index_bits(index),
        names_index(bits),
;

/// `Index::from_bits` undoes `Index::to_bits`, and refuses bits whose
/// generation is zero.
pub assume_specification[ Index::from_bits ](bits: u64) -> (parsed: Option<Index>)
    ensures
        match parsed {
            Some(index) => names_index(bits) && index_bits(index) == bits,
            None => !names_index(bits),
        },
;

/// Calls `Arena::with_capacity`, which makes an empty arena.
#[verifier::external_body]
pub(crate) fn arena_with_capacity(capacity: usize) -> (arena: Arena<OperationState>)
    ensures
        arena_states(arena) == empty_states(),
{
    Arena::with_capacity(capacity)
}

/// Calls `Arena::len`, the number of values held.
#[verifier::external_body]
pub(crate) fn arena_len(arena: &Arena<OperationState>) -> (len: usize)
    ensures
        len == arena_states(*arena).len(),
{
    arena.len()
}

/// Calls `Arena::insert`, which stores the value under an index that holds
/// nothing at that moment. It panics once `u32::MAX` values are held.
#[verifier::external_body]
pub(crate) fn arena_insert(arena: &mut Arena<OperationState>, state: OperationState) -> (index:
    Index)
    requires
        arena_states(*old(arena)).len() < u32::MAX,
    ensures
        !arena_states(*old(arena)).contains_key(index_bits(index)),
        arena_states(*final(arena)) == arena_states(*old(arena)).insert(index_bits(index), state),
{
    arena.insert(state)
}

/// Calls `Arena::remove`, which takes out the value under the index if
/// there is one.
#[verifier::external_body]
pub(crate) fn arena_remove(arena: &mut Arena<OperationState>, index: Index) -> (removed: Option<
    OperationState,
>)
    ensures
        removed == if arena_states(*old(arena)).contains_key(index_bits(index)) {
            Some(arena_states(*old(arena))[index_bits(index)])
        } else {
            None
        },
        arena_states(*final(arena)) == arena_states(*old(arena)).remove(index_bits(index)),
{
    arena.remove(index)
}

/// Calls `Arena::get`, which borrows the value under the index if there is
/// one.
#[verifier::external_body]
pub(crate) fn arena_get(arena: &Arena<OperationState>, index: Index) -> (state: Option<
    &OperationState,
>)
    ensures
        state == if arena_states(*arena).contains_key(index_bits(index)) {
            Some(&arena_states(*arena)[index_bits(index)])
        } else {
            None
        },
{
    arena.get(index)
}

/// Indexes the arena mutably, which borrows the value under the index and
/// panics if there is none. What is written through the borrow takes the
/// value's place.
#[verifier::external_body]
pub(crate) fn arena_get_mut(arena: &mut Arena<OperationState>, index: Index) -> (state:
    &mut OperationState)
    requires
        arena_states(*old(arena)).contains_key(index_bits(index)),
    ensures
        *state == arena_states(*old(arena))[index_bits(index)],
        arena_states(*final(arena)) == arena_states(*old(arena)).insert(
            index_bits(index),
            *final(state),
        ),
{
    &mut arena[index]
}

} // verus!
