//! Resolution of a signed position onto an index of a sequence.

use vstd::prelude::*;

verus! {

/// The index that `position` selects in a sequence of `len` items.
///
/// A position from zero up counts from the front and stops at `len`, in
/// either mode: for a removal such a position names no item. A negative
/// position counts from the back: `-1` is the last item when removing and the
/// slot behind it when inserting. A negative position that reaches before the
/// front selects index 0.
pub open spec fn resolve_position(position: int, len: nat, for_insertion: bool) -> nat {
    if position >= 0 {
        if position <= len {
            position as nat
        } else {
            len
        }
    } else if -position > len {
        0
    } else if for_insertion {
        (len + position + 1) as nat
    } else {
        (len + position) as nat
    }
}

/// A resolved position never lies behind the end of the sequence, whatever
/// the position and the mode.
pub proof fn lemma_resolved_within(position: int, len: nat, for_insertion: bool)
    ensures
        0 <= resolve_position(position, len, for_insertion) <= len,
{
}

/// For a removal, a position that is negative, or lies before the end of a
/// sequence that is not empty, resolves to the index of an item.
pub proof fn lemma_resolved_removal_selects(position: int, len: nat)
    requires
        len > 0,
        position < len,
    ensures
        0 <= resolve_position(position, len, false) < len,
{
}

/// Resolves `position` against the items of `vec`, for an insertion or for a
/// removal. Every position is taken; none is refused.
pub fn position_to_index<T>(position: i8, vec: &[T], for_insertion: bool) -> (index: usize)
    ensures
        index == resolve_position(position as int, vec@.len(), for_insertion),
        index <= vec@.len(),
{
    let len: usize = vec.len();
    if position < 0 {
        let magnitude: usize = (0 - position as i16) as usize;
        match len.checked_sub(magnitude) {
            Some(from_front) => if for_insertion {
                from_front + 1
            } else {
                from_front
            },
            None => 0,
        }
    } else {
        let forward: usize = position as usize;
        if forward < len {
            forward
        } else {
            len
        }
    }
}

} // verus!
