//! Identifier allocation for simulated objects.

use vstd::prelude::*;

verus! {

/// Hands out object identifiers in increasing order, starting at 1.
///
/// Identifier 0 is never handed out while the counter has not wrapped: it
/// marks an object that has not been spawned yet.
pub struct IdAllocator {
    next: u32,
}

impl IdAllocator {
    /// The identifier that the next call of [`get_uniq_id`] returns.
    pub closed spec fn next_id(&self) -> u32 {
        self.next
    }

    /// A fresh allocator, whose first identifier is 1.
    pub fn new() -> (alloc: IdAllocator)
        ensures
            alloc.next_id() == 1,
    {
        IdAllocator { next: 1 }
    }
}

/// The counter after one allocation: one more, wrapping at the width of `u32`.
pub open spec fn bump(id: u32) -> u32 {
    if id == u32::MAX {
        0
    } else {
        (id + 1) as u32
    }
}

/// The identifier that the `n`-th allocation after `first` returns, counting
/// from zero.
pub open spec fn nth_id(first: u32, n: nat) -> u32
    decreases n,
{
    if n == 0 {
        first
    } else {
        bump(nth_id(first, (n - 1) as nat))
    }
}

/// Until the counter wraps, the `n`-th identifier is `first + n`.
pub proof fn lemma_nth_id(first: u32, n: nat)
    requires
        first + n <= u32::MAX,
    ensures
        nth_id(first, n) == first + n,
    decreases n,
{
    if n > 0 {
        lemma_nth_id(first, (n - 1) as nat);
    }
}

/// Identifiers come out strictly increasing, and so no two allocations
/// return the same one, until the counter wraps.
pub proof fn lemma_ids_strictly_increase(first: u32, j: nat, k: nat)
    requires
        j < k,
        first + k <= u32::MAX,
    ensures
        nth_id(first, j) < nth_id(first, k),
{
    lemma_nth_id(first, j);
    lemma_nth_id(first, k);
}

/// Returns the allocator's next identifier and advances the allocator by one.
pub fn get_uniq_id(alloc: &mut IdAllocator) -> (id: u32)
    ensures
        id == old(alloc).next_id(),
        final(alloc).next_id() == bump(old(alloc).next_id()),
{
    let id = alloc.next;
    alloc.next = if id == u32::MAX { 0 } else { id + 1 };
    id
}

} // verus!
