//! The bookkeeping of an arena's slots: which slots hold the list's elements,
//! in list order, and which wait in the free queue.

use vstd::prelude::*;

verus! {

/// `order` and `free` name `count` slots between them, each below `count`, and
/// no slot is named twice. So every slot of an arena of `count` slots is either
/// in use or free, and never both.
pub open spec fn accounted(order: Seq<usize>, free: Seq<usize>, count: nat) -> bool {
    &&& order.len() + free.len() == count
    &&& order.no_duplicates()
    &&& free.no_duplicates()
    &&& forall|i: int| 0 <= i < order.len() ==> (#[trigger] order[i]) < count
    &&& forall|j: int| 0 <= j < free.len() ==> (#[trigger] free[j]) < count
    &&& forall|i: int, j: int|
        0 <= i < order.len() && 0 <= j < free.len() ==> (#[trigger] order[i]) != (#[trigger] free[j])
}

/// The slot that takes the next element: the oldest free slot, or a new slot
/// at the end of the arena when none is free.
pub open spec fn claimed_slot(free: Seq<usize>, count: nat) -> nat {
    if free.len() > 0 {
        free[0] as nat
    } else {
        count
    }
}

/// The free queue once a slot has been claimed.
pub open spec fn free_after_claim(free: Seq<usize>) -> Seq<usize> {
    if free.len() > 0 {
        free.drop_first()
    } else {
        free
    }
}

/// The number of slots once a slot has been claimed: the arena grows by one
/// only when no slot was free.
pub open spec fn count_after_claim(free: Seq<usize>, count: nat) -> nat {
    if free.len() > 0 {
        count
    } else {
        count + 1
    }
}

/// Claiming a slot and putting it into the order at `at` keeps the books
/// straight. The claimed slot was not in use before.
pub proof fn lemma_claim_accounted(
    order: Seq<usize>,
    free: Seq<usize>,
    count: nat,
    at: int,
    slot: usize,
)
    requires
        accounted(order, free, count),
        0 <= at <= order.len(),
        slot == claimed_slot(free, count),
    ensures
        accounted(order.insert(at, slot), free_after_claim(free), count_after_claim(free, count)),
        forall|i: int| 0 <= i < order.len() ==> (#[trigger] order[i]) != slot,
{
}

/// Taking the slot at `at` out of the order and queueing it as free keeps the
/// books straight.
pub proof fn lemma_release_accounted(order: Seq<usize>, free: Seq<usize>, count: nat, at: int)
    requires
        accounted(order, free, count),
        0 <= at < order.len(),
    ensures
        accounted(order.remove(at), free.push(order[at]), count),
{
}

} // verus!
