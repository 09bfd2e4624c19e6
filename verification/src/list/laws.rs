//! What holds of every well-formed list, of every cursor, and of every
//! history of a list.

use super::list_pos::{advanced, yielded};
use super::slots;
use super::List;
use vstd::prelude::*;

verus! {

/// In a well-formed list every arena slot is either in use or free, never
/// both, and the list has one element for each slot in use: its length is the
/// number of slots less the number of free ones.
pub proof fn lemma_slots_accounted<T>(list: List<T>)
    requires
        list.wf(),
    ensures
        slots::accounted(list.slot_order(), list.free_slots(), list.slot_count()),
        list@.len() == list.slot_order().len(),
        list@.len() == list.slot_count() - list.free_slots().len(),
{
}

/// The element `i` of a list is the payload of the slot `i` in list order.
pub proof fn lemma_view_reads_slots<T>(list: List<T>, i: int)
    requires
        0 <= i < list@.len(),
    ensures
        list@[i] == list.payload(list.slot_order()[i]),
{
}

/// In a well-formed list each slot in use links to the slot of the next
/// element, and the slot of the last element links to itself. No link chain
/// from the head reaches a free slot.
pub proof fn lemma_links_follow_order<T>(list: List<T>)
    requires
        list.wf(),
        list@.len() > 0,
    ensures
        forall|i: int|
            0 <= i < list@.len() - 1 ==> list.link(#[trigger] list.slot_order()[i])
                == list.slot_order()[i + 1],
        list.link(list.slot_order().last()) == list.slot_order().last(),
        forall|i: int, j: int|
            0 <= i < list@.len() && 0 <= j < list.free_slots().len() ==> (
            #[trigger] list.slot_order()[i]) != (#[trigger] list.free_slots()[j]),
{
}

/// Storing an element makes the list longer by exactly one.
pub proof fn lemma_store_adds_one<T>(before: List<T>, after: List<T>, at: int)
    requires
        before.wf(),
        after.wf(),
        0 <= at <= before@.len(),
        List::stored_at(before, after, at),
    ensures
        after@.len() == before@.len() + 1,
{
}

/// Taking an element out makes the list shorter by exactly one.
pub proof fn lemma_release_takes_one<T>(before: List<T>, after: List<T>, at: int)
    requires
        before.wf(),
        after.wf(),
        0 <= at < before@.len(),
        List::released_at(before, after, at),
    ensures
        after@.len() == before@.len() - 1,
{
}

/// A cursor yields the elements in list order, each once: started in front of
/// the elements, its advance number `k` (counted from zero) yields the element
/// `k`, and every advance after the last element yields nothing.
pub proof fn lemma_advances_yield_in_order<T>(items: Seq<T>, k: nat)
    ensures
        advanced(None, items.len(), k) == if k == 0 || items.len() == 0 {
            None
        } else if k <= items.len() {
            Some((k - 1) as nat)
        } else {
            Some((items.len() - 1) as nat)
        },
        yielded(items, advanced(None, items.len(), k)) == if k < items.len() {
            Some(items[k as int])
        } else {
            None
        },
    decreases k,
{
    if k > 0 {
        lemma_advances_yield_in_order(items, (k - 1) as nat);
    }
}

/// A cursor that yields nothing stays where it is, so it yields nothing ever
/// after.
pub proof fn lemma_exhausted_cursor_stays<T>(items: Seq<T>, position: Option<nat>, times: nat)
    requires
        yielded(items, position) is None,
    ensures
        advanced(position, items.len(), times) == position,
    decreases times,
{
    if times > 0 {
        lemma_exhausted_cursor_stays(items, position, (times - 1) as nat);
    }
}

/// One step in the life of a list: an element was stored, an element was
/// taken out, or nothing changed.
pub open spec fn step<T>(before: List<T>, after: List<T>) -> bool {
    ||| exists|at: int| 0 <= at <= before@.len() && #[trigger] List::stored_at(before, after, at)
    ||| exists|at: int| 0 <= at < before@.len() && #[trigger] List::released_at(before, after, at)
    ||| after == before
}

/// The greatest length that the list had in `history`.
pub open spec fn peak_len<T>(history: Seq<List<T>>) -> nat
    decreases history.len(),
{
    if history.len() == 0 {
        0
    } else {
        let earlier = peak_len(history.drop_last());
        if history.last()@.len() > earlier {
            history.last()@.len()
        } else {
            earlier
        }
    }
}

/// Freed slots are reused before the arena grows: a list that started without
/// free slots never has more slots than the greatest number of elements it has
/// held so far; it has exactly that many.
pub proof fn lemma_slot_count_is_peak<T>(history: Seq<List<T>>)
    requires
        history.len() > 0,
        forall|k: int| 0 <= k < history.len() ==> (#[trigger] history[k]).wf(),
        history[0].free_slots().len() == 0,
        forall|k: int| 0 <= k < history.len() - 1 ==> step(#[trigger] history[k], history[k + 1]),
    ensures
        history.last().slot_count() == peak_len(history),
        history.last().slot_count() <= peak_len(history),
        history.last()@.len() <= peak_len(history),
    decreases history.len(),
{
    if history.len() == 1 {
        assert(peak_len(history.drop_last()) == 0);
    } else {
        let earlier = history.drop_last();
        assert forall|k: int| 0 <= k < earlier.len() - 1 implies step(
            #[trigger] earlier[k],
            earlier[k + 1],
        ) by {
            assert(earlier[k + 1] == history[k + 1]);
        }
        lemma_slot_count_is_peak(earlier);
        assert(step(earlier.last(), history.last()));
    }
}

} // verus!
