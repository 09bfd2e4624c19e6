use std::collections::VecDeque;
use std::rc::Rc;
use vstd::prelude::*;

pub mod laws;
pub mod list_pos;
pub mod list_pos_mut;
pub mod slots;

pub use self::list_pos::ListPos;
pub use self::list_pos_mut::MutListPos;

verus! {

/// One arena slot: a shared payload and the slot that follows it in list order.
struct ListEntry<T> {
    hold_data: Rc<T>,
    next_index: usize,
}

/// A singly linked list whose nodes live in an arena and are linked by slot index.
///
/// Removed slots are queued and reused, oldest first, before the arena grows.
/// The last element's slot links to itself, which marks the end of the list.
pub struct List<T> {
    head_index: usize,
    tail_index: usize,
    all_elements: Vec<ListEntry<T>>,
    free_indices: VecDeque<usize>,
    /// The slot of every element, head first.
    order: Ghost<Seq<usize>>,
}

impl<T> View for List<T> {
    type V = Seq<T>;

    /// The payloads in list order.
    closed spec fn view(&self) -> Seq<T> {
        Seq::new(self.order@.len(), |i: int| *self.all_elements@[self.order@[i] as int].hold_data)
    }
}

impl<T> List<T> {
    /// The arena slot that holds each element, head first.
    pub closed spec fn slot_order(self) -> Seq<usize> {
        self.order@
    }

    /// The slots that wait for reuse, oldest first.
    pub closed spec fn free_slots(self) -> Seq<usize> {
        self.free_indices@
    }

    /// How many slots the arena has, in use or free.
    pub closed spec fn slot_count(self) -> nat {
        self.all_elements@.len()
    }

    /// The slot that `slot` links to.
    pub closed spec fn link(self, slot: usize) -> usize {
        self.all_elements@[slot as int].next_index
    }

    /// The payload that `slot` holds.
    pub closed spec fn payload(self, slot: usize) -> T {
        *self.all_elements@[slot as int].hold_data
    }

    /// The head and tail indices are the first and last slot in list order, each
    /// slot links to the one behind it, and the tail links to itself.
    spec fn linked(self) -> bool {
        let order = self.order@;
        let slots = self.all_elements@;
        &&& self.head_index == order[0]
        &&& self.tail_index == order[order.len() - 1]
        &&& slots[self.tail_index as int].next_index == self.tail_index
        &&& forall|i: int|
            0 <= i < order.len() - 1 ==> slots[(#[trigger] order[i]) as int].next_index == order[i
                + 1]
    }

    /// Every slot is either in use or free, and a list with elements is linked
    /// through its slots from head to tail. The head and tail indices of a list
    /// without elements mean nothing.
    pub closed spec fn wf(self) -> bool {
        &&& slots::accounted(self.order@, self.free_indices@, self.all_elements@.len())
        &&& self.order@.len() > 0 ==> self.linked()
    }

    /// `after` came from `before` by storing one element at index `at`: the
    /// element took the oldest free slot, or a new slot when none was free.
    pub open spec fn stored_at(before: Self, after: Self, at: int) -> bool {
        let free = before.free_slots();
        let count = before.slot_count();
        &&& after.slot_order() == before.slot_order().insert(
            at,
            slots::claimed_slot(free, count) as usize,
        )
        &&& after.free_slots() == slots::free_after_claim(free)
        &&& after.slot_count() == slots::count_after_claim(free, count)
    }

    /// `after` came from `before` by taking out the element at index `at`: its
    /// slot went to the back of the free queue and the arena kept its size.
    pub open spec fn released_at(before: Self, after: Self, at: int) -> bool {
        &&& after.slot_order() == before.slot_order().remove(at)
        &&& after.free_slots() == before.free_slots().push(before.slot_order()[at])
        &&& after.slot_count() == before.slot_count()
    }

    /// A list without elements and without arena slots.
    pub fn empty() -> (list: List<T>)
        ensures
            list.wf(),
            list@ == Seq::<T>::empty(),
            list.slot_count() == 0,
            list.free_slots() == Seq::<usize>::empty(),
    {
        List {
            head_index: 0,
            tail_index: 0,
            all_elements: Vec::new(),
            free_indices: VecDeque::new(),
            order: Ghost(Seq::empty()),
        }
    }

    /// A list that holds `first_element` alone.
    pub fn new(first_element: T) -> (list: List<T>)
        ensures
            list.wf(),
            list@ == seq![first_element],
            list.slot_count() == 1,
            list.slot_order() == seq![0usize],
            list.free_slots() == Seq::<usize>::empty(),
    {
        let mut entries: Vec<ListEntry<T>> = Vec::new();
        entries.push(ListEntry { hold_data: Rc::new(first_element), next_index: 0 });
        List {
            head_index: 0,
            tail_index: 0,
            all_elements: entries,
            free_indices: VecDeque::new(),
            order: Ghost(Seq::empty().push(0usize)),
        }
    }

    /// A list that holds the elements of `given_array` in the array's order,
    /// the element `i` in slot `i`.
    pub fn from_array<const COUNT: usize>(given_array: [T; COUNT]) -> (list: List<T>)
        ensures
            list.wf(),
            list@ == given_array@,
            list.slot_count() == COUNT,
            list.slot_order() == Seq::new(COUNT as nat, |i: int| i as usize),
            list.free_slots() == Seq::<usize>::empty(),
    {
        let mut instantiated_list = List::empty();
        instantiated_list.head_index = 0;
        let boxed_elements: Box<[T]> = Box::new(given_array);
        let consumed_elements: Vec<T> = boxed_elements.into_vec();
        let count: usize = consumed_elements.len();
        if count == 0 {
            return instantiated_list;
        }
        for item in elements: consumed_elements
            invariant
                count == given_array@.len(),
                elements.seq() == given_array@,
                instantiated_list.head_index == 0,
                instantiated_list.free_indices@.len() == 0,
                instantiated_list.all_elements@.len() == elements.index(),
                forall|k: int|
                    0 <= k < elements.index() ==> {
                        &&& (#[trigger] instantiated_list.all_elements@[k]).next_index == k + 1
                        &&& *instantiated_list.all_elements@[k].hold_data == given_array@[k]
                    },
        {
            let cur_index: usize = instantiated_list.all_elements.len();
            instantiated_list.all_elements.push(
                ListEntry { hold_data: Rc::new(item), next_index: cur_index + 1 },
            );
        }
        // The last slot is the tail and links to itself.
        let tail: usize = count - 1;
        instantiated_list.tail_index = tail;
        instantiated_list.all_elements[tail].next_index = tail;
        instantiated_list.order = Ghost(Seq::new(count as nat, |i: int| i as usize));
        instantiated_list
    }

    /// Puts `element` into the oldest free slot, or into a new slot at the end
    /// of the arena when none is free. The slot links to `next_index`, or to
    /// itself when that is `None`. The slot is not yet part of the list.
    fn store(&mut self, element: Rc<T>, next_index: Option<usize>) -> (slot: usize)
        requires
            old(self).wf(),
        ensures
            final(self).order == old(self).order,
            final(self).head_index == old(self).head_index,
            final(self).tail_index == old(self).tail_index,
            slot == slots::claimed_slot(old(self).free_indices@, old(self).all_elements@.len()),
            final(self).free_indices@ == slots::free_after_claim(old(self).free_indices@),
            final(self).all_elements@.len() == slots::count_after_claim(
                old(self).free_indices@,
                old(self).all_elements@.len(),
            ),
            slot < final(self).all_elements@.len(),
            final(self).all_elements@[slot as int].hold_data == element,
            final(self).all_elements@[slot as int].next_index == match next_index {
                Some(next) => next,
                None => slot,
            },
            forall|k: int|
                0 <= k < old(self).all_elements@.len() && k != slot
                    ==> final(self).all_elements@[k] == old(self).all_elements@[k],
    {
        match self.free_indices.pop_front() {
            Some(free_index) => {
                self.all_elements[free_index].hold_data = element;
                self.all_elements[free_index].next_index = match next_index {
                    Some(next) => next,
                    None => free_index,
                };
                free_index
            },
            None => {
                let new_index: usize = self.all_elements.len();
                self.all_elements.push(
                    ListEntry {
                        hold_data: element,
                        next_index: match next_index {
                            Some(next) => next,
                            None => new_index,
                        },
                    },
                );
                new_index
            },
        }
    }

    /// Adds `element` behind the last element.
    pub fn append(&mut self, element: T)
        requires
            old(self).wf(),
        ensures
            final(self).wf(),
            final(self)@ == old(self)@.push(element),
            final(self)@.len() == old(self)@.len() + 1,
            Self::stored_at(*old(self), *final(self), old(self)@.len() as int),
    {
        self.append_shared(Rc::new(element));
    }

    /// Adds the shared `element` behind the last element. The list becomes one
    /// more owner of the payload.
    pub fn append_shared(&mut self, element: Rc<T>)
        requires
            old(self).wf(),
        ensures
            final(self).wf(),
            final(self)@ == old(self)@.push(*element),
            final(self)@.len() == old(self)@.len() + 1,
            Self::stored_at(*old(self), *final(self), old(self)@.len() as int),
    {
        let was_empty: bool = self.len() == 0;
        let old_tail: usize = self.tail_index;
        let slot: usize = self.store(element, None);
        if was_empty {
            // Head and tail meant nothing: the new slot is both.
            self.head_index = slot;
        } else {
            self.all_elements[old_tail].next_index = slot;
        }
        self.tail_index = slot;
        self.order = Ghost(self.order@.push(slot));
        proof {
            let at = old(self).order@.len() as int;
            assert(self.order@ =~= old(self).order@.insert(at, slot));
            Self::lemma_inserted(*old(self), *self, at, slot);
        }
    }

    /// Puts `element` in front of the element at `insert_index`. Does nothing
    /// when the list has no element at `insert_index`.
    pub fn insert_before(&mut self, insert_index: usize, element: T)
        requires
            old(self).wf(),
        ensures
            final(self).wf(),
            insert_index < old(self)@.len() ==> {
                &&& final(self)@ == old(self)@.insert(insert_index as int, element)
                &&& final(self)@.len() == old(self)@.len() + 1
                &&& Self::stored_at(*old(self), *final(self), insert_index as int)
            },
            insert_index >= old(self)@.len() ==> *final(self) == *old(self),
    {
        self.insert_before_shared(insert_index, Rc::new(element));
    }

    /// Puts the shared `element` in front of the element at `insert_index`, and
    /// the list becomes one more owner of the payload. Does nothing when the
    /// list has no element at `insert_index`.
    pub fn insert_before_shared(&mut self, insert_index: usize, element: Rc<T>)
        requires
            old(self).wf(),
        ensures
            final(self).wf(),
            insert_index < old(self)@.len() ==> {
                &&& final(self)@ == old(self)@.insert(insert_index as int, *element)
                &&& final(self)@.len() == old(self)@.len() + 1
                &&& Self::stored_at(*old(self), *final(self), insert_index as int)
            },
            insert_index >= old(self)@.len() ==> *final(self) == *old(self),
    {
        if insert_index >= self.len() {
            return ;
        }
        if insert_index == 0 {
            // The element becomes the new head.
            let old_head: usize = self.head_index;
            let slot: usize = self.store(element, Some(old_head));
            self.head_index = slot;
            self.order = Ghost(self.order@.insert(0, slot));
            proof {
                Self::lemma_inserted(*old(self), *self, 0, slot);
            }
            return ;
        }
        // Walk to the element in front of `insert_index`.
        let mut prev: usize = self.head_index;
        let mut steps: usize = 1;
        while steps < insert_index
            invariant
                self.wf(),
                1 <= steps <= insert_index < self.order@.len(),
                prev == self.order@[steps - 1],
            decreases insert_index - steps,
        {
            prev = self.all_elements[prev].next_index;
            steps = steps + 1;
        }
        let target: usize = self.all_elements[prev].next_index;
        let slot: usize = self.store(element, Some(target));
        self.all_elements[prev].next_index = slot;
        self.order = Ghost(self.order@.insert(insert_index as int, slot));
        proof {
            Self::lemma_inserted(*old(self), *self, insert_index as int, slot);
        }
    }

    /// A cursor at the first element, if there is one.
    pub fn head_iter(&self) -> (cursor: Option<ListPos<'_, T>>)
        requires
            self.wf(),
        ensures
            match cursor {
                Some(cursor) => {
                    &&& self@.len() > 0
                    &&& cursor.wf()
                    &&& cursor.list() == *self
                    &&& cursor.position() == Some(0nat)
                },
                None => self@.len() == 0,
            },
    {
        ListPos::start_at(0, self)
    }

    /// An exclusive cursor at the first element, if there is one. The list
    /// afterwards is what the cursor leaves: see `MutListPos::remove` and
    /// `MutListPos::lemma_given_up`.
    pub fn head_iter_mut(&mut self) -> (cursor: Option<MutListPos<'_, T>>)
        requires
            old(self).wf(),
        ensures
            match cursor {
                Some(cursor) => {
                    &&& old(self)@.len() > 0
                    &&& cursor.wf()
                    &&& cursor.list() == *old(self)
                    &&& cursor.position() == Some(0nat)
                    &&& *final(self) == *final(cursor.target())
                },
                None => {
                    &&& old(self)@.len() == 0
                    &&& *final(self) == *old(self)
                },
            },
    {
        MutListPos::start_at(0, self)
    }

    /// A cursor in front of the first element: advancing it yields every
    /// element, head first.
    pub fn iter(&self) -> (cursor: ListPos<'_, T>)
        requires
            self.wf(),
        ensures
            cursor.wf(),
            cursor.list() == *self,
            cursor.position() is None,
            cursor.remaining() == self@,
    {
        ListPos::new(self)
    }

    /// An exclusive cursor in front of the first element. The list afterwards
    /// is what the cursor leaves: see `MutListPos::remove` and
    /// `MutListPos::lemma_given_up`.
    pub fn iter_mut(&mut self) -> (cursor: MutListPos<'_, T>)
        requires
            old(self).wf(),
        ensures
            cursor.wf(),
            cursor.list() == *old(self),
            cursor.position() is None,
            cursor.remaining() == old(self)@,
            *final(self) == *final(cursor.target()),
    {
        MutListPos::new(self)
    }

    /// A cursor at the element `pos`, if the list is that long.
    pub fn pos_iter(&self, pos: usize) -> (cursor: Option<ListPos<'_, T>>)
        requires
            self.wf(),
        ensures
            match cursor {
                Some(cursor) => {
                    &&& pos < self@.len()
                    &&& cursor.wf()
                    &&& cursor.list() == *self
                    &&& cursor.position() == Some(pos as nat)
                },
                None => pos >= self@.len(),
            },
    {
        ListPos::start_at(pos, self)
    }

    /// An exclusive cursor at the element `pos`, if the list is that long. The
    /// list afterwards is what the cursor leaves: see `MutListPos::remove` and
    /// `MutListPos::lemma_given_up`.
    pub fn pos_iter_mut(&mut self, pos: usize) -> (cursor: Option<MutListPos<'_, T>>)
        requires
            old(self).wf(),
        ensures
            match cursor {
                Some(cursor) => {
                    &&& pos < old(self)@.len()
                    &&& cursor.wf()
                    &&& cursor.list() == *old(self)
                    &&& cursor.position() == Some(pos as nat)
                    &&& *final(self) == *final(cursor.target())
                },
                None => {
                    &&& pos >= old(self)@.len()
                    &&& *final(self) == *old(self)
                },
            },
    {
        MutListPos::start_at(pos, self)
    }

    /// Takes the element at `index` out of the list and hands it back. Does
    /// nothing when the list has no element at `index`.
    pub fn remove_at(&mut self, index: usize) -> (removed: Option<Rc<T>>) where T: Default
        requires
            old(self).wf(),
        ensures
            final(self).wf(),
            match removed {
                Some(value) => {
                    &&& index < old(self)@.len()
                    &&& *value == old(self)@[index as int]
                    &&& final(self)@ == old(self)@.remove(index as int)
                    &&& final(self)@.len() == old(self)@.len() - 1
                    &&& Self::released_at(*old(self), *final(self), index as int)
                    &&& T::default.ensures(
                        (),
                        final(self).payload(old(self).slot_order()[index as int]),
                    )
                },
                None => {
                    &&& index >= old(self)@.len()
                    &&& *final(self) == *old(self)
                },
            },
    {
        match self.pos_iter_mut(index) {
            Some(rem_iter) => rem_iter.remove(),
            None => None,
        }
    }

    /// The number of elements: the arena's slots less the free ones.
    pub fn len(&self) -> (n: usize)
        requires
            self.wf(),
        ensures
            n == self@.len(),
            n == self.slot_count() - self.free_slots().len(),
    {
        self.all_elements.len() - self.free_indices.len()
    }

    /// The number of slots in the arena, in use or free. It never shrinks.
    pub fn slots(&self) -> (n: usize)
        ensures
            n == self.slot_count(),
    {
        self.all_elements.len()
    }

    /// The first element, if there is one.
    pub fn head(&self) -> (first: Option<Rc<T>>)
        requires
            self.wf(),
        ensures
            match first {
                Some(value) => self@.len() > 0 && *value == self@[0],
                None => self@.len() == 0,
            },
    {
        if self.len() == 0 {
            return None;
        }
        Some(Rc::clone(&self.all_elements[self.head_index].hold_data))
    }

    /// The element at `index`, if the list is that long.
    pub fn at(&self, index: usize) -> (found: Option<Rc<T>>)
        requires
            self.wf(),
        ensures
            match found {
                Some(value) => index < self@.len() && *value == self@[index as int],
                None => index >= self@.len(),
            },
    {
        if index >= self.len() {
            return None;
        }
        let mut slot: usize = self.head_index;
        let mut steps: usize = 0;
        while steps < index
            invariant
                self.wf(),
                steps <= index < self.order@.len(),
                slot == self.order@[steps as int],
            decreases index - steps,
        {
            slot = self.all_elements[slot].next_index;
            steps = steps + 1;
        }
        Some(Rc::clone(&self.all_elements[slot].hold_data))
    }

    /// `after` is `before` with the slot `slot` linked in at index `at`, or
    /// behind the last element when `at` is the length: the slot was claimed
    /// for the new element, it links to the element that was at `at` (to itself
    /// at the end), and the element in front of it, or the head index, leads
    /// to it.
    spec fn inserted(before: Self, after: Self, at: int, slot: usize) -> bool {
        let slots = before.all_elements@;
        let free = before.free_indices@;
        let order = before.order@;
        &&& 0 <= at <= order.len()
        &&& slot == slots::claimed_slot(free, slots.len())
        &&& after.order@ == order.insert(at, slot)
        &&& after.free_indices@ == slots::free_after_claim(free)
        &&& after.all_elements@.len() == slots::count_after_claim(free, slots.len())
        &&& after.head_index == if at == 0 {
            slot
        } else {
            before.head_index
        }
        &&& after.tail_index == if at == order.len() {
            slot
        } else {
            before.tail_index
        }
        &&& after.all_elements@[slot as int].next_index == if at == order.len() {
            slot
        } else {
            order[at]
        }
        &&& at > 0 ==> after.all_elements@[order[at - 1] as int].next_index == slot
        &&& forall|k: int|
            0 <= k < slots.len() && k != slot ==> (#[trigger] after.all_elements@[k]).hold_data
                == slots[k].hold_data
        &&& forall|k: int|
            0 <= k < slots.len() && k != slot && (at == 0 || k != order[at - 1]) ==> (
            #[trigger] after.all_elements@[k]).next_index == slots[k].next_index
    }

    proof fn lemma_inserted(before: Self, after: Self, at: int, slot: usize)
        requires
            before.wf(),
            Self::inserted(before, after, at, slot),
        ensures
            after.wf(),
            after@ == before@.insert(at, *after.all_elements@[slot as int].hold_data),
            Self::stored_at(before, after, at),
    {
        slots::lemma_claim_accounted(
            before.order@,
            before.free_indices@,
            before.all_elements@.len(),
            at,
            slot,
        );
        Self::lemma_inserted_linked(before, after, at, slot);
        assert(after@ =~= before@.insert(at, *after.all_elements@[slot as int].hold_data));
    }

    proof fn lemma_inserted_linked(before: Self, after: Self, at: int, slot: usize)
        requires
            before.wf(),
            Self::inserted(before, after, at, slot),
            forall|i: int| 0 <= i < before.order@.len() ==> (#[trigger] before.order@[i]) != slot,
        ensures
            after.linked(),
    {
        let old_order = before.order@;
        let new_order = after.order@;
        let last = old_order.len() - 1;
        assert forall|i: int| 0 <= i < new_order.len() implies #[trigger] new_order[i] == (if i
            < at {
            old_order[i]
        } else if i == at {
            slot
        } else {
            old_order[i - 1]
        }) by {}
        if at <= last {
            // The old tail stays the tail, and its link to itself was not touched.
            assert(new_order[new_order.len() - 1] == old_order[last]);
            if at > 0 && before.tail_index == old_order[at - 1] {
                assert(last == at - 1);
            }
        }
        assert forall|i: int| 0 <= i < new_order.len() - 1 implies after.all_elements@[(
        #[trigger] new_order[i]) as int].next_index == new_order[i + 1] by {
            if i < at - 1 {
                assert(old_order[i] != old_order[at - 1]);
            } else if i > at {
                assert(new_order[i + 1] == old_order[i]);
                if at > 0 {
                    assert(old_order[i - 1] != old_order[at - 1]);
                }
            } else if i == at {
                assert(new_order[i + 1] == old_order[at]);
            }
        }
    }

    /// `after` is `before` with the element at `at` unlinked: its slot went to
    /// the back of the free queue, the head index or the link of the element in
    /// front of it now passes it by, and where it was the tail that element is
    /// the new tail and links to itself.
    spec fn unlinked(before: Self, after: Self, at: int) -> bool {
        let slots = before.all_elements@;
        let order = before.order@;
        let slot = order[at];
        &&& 0 <= at < order.len()
        &&& after.order@ == order.remove(at)
        &&& after.free_indices@ == before.free_indices@.push(slot)
        &&& after.all_elements@.len() == slots.len()
        &&& forall|k: int|
            0 <= k < slots.len() && k != slot ==> (#[trigger] after.all_elements@[k]).hold_data
                == slots[k].hold_data
        &&& forall|k: int|
            0 <= k < slots.len() && (at == 0 || k != order[at - 1]) ==> (
            #[trigger] after.all_elements@[k]).next_index == slots[k].next_index
        &&& if at == 0 {
            &&& after.head_index == slots[slot as int].next_index
            &&& after.tail_index == before.tail_index
        } else if at == order.len() - 1 {
            &&& after.head_index == before.head_index
            &&& after.tail_index == order[at - 1]
            &&& after.all_elements@[order[at - 1] as int].next_index == order[at - 1]
        } else {
            &&& after.head_index == before.head_index
            &&& after.tail_index == before.tail_index
            &&& after.all_elements@[order[at - 1] as int].next_index == slots[slot as int].next_index
        }
    }

    proof fn lemma_unlinked(before: Self, after: Self, at: int)
        requires
            before.wf(),
            Self::unlinked(before, after, at),
        ensures
            after.wf(),
            after@ == before@.remove(at),
            Self::released_at(before, after, at),
    {
        slots::lemma_release_accounted(
            before.order@,
            before.free_indices@,
            before.all_elements@.len(),
            at,
        );
        if before.order@.len() > 1 {
            Self::lemma_unlinked_linked(before, after, at);
        }
        assert(after@ =~= before@.remove(at));
    }

    proof fn lemma_unlinked_linked(before: Self, after: Self, at: int)
        requires
            before.wf(),
            Self::unlinked(before, after, at),
            before.order@.len() > 1,
        ensures
            after.linked(),
    {
    }
}

} // verus!
