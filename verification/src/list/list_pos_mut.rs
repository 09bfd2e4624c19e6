use super::list_pos::{advance, behind, yielded};
use super::List;
use std::rc::Rc;
use vstd::prelude::*;

verus! {

/// A cursor that holds its list exclusively. It walks the list as a read-only
/// cursor does, and can be given up to take the element it is at out of the list.
pub struct MutListPos<'a, T> {
    position_index: Option<usize>,
    referenced_entry: &'a mut List<T>,
    /// Where in list order the cursor's slot is, when it is at an element.
    index: Ghost<int>,
}

impl<'a, T> MutListPos<'a, T> {
    /// The exclusive borrow of the list that the cursor holds. What the list is
    /// once the cursor is gone is the final value of this borrow: `remove`
    /// states it for a cursor that removes, `lemma_given_up` for one that is
    /// dropped.
    pub closed spec fn target(self) -> &'a mut List<T> {
        self.referenced_entry
    }

    /// The list as the cursor sees it now.
    pub open spec fn list(self) -> List<T> {
        *self.target()
    }

    /// The index of the element that the cursor is at; `None` in front of the
    /// first element.
    pub closed spec fn position(self) -> Option<nat> {
        match self.position_index {
            Some(_) => Some(self.index@ as nat),
            None => None,
        }
    }

    /// The list is well formed and the cursor is at one of its elements or in
    /// front of them.
    pub closed spec fn wf(self) -> bool {
        &&& self.referenced_entry.wf()
        &&& match self.position_index {
            Some(slot) => {
                &&& 0 <= self.index@ < self.referenced_entry.order@.len()
                &&& self.referenced_entry.order@[self.index@] == slot
            },
            None => true,
        }
    }

    /// The elements that the cursor has yet to yield, in the order in which it
    /// yields them.
    pub open spec fn remaining(self) -> Seq<T> {
        behind(self.list()@, self.position())
    }

    /// The list of a well-formed cursor is well formed.
    pub proof fn lemma_list_wf(self)
        requires
            self.wf(),
        ensures
            self.list().wf(),
    {
    }

    /// A cursor that is given up without `remove` leaves the list as it sees
    /// it: once nothing uses the cursor any more, the final value of its borrow
    /// is the list it walked. So after walking, or after dropping the cursor
    /// unused, the list is what it was when the cursor was made.
    pub proof fn lemma_given_up(self)
        requires
            has_resolved(self),
        ensures
            *final(self.target()) == self.list(),
    {
    }

    /// A cursor in front of the first element of `ref_list`.
    pub fn new(ref_list: &'a mut List<T>) -> (cursor: MutListPos<'a, T>)
        requires
            old(ref_list).wf(),
        ensures
            cursor.wf(),
            cursor.list() == *old(ref_list),
            cursor.position() is None,
            *final(ref_list) == *final(cursor.target()),
    {
        MutListPos { position_index: None, referenced_entry: ref_list, index: Ghost(0) }
    }

    /// A cursor at the element `position` of `ref_list`, if the list is that
    /// long. Without a cursor the list is left as it was.
    pub fn start_at(position: usize, ref_list: &'a mut List<T>) -> (cursor: Option<
        MutListPos<'a, T>,
    >)
        requires
            old(ref_list).wf(),
        ensures
            match cursor {
                Some(cursor) => {
                    &&& position < old(ref_list)@.len()
                    &&& cursor.wf()
                    &&& cursor.list() == *old(ref_list)
                    &&& cursor.position() == Some(position as nat)
                    &&& *final(ref_list) == *final(cursor.target())
                },
                None => {
                    &&& position >= old(ref_list)@.len()
                    &&& *final(ref_list) == *old(ref_list)
                },
            },
    {
        if position >= ref_list.len() {
            return None;
        }
        let mut pos_index: usize = ref_list.head_index;
        let mut steps: usize = 0;
        while steps < position
            invariant
                ref_list.wf(),
                *ref_list == *old(ref_list),
                steps <= position < ref_list.order@.len(),
                pos_index == ref_list.order@[steps as int],
            decreases position - steps,
        {
            pos_index = ref_list.all_elements[pos_index].next_index;
            steps = steps + 1;
        }
        Some(
            MutListPos {
                position_index: Some(pos_index),
                referenced_entry: ref_list,
                index: Ghost(position as int),
            },
        )
    }

    /// Moves the cursor one element on and yields that element. At the last
    /// element, or on an empty list, it yields nothing and stays where it is.
    /// The list is not changed.
    pub fn next(&mut self) -> (item: Option<Rc<T>>)
        requires
            old(self).wf(),
        ensures
            final(self).wf(),
            final(self).list() == old(self).list(),
            *final(final(self).target()) == *final(old(self).target()),
            final(self).position() == advance(old(self).position(), old(self).list()@.len()),
            match item {
                Some(value) => {
                    &&& yielded(old(self).list()@, old(self).position()) == Some(*value)
                    &&& old(self).remaining().len() > 0
                    &&& *value == old(self).remaining()[0]
                    &&& final(self).remaining() == old(self).remaining().drop_first()
                },
                None => {
                    &&& yielded(old(self).list()@, old(self).position()) is None
                    &&& old(self).remaining().len() == 0
                },
            },
    {
        let found_index: usize;
        match self.position_index {
            None => {
                if self.referenced_entry.len() == 0 {
                    return None;
                }
                found_index = self.referenced_entry.head_index;
                self.index = Ghost(0);
            },
            Some(valid_pos_index) => {
                let cur_next_index: usize =
                    self.referenced_entry.all_elements[valid_pos_index].next_index;
                let tail_index: usize = self.referenced_entry.tail_index;
                if valid_pos_index == tail_index && cur_next_index == tail_index {
                    return None;
                }
                found_index = cur_next_index;
                self.index = Ghost(self.index@ + 1);
            },
        }
        self.position_index = Some(found_index);
        let holded_data = Rc::clone(&self.referenced_entry.all_elements[found_index].hold_data);
        Some(holded_data)
    }

    /// Gives the cursor up and takes the element it is at out of the list.
    /// The element's slot is queued for reuse and holds a default value from
    /// then on, and the element is handed back. A cursor in front of the first
    /// element removes nothing.
    pub fn remove(self) -> (removed: Option<Rc<T>>) where T: Default
        requires
            self.wf(),
        ensures
            final(self.target()).wf(),
            match self.position() {
                Some(index) => {
                    &&& removed matches Some(value)
                    &&& *value == self.list()@[index as int]
                    &&& final(self.target())@ == self.list()@.remove(index as int)
                    &&& final(self.target())@.len() == self.list()@.len() - 1
                    &&& List::released_at(self.list(), *final(self.target()), index as int)
                    &&& T::default.ensures(
                        (),
                        final(self.target()).payload(self.list().slot_order()[index as int]),
                    )
                },
                None => {
                    &&& removed is None
                    &&& *final(self.target()) == self.list()
                },
            },
    {
        let list = self.referenced_entry;
        match self.position_index {
            Some(current_position) => {
                let ghost before = *list;
                let ghost at = self.index@;
                let next_index: usize = list.all_elements[current_position].next_index;
                if current_position == list.head_index {
                    // Only the head index has to pass the slot by.
                    list.head_index = next_index;
                } else {
                    // No link leads back: look for the slot in front from the head.
                    let mut prev_index: usize = list.head_index;
                    let ghost mut walked: int = 0;
                    while list.all_elements[prev_index].next_index != current_position
                        invariant
                            *list == before,
                            before.wf(),
                            0 <= walked < at < before.order@.len(),
                            before.order@[at] == current_position,
                            prev_index == before.order@[walked],
                        decreases at - walked,
                    {
                        prev_index = list.all_elements[prev_index].next_index;
                        proof {
                            walked = walked + 1;
                        }
                    }
                    // The walk stops at the slot in front, and nowhere before it.
                    assert(walked == at - 1);
                    if next_index == current_position {
                        // The tail goes: the slot in front becomes the tail.
                        list.all_elements[prev_index].next_index = prev_index;
                        list.tail_index = prev_index;
                    } else {
                        list.all_elements[prev_index].next_index = next_index;
                    }
                }
                let removed = Rc::clone(&list.all_elements[current_position].hold_data);
                list.all_elements[current_position].hold_data = Rc::default();
                list.free_indices.push_back(current_position);
                list.order = Ghost(list.order@.remove(at));
                proof {
                    List::lemma_unlinked(before, *list, at);
                }
                Some(removed)
            },
            // The cursor is at no element, so there is nothing to do.
            None => None,
        }
    }
}

} // verus!
