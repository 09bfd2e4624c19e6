use super::List;
use std::rc::Rc;
use vstd::prelude::*;

verus! {

/// Where a cursor at `position` stands after one advance over `len` elements.
/// In front of the elements it moves to the first, at an element to the next;
/// on an empty list and at the last element it stays where it is.
pub open spec fn advance(position: Option<nat>, len: nat) -> Option<nat> {
    match position {
        Some(index) => if index + 1 < len {
            Some(index + 1)
        } else {
            position
        },
        None => if len > 0 {
            Some(0)
        } else {
            position
        },
    }
}

/// Where a cursor at `position` stands after `times` advances.
pub open spec fn advanced(position: Option<nat>, len: nat, times: nat) -> Option<nat>
    decreases times,
{
    if times == 0 {
        position
    } else {
        advance(advanced(position, len, (times - 1) as nat), len)
    }
}

/// What one advance of a cursor at `position` over `items` yields: the element
/// it moves to, or nothing where it stays.
pub open spec fn yielded<T>(items: Seq<T>, position: Option<nat>) -> Option<T> {
    match position {
        Some(index) => if index + 1 < items.len() {
            Some(items[index as int + 1])
        } else {
            None
        },
        None => if items.len() > 0 {
            Some(items[0])
        } else {
            None
        },
    }
}

/// The elements of `items` behind `position`: what a cursor there has yet to
/// yield, in the order in which it yields them.
pub open spec fn behind<T>(items: Seq<T>, position: Option<nat>) -> Seq<T> {
    match position {
        Some(index) => items.skip(index as int + 1),
        None => items,
    }
}

/// A read-only cursor over a list. It is either in front of the first element
/// or at one element, and each advance moves it one element towards the tail.
pub struct ListPos<'a, T> {
    position_index: Option<usize>,
    referenced_entry: &'a List<T>,
    /// Where in list order the cursor's slot is, when it is at an element.
    index: Ghost<int>,
}

impl<'a, T> ListPos<'a, T> {
    /// The list that the cursor walks.
    pub closed spec fn list(self) -> List<T> {
        *self.referenced_entry
    }

    /// The index of the element that the cursor is at; `None` in front of the
    /// first element.
    pub closed spec fn position(self) -> Option<nat> {
        match self.position_index {
            Some(_) => Some(self.index@ as nat),
            None => None,
        }
    }

    /// The list is well formed and the cursor is at one of its elements or in
    /// front of them.
    pub closed spec fn wf(self) -> bool {
        &&& self.referenced_entry.wf()
        &&& match self.position_index {
            Some(slot) => {
                &&& 0 <= self.index@ < self.referenced_entry.order@.len()
                &&& self.referenced_entry.order@[self.index@] == slot
            },
            None => true,
        }
    }

    /// The elements that the cursor has yet to yield, in the order in which it
    /// yields them.
    pub open spec fn remaining(self) -> Seq<T> {
        behind(self.list()@, self.position())
    }

    /// The list of a well-formed cursor is well formed.
    pub proof fn lemma_list_wf(self)
        requires
            self.wf(),
        ensures
            self.list().wf(),
    {
    }

    /// A cursor in front of the first element of `ref_list`.
    pub fn new(ref_list: &'a List<T>) -> (cursor: ListPos<'a, T>)
        requires
            ref_list.wf(),
        ensures
            cursor.wf(),
            cursor.list() == *ref_list,
            cursor.position() is None,
    {
        ListPos { position_index: None, referenced_entry: ref_list, index: Ghost(0) }
    }

    /// A cursor at the element `position` of `ref_list`, if the list is that long.
    pub fn start_at(position: usize, ref_list: &'a List<T>) -> (cursor: Option<ListPos<'a, T>>)
        requires
            ref_list.wf(),
        ensures
            match cursor {
                Some(cursor) => {
                    &&& position < ref_list@.len()
                    &&& cursor.wf()
                    &&& cursor.list() == *ref_list
                    &&& cursor.position() == Some(position as nat)
                },
                None => position >= ref_list@.len(),
            },
    {
        if position >= ref_list.len() {
            return None;
        }
        let mut pos_index: usize = ref_list.head_index;
        let mut steps: usize = 0;
        while steps < position
            invariant
                ref_list.wf(),
                steps <= position < ref_list.order@.len(),
                pos_index == ref_list.order@[steps as int],
            decreases position - steps,
        {
            pos_index = ref_list.all_elements[pos_index].next_index;
            steps = steps + 1;
        }
        Some(
            ListPos {
                position_index: Some(pos_index),
                referenced_entry: ref_list,
                index: Ghost(position as int),
            },
        )
    }

    /// Moves the cursor one element on and yields that element. At the last
    /// element, or on an empty list, it yields nothing and stays where it is.
    pub fn next(&mut self) -> (item: Option<Rc<T>>)
        requires
            old(self).wf(),
        ensures
            final(self).wf(),
            final(self).list() == old(self).list(),
            final(self).position() == advance(old(self).position(), old(self).list()@.len()),
            match item {
                Some(value) => {
                    &&& yielded(old(self).list()@, old(self).position()) == Some(*value)
                    &&& old(self).remaining().len() > 0
                    &&& *value == old(self).remaining()[0]
                    &&& final(self).remaining() == old(self).remaining().drop_first()
                },
                None => {
                    &&& yielded(old(self).list()@, old(self).position()) is None
                    &&& old(self).remaining().len() == 0
                    &&& *final(self) == *old(self)
                },
            },
    {
        let found_index: usize;
        match self.position_index {
            None => {
                if self.referenced_entry.len() == 0 {
                    return None;
                }
                found_index = self.referenced_entry.head_index;
                self.index = Ghost(0);
            },
            Some(valid_pos_index) => {
                let cur_next_index: usize =
                    self.referenced_entry.all_elements[valid_pos_index].next_index;
                let tail_index: usize = self.referenced_entry.tail_index;
                if valid_pos_index == tail_index && cur_next_index == tail_index {
                    return None;
                }
                found_index = cur_next_index;
                self.index = Ghost(self.index@ + 1);
            },
        }
        self.position_index = Some(found_index);
        let holded_data = Rc::clone(&self.referenced_entry.all_elements[found_index].hold_data);
        Some(holded_data)
    }

    /// Advances the cursor until it yields nothing more and hands back what it
    /// yielded, in that order.
    pub fn collect(self) -> (items: Vec<Rc<T>>)
        requires
            self.wf(),
        ensures
            items@.len() == self.remaining().len(),
            forall|i: int| 0 <= i < items@.len() ==> *(#[trigger] items@[i]) == self.remaining()[i],
    {
        let mut cursor = self;
        let mut items: Vec<Rc<T>> = Vec::new();
        loop
            invariant
                cursor.wf(),
                cursor.list() == self.list(),
                items@.len() + cursor.remaining().len() == self.remaining().len(),
                cursor.remaining() == self.remaining().skip(items@.len() as int),
                forall|i: int|
                    0 <= i < items@.len() ==> *(#[trigger] items@[i]) == self.remaining()[i],
            decreases cursor.remaining().len(),
        {
            match cursor.next() {
                Some(value) => {
                    items.push(value);
                },
                None => {
                    return items;
                },
            }
        }
    }
}

} // verus!
