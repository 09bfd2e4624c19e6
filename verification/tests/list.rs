use container::List;
use std::rc::Rc;

fn holds(value: Option<Rc<i32>>, expected: i32) -> bool {
    value.is_some_and(|rc_val| *rc_val == expected)
}

#[test]
fn tc0_instantion_empty() {
    let empty_linked_list: List<i32> = List::from_array([]);
    assert!(empty_linked_list.head().is_none());
}

#[test]
fn tc1_instantion_single_zero() {
    let lists_with_single_zero = [List::from_array([0])];

    for tested_list in lists_with_single_zero {
        assert!(holds(tested_list.head(), 0));
    }
}

#[test]
fn tc2_append_insert_element() {
    let mut dynamic_list: List<i32> = List::from_array([]);
    assert!(dynamic_list.head().is_none());

    dynamic_list.append(0);
    assert!(holds(dynamic_list.head(), 0));

    dynamic_list.append(1);
    assert!(holds(dynamic_list.at(1), 1));

    assert!(dynamic_list.at(2).is_none());

    dynamic_list.insert_before(1, 3);
    assert!(holds(dynamic_list.at(1), 3));

    // insert before the head element
    dynamic_list.insert_before(0, 4);
    assert!(holds(dynamic_list.head(), 4));
    // a cursor at the head yields the element behind it
    let test_iter = dynamic_list.head_iter();
    assert!(test_iter.is_some_and(|mut unwrapped_iter| {
        unwrapped_iter.next().is_some_and(|rc_value| *rc_value == 0)
    }));
}

#[test]
fn tc3_next_element() {
    let test_array = [0, 1, 2, 3];
    let test_list = List::from_array([0, 1, 2, 3]);
    let mut current_iter = test_list.iter();

    assert_eq!(current_iter.next(), Some(Rc::new(0)));
    assert_eq!(current_iter.next(), Some(Rc::new(1)));
    assert_eq!(current_iter.next(), Some(Rc::new(2)));
    assert_eq!(current_iter.next(), Some(Rc::new(3)));
    assert_eq!(current_iter.next(), None);

    for (index, data) in test_list.iter().collect().iter().enumerate() {
        assert_eq!(**data, test_array[index]);
    }
}

#[test]
fn tc4_remove_element() {
    let mut test_list = List::from_array([0, 1, 2]);

    let rem_iter_opt = test_list.pos_iter_mut(1);
    assert!(rem_iter_opt.is_some());
    rem_iter_opt.unwrap().remove(); // remove consumes the cursor

    assert!(holds(test_list.at(0), 0));
    assert!(holds(test_list.at(1), 2));

    let rem_iter_opt2 = test_list.head_iter_mut();
    assert!(rem_iter_opt2.is_some());
    rem_iter_opt2.unwrap().remove();
    assert!(holds(test_list.at(0), 2));

    let rem_iter_opt2 = test_list.head_iter_mut();
    assert!(rem_iter_opt2.is_some());
    rem_iter_opt2.unwrap().remove(); // remove the last element
    assert!(test_list.at(0).is_none());

    // Removal also gives up the list's hold on the shared value.

    let element0 = Rc::new(1);
    let element1 = Rc::new(2);
    let element2 = Rc::new(3);

    let mut strong_ref_list = List::empty();

    strong_ref_list.append_shared(Rc::clone(&element0));
    strong_ref_list.append_shared(Rc::clone(&element1));
    strong_ref_list.append_shared(Rc::clone(&element2));

    assert_eq!(Rc::strong_count(&element0), 2);
    assert_eq!(Rc::strong_count(&element1), 2);
    assert_eq!(Rc::strong_count(&element2), 2);

    strong_ref_list.pos_iter_mut(1).unwrap().remove();

    // The element is no longer in the list, so one owner less.
    assert_eq!(Rc::strong_count(&element1), 1);

    // An append after the removal lands behind the last element.
    strong_ref_list.append_shared(Rc::new(4));
    assert!(holds(strong_ref_list.at(2), 4));
}

#[test]
fn tc5_test_remove_at() {
    let mut test_list = List::from_array([0, 1, 2]);

    test_list.remove_at(1);
    assert!(holds(test_list.at(0), 0));
    assert!(holds(test_list.at(1), 2));

    assert!(holds(test_list.remove_at(0), 0));
    assert!(holds(test_list.at(0), 2));
    test_list.remove_at(0);
    assert!(test_list.at(0).is_none());
}
