use algo_rust::data_structs::LinkedList;

fn list_of(values: &[i32]) -> LinkedList<i32> {
    let mut list = LinkedList::new();
    for v in values {
        list.push(*v);
    }
    list
}

#[test]
fn pops_come_back_in_reverse_push_order() {
    let mut list = list_of(&[10, 20, 30, 40, 50]);
    assert_eq!(list.pop(), Some(50));
    assert_eq!(list.pop(), Some(40));
    assert_eq!(list.pop(), Some(30));
    assert_eq!(list.pop(), Some(20));
    assert_eq!(list.pop(), Some(10));
    assert_eq!(list.pop(), None);
}

#[test]
fn length_counts_pushes_minus_pops() {
    let mut list = list_of(&[1, 2, 3, 4]);
    assert_eq!(list.length(), 4);
    assert!(!list.is_empty());
    list.pop();
    assert_eq!(list.length(), 3);
    list.pop();
    list.pop();
    assert_eq!(list.length(), 1);
    assert!(!list.is_empty());
    list.pop();
    assert_eq!(list.length(), 0);
    assert!(list.is_empty());
}

#[test]
fn pop_on_empty_leaves_length_at_zero() {
    let mut list: LinkedList<i32> = LinkedList::new();
    assert_eq!(list.pop(), None);
    assert_eq!(list.length(), 0);
    list.push(7);
    assert_eq!(list.length(), 1);
}

#[test]
fn peek_does_not_change_the_list() {
    let mut list = list_of(&[1, 2]);
    assert_eq!(list.peek(), Some(&2));
    assert_eq!(list.peek(), Some(&2));
    assert_eq!(list.length(), 2);
    list.push(3);
    assert_eq!(list.peek(), Some(&3));
    list.pop();
    assert_eq!(list.peek(), Some(&2));
    assert_eq!(list.length(), 2);
}

#[test]
fn peek_mut_write_is_seen_by_peek_and_pop() {
    let mut list = list_of(&[1, 2]);
    if let Some(value) = list.peek_mut() {
        *value = 3;
    }
    assert_eq!(list.peek(), Some(&3));
    assert_eq!(list.length(), 2);
    assert_eq!(list.pop(), Some(3));
    assert_eq!(list.pop(), Some(1));
    assert_eq!(list.pop(), None);
}

#[test]
fn peek_mut_on_empty_is_none() {
    let mut list: LinkedList<i32> = LinkedList::new();
    assert!(list.peek_mut().is_none());
    assert!(list.is_empty());
}

#[test]
fn clear_empties_a_filled_list() {
    let mut list = list_of(&[1, 2, 3]);
    list.clear();
    assert_eq!(list.length(), 0);
    assert!(list.is_empty());
    assert_eq!(list.pop(), None);
    assert_eq!(list.peek(), None);
    list.push(4);
    assert_eq!(list.pop(), Some(4));
}

#[test]
fn clear_on_empty_list_keeps_it_empty() {
    let mut list: LinkedList<i32> = LinkedList::new();
    list.clear();
    assert_eq!(list.length(), 0);
    assert!(list.is_empty());
    assert_eq!(list.pop(), None);
}

#[test]
fn clone_keeps_order_and_is_independent() {
    let mut list = LinkedList::new();
    list.push(String::from("c"));
    list.push(String::from("b"));
    list.push(String::from("a"));
    let mut copy = list.clone();
    assert_eq!(copy.length(), 3);
    if let Some(front) = copy.peek_mut() {
        front.push('!');
    }
    copy.push(String::from("z"));
    assert_eq!(copy.pop(), Some(String::from("z")));
    assert_eq!(copy.pop(), Some(String::from("a!")));
    assert_eq!(list.pop(), Some(String::from("a")));
    assert_eq!(copy.pop(), list.pop());
    assert_eq!(copy.pop(), list.pop());
    assert_eq!(copy.pop(), None);
    assert_eq!(list.pop(), None);
}

#[test]
fn clone_pop_sequence_matches_original() {
    let list = list_of(&[1, 2, 3]);
    let mut copy = list.clone();
    let mut original = list;
    for _ in 0..4 {
        assert_eq!(copy.pop(), original.pop());
    }
}

#[test]
fn clone_of_empty_list_is_empty() {
    let list: LinkedList<i32> = LinkedList::new();
    let copy = list.clone();
    assert!(copy.is_empty());
    assert_eq!(copy.peek(), None);
}

#[test]
fn iter_yields_front_to_back() {
    let list = list_of(&[1, 2, 3]);
    let mut iter = list.iter();
    assert_eq!(iter.next(), Some(&3));
    assert_eq!(iter.next(), Some(&2));
    assert_eq!(iter.next(), Some(&1));
    assert_eq!(iter.next(), None);
    assert_eq!(list.length(), 3);
    assert_eq!(list.peek(), Some(&3));
}

#[test]
fn iter_on_empty_list_is_exhausted() {
    let list: LinkedList<i32> = LinkedList::new();
    let mut iter = list.iter();
    assert_eq!(iter.next(), None);
}

#[test]
fn into_iter_yields_owned_values() {
    let list = list_of(&[1, 2, 3]);
    let mut iter = list.into_iter();
    assert_eq!(iter.next(), Some(3));
    assert_eq!(iter.next(), Some(2));
    assert_eq!(iter.next(), Some(1));
    assert_eq!(iter.next(), None);
    assert_eq!(iter.next(), None);
}

#[test]
fn iter_mut_doubles_every_value() {
    let mut list = list_of(&[1, 2]);
    let mut iter = list.iter_mut();
    while let Some(elem) = iter.next() {
        *elem *= 2;
    }
    assert_eq!(list.pop(), Some(4));
    assert_eq!(list.pop(), Some(2));
    assert_eq!(list.pop(), None);
}

#[test]
fn iter_mut_yields_front_to_back() {
    let mut list = list_of(&[1, 2, 3]);
    let mut iter = list.iter_mut();
    assert_eq!(iter.next().map(|v| *v), Some(3));
    assert_eq!(iter.next().map(|v| *v), Some(2));
    assert_eq!(iter.next().map(|v| *v), Some(1));
    assert!(iter.next().is_none());
    assert_eq!(list.length(), 3);
}

#[test]
fn push_three_then_drain() {
    let mut list = LinkedList::new();
    list.push(1);
    list.push(2);
    list.push(3);
    assert_eq!(list.length(), 3);
    assert_eq!(list.peek(), Some(&3));
    assert_eq!(list.pop(), Some(3));
    assert_eq!(list.pop(), Some(2));
    assert_eq!(list.peek(), Some(&1));
    assert_eq!(list.pop(), Some(1));
    assert_eq!(list.pop(), None);
    assert!(list.is_empty());
}

#[test]
fn new_list_is_empty() {
    let mut list: LinkedList<i32> = LinkedList::new();
    assert_eq!(list.pop(), None);
    assert_eq!(list.peek(), None);
    assert_eq!(list.length(), 0);
    assert!(list.is_empty());
    list.clear();
    assert!(list.is_empty());
    assert_eq!(list.length(), 0);
}

#[test]
fn long_list_drops_without_overflow() {
    let mut list = LinkedList::new();
    for i in 0..100_000u32 {
        list.push(i);
    }
    assert_eq!(list.length(), 100_000);
    assert_eq!(list.peek(), Some(&99_999));
    drop(list);
}

#[test]
fn long_list_clears_without_overflow() {
    let mut list = LinkedList::new();
    for i in 0..100_000u64 {
        list.push(i);
    }
    list.clear();
    assert!(list.is_empty());
}

#[test]
fn long_list_clones_in_order() {
    let mut list = LinkedList::new();
    for i in 0..100_000u64 {
        list.push(i);
    }
    let mut copy = list.clone();
    assert_eq!(copy.length(), 100_000);
    assert_eq!(copy.pop(), Some(99_999));
    assert_eq!(list.pop(), Some(99_999));
}

#[test]
fn interleaved_pushes_and_pops_count_down() {
    let mut list = LinkedList::new();
    list.push(1);
    list.push(2);
    assert_eq!(list.pop(), Some(2));
    list.push(3);
    list.push(4);
    assert_eq!(list.pop(), Some(4));
    list.push(5);
    assert_eq!(list.length(), 3);
    assert_eq!(list.pop(), Some(5));
    assert_eq!(list.pop(), Some(3));
    assert_eq!(list.pop(), Some(1));
    assert_eq!(list.length(), 0);
}

#[test]
fn iter_mut_partial_writes_keep_the_rest() {
    let mut list = list_of(&[1, 2, 3]);
    let mut iter = list.iter_mut();
    if let Some(front) = iter.next() {
        *front = 30;
    }
    iter.next();
    drop(iter);
    assert_eq!(list.length(), 3);
    assert_eq!(list.pop(), Some(30));
    assert_eq!(list.pop(), Some(2));
    assert_eq!(list.pop(), Some(1));
    assert_eq!(list.pop(), None);
}
