use linked_lists::linked::LinkedList;
use linked_lists::persistent::PersistentList;

#[test]
fn lifo_order_of_pops() {
    let mut list = LinkedList::new();
    for value in [10, 20, 30, 40] {
        list.push(value);
    }

    assert_eq!(Some(40), list.pop());
    assert_eq!(Some(30), list.pop());
    assert_eq!(Some(20), list.pop());
    assert_eq!(Some(10), list.pop());
    assert_eq!(None, list.pop());
}

#[test]
fn peek_twice_agrees_and_keeps_length() {
    let mut list = LinkedList::new();
    list.push(7);
    list.push(8);

    assert_eq!(list.peek(), list.peek());
    assert_eq!(Some(8), list.pop());
    assert_eq!(Some(7), list.pop());
    assert_eq!(None, list.pop());
}

#[test]
fn peek_mut_write_is_seen_by_peek() {
    let mut list = LinkedList::new();
    list.push(5);
    list.push(6);

    if let Some(head) = list.peek_mut() {
        *head = 60;
    }

    assert_eq!(Some(&60), list.peek());
    assert_eq!(Some(60), list.pop());
    assert_eq!(Some(5), list.pop());
}

#[test]
fn into_iter_exhausts_and_stays_exhausted() {
    let mut list = LinkedList::new();
    list.push(2);
    list.push(1);

    let mut iter = list.into_iter();
    assert_eq!(Some(1), iter.next());
    assert_eq!(Some(2), iter.next());
    assert_eq!(None, iter.next());
    assert_eq!(None, iter.next());
    assert_eq!(None, iter.next());
}

#[test]
fn borrowing_iteration_is_non_destructive() {
    let mut list = LinkedList::new();
    list.push(3);
    list.push(2);
    list.push(1);

    let mut iter = list.iter();
    while iter.next().is_some() {}

    let mut iter_mut = list.iter_mut();
    while iter_mut.next().is_some() {}

    assert_eq!(Some(1), list.pop());
    assert_eq!(Some(2), list.pop());
    assert_eq!(Some(3), list.pop());
    assert_eq!(None, list.pop());
}

#[test]
fn iter_mut_writes_land_in_place() {
    let mut list = LinkedList::new();
    list.push(3);
    list.push(2);
    list.push(1);

    let mut iter_mut = list.iter_mut();
    while let Some(value) = iter_mut.next() {
        *value *= 10;
    }

    assert_eq!(Some(10), list.pop());
    assert_eq!(Some(20), list.pop());
    assert_eq!(Some(30), list.pop());
    assert_eq!(None, list.pop());
}

#[test]
fn structural_sharing_is_observable() {
    let base = PersistentList::new().prepend(3);
    let a = base.prepend(2);
    let b = base.prepend(9);

    assert_eq!(Some(&3), a.tail().head());
    assert_eq!(Some(&3), b.tail().head());
    assert_ne!(a.head(), b.head());
}

#[test]
fn tail_past_empty_is_stable() {
    let empty: PersistentList<i32> = PersistentList::new();

    let once = empty.tail();
    let twice = once.tail();
    let thrice = twice.tail();

    assert_eq!(None, once.head());
    assert_eq!(None, twice.head());
    assert_eq!(None, thrice.head());
}

#[test]
fn conversion_preserves_head_to_tail_order() {
    let mut list = LinkedList::new();
    list.push(3);
    list.push(2);
    list.push(1);

    let converted = list.to_persistent();

    let mut iter = converted.iter();
    assert_eq!(Some(&1), iter.next());
    assert_eq!(Some(&2), iter.next());
    assert_eq!(Some(&3), iter.next());
    assert_eq!(None, iter.next());
}

#[test]
fn deep_linked_list_drops_without_overflow() {
    let mut list = LinkedList::new();
    for value in 0..1_000_000 {
        list.push(value);
    }
    assert_eq!(Some(&999_999), list.peek());
    drop(list);
}

#[test]
fn deep_persistent_list_drops_without_overflow() {
    let mut list = PersistentList::new();
    for value in 0..1_000_000 {
        list = list.prepend(value);
    }
    assert_eq!(Some(&999_999), list.head());
    drop(list);
}

#[test]
fn teardown_respects_sharing() {
    let base = PersistentList::new().prepend(3);
    let a = base.prepend(2);
    let b = base.prepend(9);

    drop(a);
    drop(base);

    assert_eq!(Some(&9), b.head());
    assert_eq!(Some(&3), b.tail().head());
}

#[test]
fn conversion_of_empty_list_is_empty() {
    let list: LinkedList<i32> = LinkedList::new();
    let converted = list.to_persistent();
    assert_eq!(None, converted.head());
}

#[test]
fn iterators_on_empty_lists_yield_nothing() {
    let mut list: LinkedList<i32> = LinkedList::new();
    let mut iter = list.iter();
    assert_eq!(None, iter.next());
    let mut iter_mut = list.iter_mut();
    assert_eq!(None, iter_mut.next());
    let mut into_iter = list.into_iter();
    assert_eq!(None, into_iter.next());

    let shared: PersistentList<i32> = PersistentList::new();
    let mut shared_iter = shared.iter();
    assert_eq!(None, shared_iter.next());
}
