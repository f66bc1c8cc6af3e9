//! The lock-guarded lists, driven as their callers would drive them.

use spinlocks::coarse::CoarseList;
use spinlocks::fine::FGList;
use spinlocks::list::List;

#[test]
fn coarse_test() {
    let mut e = CoarseList::<usize>::new();
    for _ in 0..4 {
        for i in 1..1000 {
            e.add_ordered(i);
            e.remove(i);
        }
    }
    println!("value is  {:?}", e.len());
    assert_eq!(e.len(), 0);
}

#[test]
fn fine_test() {
    let mut e = FGList::<usize>::new();
    for _ in 0..4 {
        for i in 1..10 {
            e.add_ordered(i);
        }
    }
}

#[test]
fn list_add_and_pop() {
    let mut l: List<i32> = List::new();
    l.add(1);
    l.add(2);
    l.add(3);
    assert_eq!(l.len(), 3);
    assert_eq!(l.pop(), Some(3));
    assert_eq!(l.pop(), Some(2));
    assert_eq!(l.pop(), Some(1));
    assert_eq!(l.pop(), None);
    assert_eq!(l.len(), 0);
}

#[test]
fn list_add_ordered_sorts() {
    let mut l: List<u32> = List::new();
    l.add_ordered(3);
    l.add_ordered(1);
    l.add_ordered(2);
    assert_eq!(l.pop(), Some(1));
    assert_eq!(l.pop(), Some(2));
    assert_eq!(l.pop(), Some(3));
}

#[test]
fn list_remove_first_match() {
    let mut l: List<u32> = List::new();
    l.add_ordered(1);
    l.add_ordered(2);
    l.add_ordered(2);
    l.add_ordered(3);
    l.remove(2);
    assert_eq!(l.len(), 3);
    assert_eq!(l.pop(), Some(1));
    assert_eq!(l.pop(), Some(2));
    assert_eq!(l.pop(), Some(3));
}

#[test]
fn coarse_pop_order() {
    let mut e = CoarseList::<u32>::new();
    e.add(10);
    e.add(20);
    assert_eq!(e.pop(), Some(20));
    assert_eq!(e.pop(), Some(10));
    assert_eq!(e.pop(), None);
}
