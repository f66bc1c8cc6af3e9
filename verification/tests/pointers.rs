//! The owning box, the shared pointer and the borrow-counted cell.

#![allow(non_snake_case)]
#![allow(unused_variables)]

use std::cell::RefCell;
use std::fmt::Display;
use std::rc::Rc;

use spinlocks::simplebox::SimpleBox;
use spinlocks::simplerc::SimpleRc;
use spinlocks::simplerefcell::SimpleRefCell;

#[derive(Debug)]
struct A(i32);

impl Drop for A {
    fn drop(&mut self) {
        println!("drop {}", self.0);
    }
}

fn testhelper(mut a: SimpleBox<A>) -> SimpleBox<A> {
    a.set(A(91));
    a
}

#[test]
fn simplebox_mytest() {
    {
        let k = Box::new(2);
        let c: Box<dyn Display> = k;
        let b = SimpleBox::new(A(13));
        let c = testhelper(b);
        assert_eq!(c.get().0, 91);
    }
    println!("finished");
}

#[test]
fn simplerc_test() {
    let rc = Rc::new("asd".to_string());
    let rc2 = rc.clone();
    let asd = &*rc;
    let rc3 = Rc::new("asdasd".to_string());
    let rc4: Rc<dyn Display> = rc3;
}

trait MyTrait {
    fn sayHello(&self);
}

impl MyTrait for A {
    fn sayHello(&self) {
        println!("Hello form A({})", self.0);
    }
}

#[test]
fn simplerc_mytest() {
    let rc = SimpleRc::new(A(11));
    {
        let k = rc.clone();
    }
    let a = rc.clone();
    assert_eq!(a.get().0, 11);
    println!("test is fnished");
    let k = SimpleRc::new(A(11));
}

#[test]
fn simplerefcell_test() {
    let a = RefCell::new(2);
    {
        let mut c = a.borrow_mut();
        *c = 12;
    }
    let k = a.borrow();
    println!("{}", *k);
    assert_eq!(*k, 12);
}

#[test]
fn simpletest() {
    let mut a = SimpleRefCell::new(2);
    {
        let c = a.borrow_mut();
        a.set(&c, 12);
        a.release_mut(c);
    }
    let k = a.borrow();
    println!("{}", a.get(&k));
    assert_eq!(*a.get(&k), 12);
    a.release(k);
}

#[test]
fn simplerefcell_counts_borrows() {
    let mut a = SimpleRefCell::new(1);
    let m = a.borrow_mut();
    a.set(&m, 2);
    assert_eq!(*a.get_mut_borrowed(&m), 2);
    a.release_mut(m);
    // One ended mutable borrow admits one shared borrow at a time.
    let r1 = a.borrow();
    assert_eq!(*a.get(&r1), 2);
    a.release(r1);
}
