//! The persistent cons list, the plain stack, and a borrow exercise.

#![allow(unused_variables)]

use spinlocks::conslist;
use spinlocks::stack;

fn render(s: &conslist::Stack<i32>) -> String {
    let mut out = String::from("[");
    let mut it = s.iter();
    let mut count = 0;
    while let Some(v) = it.next() {
        if count != 0 {
            out.push_str(", ");
        }
        out.push_str(&format!("{}", v));
        count += 1;
    }
    out.push(']');
    out
}

#[test]
fn conslist_create() {
    let mut s1: conslist::Stack<i32> = conslist::Stack::new();
    for i in vec![1, 2, 3, 4].into_iter().rev() {
        s1 = s1.cons(i);
    }
    println!("{}", render(&s1));
    assert_eq!(render(&s1), "[1, 2, 3, 4]");
    if let Some((item, r)) = s1.uncons() {
        assert_eq!(*item, 1);
        println!("{}", render(&s1));
        println!("{}", render(&r));
        assert_eq!(render(&r), "[2, 3, 4]");
    } else {
        panic!("stack was not empty");
    }
    // The original stack is unchanged by uncons.
    assert_eq!(render(&s1), "[1, 2, 3, 4]");
}

#[test]
fn stack_create() {
    let mut s = stack::Stack::new();
    s.push(2);
    println!("{:?}", s.pop());
    s.push(1);
    s.push(2);
    s.push(3);
    let p = s.pop();
    println!("{:?}", p);
    assert_eq!(p, Some(3));
    assert_eq!(s.pop(), Some(2));
    assert_eq!(s.pop(), Some(1));
    assert_eq!(s.pop(), None);
}

#[derive(Debug)]
struct Foo {
    a: String,
    b: String,
    c: String,
}

struct S<'a> {
    a: &'a String,
    b: &'a String,
}

fn asd(a: &mut String, b: &S) {
    a.push_str(b.a);
}

#[test]
fn mod_mytest() {
    let mut x = Foo { a: "asd".to_string(), b: "asd".to_string(), c: "asd".to_string() };
    let s = vec![S { a: &x.a, b: &x.b }];
    asd(&mut x.c, &s[0]);
    drop(s);
    println!("{:?}", x);
    assert_eq!(x.c, "asdasd");
}
