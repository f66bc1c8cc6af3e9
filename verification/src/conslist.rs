//! A persistent cons list: pushing never moves the existing cells, which are
//! shared between versions through reference-counted pointers.

use vstd::prelude::*;
use std::rc::Rc;
use crate::simplerc::{rc_as_ref, rc_clone};

verus! {

/// A persistent stack; the view lists the elements from top to bottom.
pub struct Stack<T>(Option<Rc<Node<T>>>);

/// One shared cell: an element and the stack below it.
pub struct Node<T>(T, Stack<T>);

impl<T> View for Stack<T> {
    type V = Seq<T>;

    closed spec fn view(&self) -> Seq<T>
        decreases self,
    {
        match self.0 {
            None => Seq::empty(),
            Some(rc) => seq![rc.0] + rc.1@,
        }
    }
}

impl<T> Stack<T> {
    pub fn new() -> (r: Stack<T>)
        ensures
            r@ == Seq::<T>::empty(),
    {
        Stack(None)
    }

    /// Another handle on the same stack, sharing its cells.
    fn duplicate(&self) -> (r: Stack<T>)
        ensures
            r@ == self@,
    {
        match &self.0 {
            None => Stack(None),
            Some(rc) => Stack(Some(rc_clone(rc))),
        }
    }

    /// A new stack with `a` on top of this one; this stack is unchanged and
    /// its cells are shared with the result.
    pub fn cons(&self, a: T) -> (r: Stack<T>)
        ensures
            r@ == seq![a] + self@,
    {
        Stack(Some(Rc::new(Node(a, self.duplicate()))))
    }

    /// The top element and a handle on the rest, or nothing when empty.
    pub fn uncons(&self) -> (r: Option<(&T, Stack<T>)>)
        ensures
            self@.len() == 0 ==> r is None,
            self@.len() > 0 ==> (r matches Some((v, rest)) && *v == self@[0] && rest@ == self@.drop_first()),
    {
        match &self.0 {
            None => None,
            Some(x) => {
                let node = rc_as_ref(x);
                let cloned = node.1.duplicate();
                proof {
                    assert(self@.drop_first() =~= cloned@);
                }
                Some((&node.0, cloned))
            },
        }
    }

    /// An iterator over the elements, top first.
    pub fn iter(&self) -> (r: StackIterator<'_, T>)
        ensures
            r@ == self@,
    {
        match &self.0 {
            None => StackIterator(None),
            Some(rc) => StackIterator(Some(rc_as_ref(rc))),
        }
    }
}

/// A cursor over a stack, yielding the elements from top to bottom.
pub struct StackIterator<'a, T>(Option<&'a Node<T>>);

impl<'a, T> View for StackIterator<'a, T> {
    type V = Seq<T>;

    /// The elements not yet yielded.
    closed spec fn view(&self) -> Seq<T> {
        match self.0 {
            None => Seq::empty(),
            Some(node) => seq![node.0] + node.1@,
        }
    }
}

impl<'a, T> StackIterator<'a, T> {
    /// Yields the next element, moving the cursor past it.
    pub fn next(&mut self) -> (r: Option<&'a T>)
        ensures
            old(self)@.len() == 0 ==> r is None && final(self)@ == old(self)@,
            old(self)@.len() > 0 ==> (r matches Some(v) && *v == old(self)@[0] && final(self)@
                == old(self)@.drop_first()),
    {
        match self.0 {
            None => None,
            Some(x) => {
                let rest: Option<&'a Node<T>> = match &x.1.0 {
                    None => None,
                    Some(rc) => Some(rc_as_ref(rc)),
                };
                self.0 = rest;
                proof {
                    assert(old(self)@.drop_first() =~= self@);
                }
                Some(&x.0)
            },
        }
    }
}

} // verus!
