//! A boxed singly linked stack.

use vstd::prelude::*;

verus! {

/// A last-in-first-out stack of boxed nodes; the view lists the elements
/// from top to bottom.
pub struct Stack<T>(Option<Box<Node<T>>>);

/// One stack cell: an element and the stack below it.
pub struct Node<T>(T, Stack<T>);

impl<T> View for Stack<T> {
    type V = Seq<T>;

    closed spec fn view(&self) -> Seq<T>
        decreases self,
    {
        match self.0 {
            None => Seq::empty(),
            Some(node) => seq![node.0] + node.1@,
        }
    }
}

impl<T> Stack<T> {
    pub fn new() -> (r: Stack<T>)
        ensures
            r@ == Seq::<T>::empty(),
    {
        Stack(None)
    }

    /// Pushes `a` on top.
    pub fn push(&mut self, a: T)
        ensures
            final(self)@ == seq![a] + old(self)@,
    {
        let x = self.0.take();
        self.0 = Some(Box::new(Node(a, Stack(x))));
    }

    /// Pops the top element.
    pub fn pop(&mut self) -> (r: Option<T>)
        ensures
            old(self)@.len() == 0 ==> r is None && final(self)@ == old(self)@,
            old(self)@.len() > 0 ==> (r matches Some(v) && v == old(self)@[0] && final(self)@ == old(
                self,
            )@.drop_first()),
    {
        match self.0.take() {
            Some(head) => {
                proof {
                    assert(old(self)@.drop_first() =~= head.1@);
                    assert(old(self)@[0] == head.0);
                }
                let Node(item, mut below) = *head;
                self.0 = below.0.take();
                Some(item)
            },
            None => None,
        }
    }
}

} // verus!
