//! A boxed first-in-first-out queue.

use vstd::prelude::*;

verus! {

/// A queue of boxed cells; the view lists the elements from front to back.
pub struct Queue<T>(Option<Box<Node<T>>>);

/// One queue cell: an element and the queue behind it.
pub struct Node<T>(T, Queue<T>);

impl<T> View for Queue<T> {
    type V = Seq<T>;

    closed spec fn view(&self) -> Seq<T>
        decreases self,
    {
        match self.0 {
            None => Seq::empty(),
            Some(node) => seq![node.0] + node.1@,
        }
    }
}

impl<T> Queue<T> {
    pub fn new() -> (r: Queue<T>)
        ensures
            r@ == Seq::<T>::empty(),
    {
        Queue(None)
    }
}

} // verus!
