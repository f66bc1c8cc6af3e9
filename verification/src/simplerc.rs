//! A reference-counted shared pointer, re-exposed over `Rc` with a verified
//! view of the shared value.

use vstd::prelude::*;
use std::rc::Rc;

verus! {

/// Relies on `Rc::clone`: the clone points at the same allocation, so it
/// carries the same value.
#[verifier::external_body]
pub(crate) fn rc_clone<T>(rc: &Rc<T>) -> (r: Rc<T>)
    ensures
        r == *rc,
{
    Rc::clone(rc)
}

/// Relies on `<Rc<T> as Deref>::deref`: a shared borrow of the pointed-to
/// value, which is the value the pointer was created from.
#[verifier::external_body]
pub(crate) fn rc_as_ref<T>(rc: &Rc<T>) -> (r: &T)
    ensures
        *r == *rc,
{
    &**rc
}

/// A shared pointer: clones hand out the same value, and the allocation is
/// reclaimed when the last clone is dropped.
pub struct SimpleRc<T> {
    ptr: Rc<T>,
}

impl<T> View for SimpleRc<T> {
    type V = T;

    /// The shared value.
    closed spec fn view(&self) -> T {
        *self.ptr
    }
}

impl<T> SimpleRc<T> {
    pub fn new(value: T) -> (r: SimpleRc<T>)
        ensures
            r@ == value,
    {
        SimpleRc { ptr: Rc::new(value) }
    }

    /// A shared borrow of the value behind the pointer.
    pub fn get(&self) -> (r: &T)
        ensures
            *r == self@,
    {
        rc_as_ref(&self.ptr)
    }
}

impl<T> Clone for SimpleRc<T> {
    /// Another handle on the same value.
    fn clone(&self) -> (r: Self)
        ensures
            r@ == self@,
    {
        SimpleRc { ptr: rc_clone(&self.ptr) }
    }
}

} // verus!
