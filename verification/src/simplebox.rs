//! An owning single-value box with a verified view of its contents.

use vstd::prelude::*;

verus! {

/// A box that owns exactly one value; the view is that value.
pub struct SimpleBox<T>(Box<T>);

impl<T> View for SimpleBox<T> {
    type V = T;

    closed spec fn view(&self) -> T {
        *self.0
    }
}

impl<T> SimpleBox<T> {
    pub fn new(a: T) -> (r: SimpleBox<T>)
        ensures
            r@ == a,
    {
        SimpleBox(Box::new(a))
    }

    /// A shared borrow of the boxed value.
    pub fn get(&self) -> (r: &T)
        ensures
            *r == self@,
    {
        &self.0
    }

    /// Overwrites the boxed value.
    pub fn set(&mut self, v: T)
        ensures
            final(self)@ == v,
    {
        *self.0 = v;
    }

    /// Takes the boxed value out.
    pub fn into_inner(self) -> (r: T)
        ensures
            r == self@,
    {
        *self.0
    }
}

} // verus!
