//! A coarse-grained sorted linked list: the whole list sits behind one lock
//! instance, and every operation acquires it, works on the list, and
//! releases it.

use vstd::prelude::*;
use vstd::std_specs::cmp::{PartialEqSpec, PartialOrdSpec};
use crate::list::{insert_sorted, remove_sorted, List};
use crate::ttas::TTASLock;

verus! {

/// A linked list wrapped whole in a single test-and-test-and-set lock.
pub struct CoarseList<T> {
    head: TTASLock<List<T>>,
}

impl<T> View for CoarseList<T> {
    type V = Seq<T>;

    /// The elements of the protected list.
    closed spec fn view(&self) -> Seq<T> {
        self.head.stored()@
    }
}

impl<T> CoarseList<T> {
    /// Between operations the lock is free.
    pub closed spec fn wf(self) -> bool {
        !self.head.held()
    }

    pub fn new() -> (r: CoarseList<T>)
        ensures
            r.wf(),
            r@ == Seq::<T>::empty(),
    {
        CoarseList { head: TTASLock::new(List::new()) }
    }

    /// Pushes `a` at the front, under the lock.
    pub fn add(&mut self, a: T)
        requires
            old(self).wf(),
        ensures
            final(self).wf(),
            final(self)@ == seq![a] + old(self)@,
    {
        let _ = self.head.lock();
        let mut l = self.head.replace(List::new());
        l.add(a);
        self.head.set(l);
        self.head.unlock();
    }

    /// Inserts `a` in order, under the lock.
    pub fn add_ordered(&mut self, a: T) where T: PartialOrd
        requires
            old(self).wf(),
        ensures
            final(self).wf(),
            final(self)@.len() == old(self)@.len() + 1,
            T::obeys_partial_cmp_spec() ==> final(self)@ == insert_sorted(old(self)@, a),
    {
        let _ = self.head.lock();
        let mut l = self.head.replace(List::new());
        l.add_ordered(a);
        self.head.set(l);
        self.head.unlock();
    }

    /// Removes the first element equal to `a`, under the lock.
    pub fn remove(&mut self, a: T) where T: PartialOrd
        requires
            old(self).wf(),
        ensures
            final(self).wf(),
            T::obeys_partial_cmp_spec() && T::obeys_eq_spec() ==> final(self)@ == remove_sorted(
                old(self)@,
                a,
            ),
    {
        let _ = self.head.lock();
        let mut l = self.head.replace(List::new());
        l.remove(a);
        self.head.set(l);
        self.head.unlock();
    }

    /// Pops the front element, under the lock.
    pub fn pop(&mut self) -> (r: Option<T>)
        requires
            old(self).wf(),
        ensures
            final(self).wf(),
            old(self)@.len() == 0 ==> r is None && final(self)@ == old(self)@,
            old(self)@.len() > 0 ==> (r matches Some(v) && v == old(self)@[0] && final(self)@ == old(
                self,
            )@.drop_first()),
    {
        let _ = self.head.lock();
        let mut l = self.head.replace(List::new());
        let r = l.pop();
        self.head.set(l);
        self.head.unlock();
        r
    }

    /// The number of elements, read under the lock.
    pub fn len(&mut self) -> (r: usize)
        requires
            old(self).wf(),
            old(self)@.len() <= usize::MAX,
        ensures
            final(self).wf(),
            final(self)@ == old(self)@,
            r == old(self)@.len(),
    {
        let _ = self.head.lock();
        let l = self.head.replace(List::new());
        let r = l.len();
        self.head.set(l);
        self.head.unlock();
        r
    }
}

} // verus!
