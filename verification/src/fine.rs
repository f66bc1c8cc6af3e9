//! A fine-grained ("hand-over-hand") sorted linked list: every node carries
//! its own lock instance, and a traversal acquires the lock of each list
//! segment it crosses.

use vstd::prelude::*;
use vstd::std_specs::cmp::PartialOrdSpec;
use crate::list::insert_sorted;
use crate::ttas::TTASLock;

verus! {

/// A linked list whose every tail segment is guarded by its own
/// test-and-test-and-set lock.
pub struct FGList<T> {
    lock: TTASLock<()>,
    head: Option<Box<FGNode<T>>>,
}

struct FGNode<T>(T, FGList<T>);

impl<T> View for FGList<T> {
    type V = Seq<T>;

    /// The elements from head to tail.
    closed spec fn view(&self) -> Seq<T>
        decreases self,
    {
        match self.head {
            None => Seq::empty(),
            Some(node) => seq![node.0] + node.1@,
        }
    }
}

impl<T> FGList<T> {
    /// Between operations every segment's lock is free.
    pub closed spec fn wf(self) -> bool
        decreases self,
    {
        &&& !self.lock.held()
        &&& match self.head {
            None => true,
            Some(node) => node.1.wf(),
        }
    }

    pub fn new() -> (r: FGList<T>)
        ensures
            r.wf(),
            r@ == Seq::<T>::empty(),
    {
        FGList { lock: TTASLock::new(()), head: None }
    }

    /// Pushes `a` at the front, under the head segment's lock; the old head
    /// moves into a fresh segment of its own.
    pub fn add(&mut self, a: T)
        requires
            old(self).wf(),
        ensures
            final(self).wf(),
            final(self)@ == seq![a] + old(self)@,
    {
        let _ = self.lock.lock();
        let oldhead = self.head.take();
        let rest = FGList { lock: TTASLock::new(()), head: oldhead };
        proof {
            assert(rest@ =~= old(self)@);
            assert(rest.wf());
        }
        self.head = Some(Box::new(FGNode(a, rest)));
        self.lock.unlock();
    }

    /// Inserts `a` in order, locking each segment on the way down.
    pub fn add_ordered(&mut self, a: T) where T: PartialOrd
        requires
            old(self).wf(),
        ensures
            final(self).wf(),
            final(self)@.len() == old(self)@.len() + 1,
            T::obeys_partial_cmp_spec() ==> final(self)@ == insert_sorted(old(self)@, a),
        decreases old(self)@.len(),
    {
        let _ = self.lock.lock();
        match self.head.take() {
            Some(mut node) => {
                if node.0.lt(&a) {
                    proof {
                        assert(old(self)@.drop_first() =~= node.1@);
                        assert(old(self)@[0] == node.0);
                    }
                    node.1.add_ordered(a);
                    self.head = Some(node);
                    self.lock.unlock();
                } else {
                    proof {
                        assert(old(self)@ == seq![node.0] + node.1@);
                        assert(old(self)@[0] == node.0);
                    }
                    let rest = FGList { lock: TTASLock::new(()), head: Some(node) };
                    proof {
                        assert(rest@ =~= old(self)@);
                        assert(rest.wf());
                    }
                    self.head = Some(Box::new(FGNode(a, rest)));
                    self.lock.unlock();
                }
            },
            None => {
                let inner = FGList { lock: TTASLock::new(()), head: None };
                proof {
                    assert(inner@ =~= Seq::<T>::empty());
                    assert(inner.wf());
                }
                self.head = Some(Box::new(FGNode(a, inner)));
                proof {
                    assert(self@ =~= seq![a]);
                }
                self.lock.unlock();
            },
        }
    }
}

} // verus!
