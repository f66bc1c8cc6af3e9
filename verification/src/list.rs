//! A singly linked list with ordered insertion and removal, the structure
//! that the coarse-grained lock wraps.

use vstd::prelude::*;
use vstd::std_specs::cmp::{PartialEqSpec, PartialOrdSpec};
use core::cmp::Ordering;

verus! {

/// What `a < b` means in contracts, for element types whose `PartialOrd`
/// obeys its specification.
pub open spec fn lt_spec<T: PartialOrd>(a: T, b: T) -> bool {
    a.partial_cmp_spec(&b) == Some(Ordering::Less)
}

/// The sequence with `a` inserted before the first element not below `a`,
/// keeping a sorted sequence sorted.
pub open spec fn insert_sorted<T: PartialOrd>(s: Seq<T>, a: T) -> Seq<T>
    decreases s.len(),
{
    if s.len() == 0 {
        seq![a]
    } else if lt_spec(s[0], a) {
        seq![s[0]] + insert_sorted(s.drop_first(), a)
    } else {
        seq![a] + s
    }
}

/// The sequence with the first element equal to `a` removed, provided no
/// element below `a` follows an element not below `a`; the scan stops, as
/// the removal does, at the first element not below `a`.
pub open spec fn remove_sorted<T: PartialOrd + PartialEq>(s: Seq<T>, a: T) -> Seq<T>
    decreases s.len(),
{
    if s.len() == 0 {
        s
    } else if lt_spec(s[0], a) {
        seq![s[0]] + remove_sorted(s.drop_first(), a)
    } else if s[0].eq_spec(&a) {
        s.drop_first()
    } else {
        s
    }
}

/// A singly linked list of boxed nodes.
pub struct List<T> {
    head: Option<Box<Node<T>>>,
}

struct Node<T>(T, List<T>);

impl<T> View for List<T> {
    type V = Seq<T>;

    /// The elements from head to tail.
    closed spec fn view(&self) -> Seq<T>
        decreases self,
    {
        match self.head {
            None => Seq::empty(),
            Some(node) => seq![node.0] + node.1@,
        }
    }
}

impl<T> List<T> {
    pub fn new() -> (r: List<T>)
        ensures
            r@ == Seq::<T>::empty(),
    {
        List { head: None }
    }

    /// Pushes `a` at the front.
    pub fn add(&mut self, a: T)
        ensures
            final(self)@ == seq![a] + old(self)@,
    {
        let head1 = self.head.take();
        self.head = Some(Box::new(Node(a, List { head: head1 })));
    }

    /// Inserts `a` before the first element that is not below `a`; on a
    /// sorted list this keeps the list sorted.
    pub fn add_ordered(&mut self, a: T) where T: PartialOrd
        ensures
            final(self)@.len() == old(self)@.len() + 1,
            T::obeys_partial_cmp_spec() ==> final(self)@ == insert_sorted(old(self)@, a),
        decreases old(self)@.len(),
    {
        match self.head.take() {
            Some(mut x) => {
                if x.0.lt(&a) {
                    proof {
                        assert(old(self)@.drop_first() =~= x.1@);
                        assert(old(self)@[0] == x.0);
                    }
                    x.1.add_ordered(a);
                    self.head = Some(x);
                } else {
                    proof {
                        assert((List { head: Some(x) }) == *old(self));
                        assert(old(self)@ == seq![x.0] + x.1@);
                        assert(old(self)@[0] == x.0);
                    }
                    let rest = List { head: Some(x) };
                    self.head = Some(Box::new(Node(a, rest)));
                }
            },
            None => {
                self.head = Some(Box::new(Node(a, List { head: None })));
                proof {
                    assert(self@ =~= seq![a]);
                }
            },
        }
    }

    /// Removes the first element equal to `a`, scanning up to the first
    /// element that is not below `a`, as on a sorted list.
    pub fn remove(&mut self, a: T) where T: PartialOrd
        ensures
            T::obeys_partial_cmp_spec() && T::obeys_eq_spec() ==> final(self)@ == remove_sorted(
                old(self)@,
                a,
            ),
        decreases old(self)@.len(),
    {
        match self.head.take() {
            Some(mut x) => {
                if x.0.lt(&a) {
                    proof {
                        assert(old(self)@.drop_first() =~= x.1@);
                        assert(old(self)@[0] == x.0);
                    }
                    x.1.remove(a);
                    self.head = Some(x);
                } else if x.0.eq(&a) {
                    proof {
                        assert(old(self)@.drop_first() =~= x.1@);
                    }
                    let Node(_, mut rest) = *x;
                    self.head = rest.head.take();
                } else {
                    proof {
                        assert((List { head: Some(x) }) == *old(self));
                    }
                    self.head = Some(x);
                }
            },
            None => {},
        }
    }

    /// Pops the head element.
    pub fn pop(&mut self) -> (r: Option<T>)
        ensures
            old(self)@.len() == 0 ==> r is None && final(self)@ == old(self)@,
            old(self)@.len() > 0 ==> (r matches Some(v) && v == old(self)@[0] && final(self)@ == old(
                self,
            )@.drop_first()),
    {
        match self.head.take() {
            Some(x) => {
                proof {
                    assert(old(self)@.drop_first() =~= x.1@);
                    assert(old(self)@[0] == x.0);
                }
                let Node(v, mut list) = *x;
                self.head = list.head.take();
                Some(v)
            },
            None => None,
        }
    }

    /// The number of elements.
    pub fn len(&self) -> (r: usize)
        requires
            self@.len() <= usize::MAX,
        ensures
            r == self@.len(),
        decreases self@.len(),
    {
        match &self.head {
            None => 0,
            Some(node) => 1 + node.1.len(),
        }
    }
}

} // verus!
