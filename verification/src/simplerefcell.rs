//! A borrow-counted cell: run-time tracking of shared and mutable borrows
//! over one value, with the borrows represented as explicit tokens.
//!
//! The counting discipline: a mutable borrow is handed
//! out only while the count is zero and bumps the count by one when it ends;
//! a shared borrow is handed out only while the count is positive and drops
//! the count by one when it ends.  A borrow that the count forbids is a
//! caller error, excluded by the preconditions.

use vstd::prelude::*;

verus! {

/// The borrow-counted cell.
pub struct SimpleRefCell<T> {
    borrow: i64,
    value: T,
}

/// Token for an outstanding mutable borrow; surrendered to `release_mut`.
pub struct BorrowRef {
    hidden: (),
}

/// Token for an outstanding shared borrow; surrendered to `release`.
pub struct Ref {
    hidden: (),
}

impl<T> SimpleRefCell<T> {
    /// The borrow count.
    pub closed spec fn borrows(self) -> int {
        self.borrow as int
    }

    /// The stored value.
    pub closed spec fn stored(self) -> T {
        self.value
    }

    /// The count never goes below zero.
    pub closed spec fn wf(self) -> bool {
        self.borrow >= 0
    }

    pub fn new(value: T) -> (r: SimpleRefCell<T>)
        ensures
            r.wf(),
            r.borrows() == 0,
            r.stored() == value,
    {
        SimpleRefCell { borrow: 0, value }
    }

    /// Starts a mutable borrow; only legal while the count is zero.
    pub fn borrow_mut(&mut self) -> (r: BorrowRef)
        requires
            old(self).wf(),
            old(self).borrows() == 0,
        ensures
            *final(self) == *old(self),
    {
        BorrowRef { hidden: () }
    }

    /// Ends a mutable borrow: the count goes up by one.
    pub fn release_mut(&mut self, b: BorrowRef)
        requires
            old(self).wf(),
            old(self).borrows() < i64::MAX,
        ensures
            final(self).wf(),
            final(self).borrows() == old(self).borrows() + 1,
            final(self).stored() == old(self).stored(),
    {
        let _ = b;
        self.borrow = self.borrow + 1;
    }

    /// Starts a shared borrow; only legal while the count is positive.
    pub fn borrow(&self) -> (r: Ref)
        requires
            self.wf(),
            self.borrows() >= 1,
    {
        Ref { hidden: () }
    }

    /// Ends a shared borrow: the count goes down by one.
    pub fn release(&mut self, r: Ref)
        requires
            old(self).wf(),
            old(self).borrows() >= 1,
        ensures
            final(self).wf(),
            final(self).borrows() == old(self).borrows() - 1,
            final(self).stored() == old(self).stored(),
    {
        let _ = r;
        self.borrow = self.borrow - 1;
    }

    /// Reads the value through an outstanding borrow.
    pub fn get(&self, r: &Ref) -> (v: &T)
        ensures
            *v == self.stored(),
    {
        let _ = r;
        &self.value
    }

    /// Reads the value through an outstanding mutable borrow.
    pub fn get_mut_borrowed(&self, b: &BorrowRef) -> (v: &T)
        ensures
            *v == self.stored(),
    {
        let _ = b;
        &self.value
    }

    /// Writes the value through an outstanding mutable borrow.
    pub fn set(&mut self, b: &BorrowRef, v: T)
        ensures
            final(self).stored() == v,
            final(self).borrows() == old(self).borrows(),
            old(self).wf() ==> final(self).wf(),
    {
        let _ = b;
        self.value = v;
    }
}

} // verus!
