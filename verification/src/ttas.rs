//! Test-and-test-and-set lock with exponential backoff.
//!
//! A single flag guards the value.  An acquire step first reads the flag and
//! attempts the atomic swap only when the flag was observed down; on
//! contention the caller is told to wait, and the companion `Backoff`
//! generator (started from this lock's preferred window) turns the hot retry
//! loop into a backoff-and-retry.  Mutual exclusion only: no fairness.

use vstd::prelude::*;
use crate::LockError;
use crate::backoff::Backoff;

verus! {

/// The delay window, in microseconds, that a fresh contention backoff
/// starts from.
pub const BACKOFF_MIN_MICROS: u64 = 500;

/// The cap, in microseconds, on the contention backoff window.
pub const BACKOFF_MAX_MICROS: u64 = 10000;

/// A lock made of one flag: the flag is up exactly while some caller holds
/// the lock.
pub struct TTASLock<T> {
    value: T,
    flag: bool,
}

impl<T> TTASLock<T> {
    /// Whether the lock is currently held.
    pub closed spec fn held(self) -> bool {
        self.flag
    }

    /// The protected value.
    pub closed spec fn stored(self) -> T {
        self.value
    }

    pub fn new(a: T) -> (r: TTASLock<T>)
        ensures
            !r.held(),
            r.stored() == a,
    {
        TTASLock { value: a, flag: false }
    }

    /// One test-and-test-and-set step: succeeds and takes the lock exactly
    /// when the flag was observed down.  At most one caller can see the flag
    /// down before some caller releases again, which is the whole of this
    /// lock's mutual exclusion.  On contention the caller should draw a
    /// delay from `backoff` and retry after it.
    pub fn lock(&mut self) -> (r: Result<(), LockError>)
        ensures
            final(self).stored() == old(self).stored(),
            !old(self).held() ==> final(self).held() && r == Ok::<(), LockError>(()),
            old(self).held() ==> *final(self) == *old(self) && r == Err::<(), LockError>(
                LockError::WouldBlock,
            ),
    {
        if self.flag {
            Err(LockError::WouldBlock)
        } else {
            self.flag = true;
            Ok(())
        }
    }

    /// Releases the lock by putting the flag down.
    pub fn unlock(&mut self)
        requires
            old(self).held(),
        ensures
            !final(self).held(),
            final(self).stored() == old(self).stored(),
    {
        self.flag = false;
    }

    /// A fresh backoff generator with this lock's preferred window.
    pub fn backoff(&self) -> (r: Backoff)
        ensures
            r.wf(),
            r.window() == BACKOFF_MIN_MICROS,
            r.cap() == BACKOFF_MAX_MICROS,
    {
        Backoff::new(BACKOFF_MIN_MICROS, BACKOFF_MAX_MICROS)
    }

    pub fn get(&self) -> (r: &T)
        requires
            self.held(),
        ensures
            *r == self.stored(),
    {
        &self.value
    }

    pub fn set(&mut self, v: T)
        requires
            old(self).held(),
        ensures
            final(self).held(),
            final(self).stored() == v,
    {
        self.value = v;
    }

    /// Takes the protected value out, leaving `swap` in its place; used by
    /// callers that mutate the value while they hold the lock.
    pub fn replace(&mut self, swap: T) -> (r: T)
        requires
            old(self).held(),
        ensures
            final(self).held(),
            r == old(self).stored(),
            final(self).stored() == swap,
    {
        let mut tmp = swap;
        core::mem::swap(&mut self.value, &mut tmp);
        tmp
    }
}

} // verus!
