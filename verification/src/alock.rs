//! Array-based queue lock: a ticket counter over a fixed circular array of
//! per-slot flags.
//!
//! An acquire draws the next ticket and takes the slot `ticket mod capacity`;
//! the caller then waits until that slot's flag is up.  Strict FIFO and
//! starvation-free while at most `capacity` callers are outstanding at once;
//! admitting one more would alias two waiters onto the same slot, so that
//! acquire is refused with a capacity error instead.

use vstd::prelude::*;
use vstd::arithmetic::div_mod::{
    lemma_mod_equivalence,
    lemma_mod_self_0,
    lemma_small_mod,
    lemma_add_mod_noop_right,
};
use crate::LockError;

verus! {

/// The ticket drawn by one acquire.  The guard is issued as soon as the
/// ticket is drawn; the lock grants the critical section to the guard whose
/// ticket is currently being served, and `ready` reports when that happens.
/// Guards are only created by the acquire path and are surrendered to
/// `unlock`, so each is released at most once.
#[derive(Debug)]
pub struct ALockGuard {
    ticket: u64,
    position: usize,
}

impl ALockGuard {
    /// The ticket number, in draw order.
    pub closed spec fn ticket(self) -> int {
        self.ticket as int
    }

    /// The slot of the circular flag array this ticket waits on.
    pub closed spec fn position(self) -> int {
        self.position as int
    }
}

/// The array lock: an atomic ticket counter, the count of the ticket being
/// served, and one flag per slot of the circular array.
pub struct ALock<T> {
    value: T,
    cap: usize,
    flags: Vec<bool>,
    next: u64,
    serving: u64,
}

impl<T> ALock<T> {
    /// The configured capacity: the largest number of concurrently
    /// outstanding callers the slot array can tell apart.
    pub closed spec fn capacity(self) -> int {
        self.cap as int
    }

    /// The number of tickets drawn so far; the next ticket to be issued.
    pub closed spec fn issued(self) -> int {
        self.next as int
    }

    /// The ticket currently being served: the smallest drawn ticket whose
    /// guard has not been released yet.
    pub closed spec fn serving(self) -> int {
        self.serving as int
    }

    /// The flag of slot `i`.
    pub closed spec fn flag(self, i: int) -> bool {
        self.flags@[i]
    }

    /// The protected value.
    pub closed spec fn stored(self) -> T {
        self.value
    }

    /// A guard whose ticket was drawn and not yet released, with its slot.
    pub open spec fn outstanding(self, g: ALockGuard) -> bool {
        &&& self.serving() <= g.ticket() < self.issued()
        &&& g.position() == g.ticket() % self.capacity()
    }

    /// The guard whose ticket is being served holds the critical section.
    pub open spec fn granted(self, g: ALockGuard) -> bool {
        g.ticket() == self.serving()
    }

    /// The machine invariant: the slot array has one flag per slot, at most
    /// `capacity` tickets are outstanding, and exactly the served ticket's
    /// slot has its flag up.
    pub closed spec fn wf(self) -> bool {
        &&& self.capacity() >= 1
        &&& self.flags@.len() == self.capacity()
        &&& self.serving() <= self.issued()
        &&& self.issued() - self.serving() <= self.capacity()
        &&& forall|i: int|
            0 <= i < self.capacity() ==> (#[trigger] self.flags@[i] <==> i == self.serving()
                % self.capacity())
    }

    /// Builds a lock with `size` slots; a capacity of zero cannot
    /// distinguish any waiters and is a configuration error.
    pub fn new(a: T, size: usize) -> (r: Result<ALock<T>, LockError>)
        ensures
            size == 0 ==> r == Err::<ALock<T>, LockError>(LockError::Configuration),
            size >= 1 ==> (r matches Ok(l) && l.wf() && l.capacity() == size && l.stored() == a
                && l.issued() == 0 && l.serving() == 0),
    {
        if size == 0 {
            return Err(LockError::Configuration);
        }
        let mut flags: Vec<bool> = Vec::new();
        flags.push(true);
        let mut i: usize = 1;
        while i < size
            invariant
                1 <= i <= size,
                flags@.len() == i,
                flags@[0] == true,
                forall|t: int| 1 <= t < i ==> flags@[t] == false,
            decreases size - i,
        {
            flags.push(false);
            i += 1;
        }
        let l = ALock { value: a, cap: size, flags, next: 0, serving: 0 };
        proof {
            lemma_small_mod(0, l.cap as nat);
        }
        Ok(l)
    }

    /// Draws the next ticket and returns its guard.  Admitting the guard
    /// while `capacity` tickets are already outstanding would alias two
    /// waiters onto one slot, so that draw reports `CapacityExceeded`
    /// instead; so does the unreachable exhaustion of the ticket counter.
    pub fn lock(&mut self) -> (r: Result<ALockGuard, LockError>)
        requires
            old(self).wf(),
        ensures
            final(self).wf(),
            final(self).stored() == old(self).stored(),
            final(self).capacity() == old(self).capacity(),
            final(self).serving() == old(self).serving(),
            old(self).issued() - old(self).serving() == old(self).capacity() || old(self).issued()
                == u64::MAX ==> *final(self) == *old(self) && r == Err::<ALockGuard, LockError>(
                LockError::CapacityExceeded,
            ),
            old(self).issued() - old(self).serving() < old(self).capacity() && old(self).issued()
                < u64::MAX ==> final(self).issued() == old(self).issued() + 1 && (r matches Ok(g)
                && g.ticket() == old(self).issued() && g.position() == g.ticket() % old(
                self,
            ).capacity() && final(self).outstanding(g)),
    {
        if self.next == u64::MAX {
            return Err(LockError::CapacityExceeded);
        }
        if self.next - self.serving >= self.cap as u64 {
            return Err(LockError::CapacityExceeded);
        }
        let ticket = self.next;
        let position = (ticket % (self.cap as u64)) as usize;
        self.next = self.next + 1;
        Ok(ALockGuard { ticket, position })
    }

    /// The spin read of the slot flag: reports whether the guard's ticket
    /// is now the one being served.
    pub fn ready(&self, g: &ALockGuard) -> (r: bool)
        requires
            self.wf(),
            self.outstanding(*g),
        ensures
            r == self.granted(*g),
    {
        proof {
            lemma_mod_equivalence(g.ticket as int, self.serving as int, self.cap as int);
            lemma_small_mod((g.ticket - self.serving) as nat, self.cap as nat);
        }
        self.flags[g.position]
    }

    /// Releases the critical section: the served slot's flag goes down, the
    /// next slot's flag goes up, and the next ticket is served.
    pub fn unlock(&mut self, g: ALockGuard)
        requires
            old(self).wf(),
            old(self).outstanding(g),
            old(self).granted(g),
        ensures
            final(self).wf(),
            final(self).stored() == old(self).stored(),
            final(self).capacity() == old(self).capacity(),
            final(self).issued() == old(self).issued(),
            final(self).serving() == old(self).serving() + 1,
    {
        proof {
            lemma_mod_equivalence(g.ticket as int, self.serving as int, self.cap as int);
            lemma_small_mod((g.ticket - self.serving) as nat, self.cap as nat);
        }
        let next_position = if g.position + 1 == self.cap {
            0
        } else {
            g.position + 1
        };
        self.flags.set(g.position, false);
        self.flags.set(next_position, true);
        self.serving = self.serving + 1;
        proof {
            lemma_add_mod_noop_right(1, self.serving as int - 1, self.cap as int);
            lemma_small_mod(0, self.cap as nat);
            if g.position + 1 == self.cap {
                assert((g.position() + 1) % self.capacity() == 0) by {
                    lemma_mod_self_0(self.capacity());
                };
            } else {
                lemma_small_mod((g.position + 1) as nat, self.cap as nat);
            }
            assert((1 + g.ticket()) % self.capacity() == (1 + g.position()) % self.capacity()) by {
                lemma_add_mod_noop_right(1, g.ticket(), self.capacity());
                lemma_add_mod_noop_right(1, g.position(), self.capacity());
                lemma_small_mod(g.position as nat, self.cap as nat);
            };
        }
    }

    pub fn get(&self, g: &ALockGuard) -> (r: &T)
        requires
            self.wf(),
            self.outstanding(*g),
            self.granted(*g),
        ensures
            *r == self.stored(),
    {
        &self.value
    }

    pub fn set(&mut self, g: &ALockGuard, v: T)
        requires
            old(self).wf(),
            old(self).outstanding(*g),
            old(self).granted(*g),
        ensures
            final(self).wf(),
            final(self).stored() == v,
            final(self).capacity() == old(self).capacity(),
            final(self).issued() == old(self).issued(),
            final(self).serving() == old(self).serving(),
    {
        self.value = v;
    }

    /// Mutual exclusion: two guards that are both granted carry the same
    /// ticket, and each ticket is drawn at most once.
    pub proof fn lemma_mutual_exclusion(self, g1: ALockGuard, g2: ALockGuard)
        requires
            self.wf(),
            self.granted(g1),
            self.granted(g2),
        ensures
            g1.ticket() == g2.ticket(),
    {
    }

    /// Strict FIFO: the granted guard's ticket precedes the ticket of every
    /// other outstanding guard, so grants happen in draw order.
    pub proof fn lemma_fifo(self, g: ALockGuard, h: ALockGuard)
        requires
            self.wf(),
            self.granted(g),
            self.outstanding(h),
            h.ticket() != g.ticket(),
        ensures
            g.ticket() < h.ticket(),
    {
    }

    /// No aliasing at the capacity boundary: any two distinct outstanding
    /// tickets occupy distinct slots of the circular array.
    pub proof fn lemma_no_aliasing(self, g: ALockGuard, h: ALockGuard)
        requires
            self.wf(),
            self.outstanding(g),
            self.outstanding(h),
            g.ticket() != h.ticket(),
        ensures
            g.position() != h.position(),
    {
        if g.position() == h.position() {
            lemma_mod_equivalence(g.ticket(), h.ticket(), self.capacity());
            if g.ticket() > h.ticket() {
                lemma_small_mod((g.ticket() - h.ticket()) as nat, self.capacity() as nat);
            } else {
                lemma_mod_equivalence(h.ticket(), g.ticket(), self.capacity());
                lemma_small_mod((h.ticket() - g.ticket()) as nat, self.capacity() as nat);
            }
        }
    }
}

} // verus!
