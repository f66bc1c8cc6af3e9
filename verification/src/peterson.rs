//! Peterson's two-thread mutual-exclusion lock.
//!
//! The lock is an explicit state machine over thread ids `0` and `1`; each
//! `lock` call performs one atomic action of the acquire protocol — raise the
//! interest flag, volunteer as victim, or check the wait condition — so every
//! interleaving of the two threads' actions is covered by the transition
//! contracts.  Mutual exclusion and the victim tie-break are proved as
//! invariants of the machine.

use vstd::prelude::*;
use crate::LockError;
use crate::naive::LockGuard;

verus! {

/// Control state of one thread's acquire protocol.
#[derive(Clone, Copy, Debug, PartialEq, Eq, Structural)]
pub enum Phase {
    Idle,
    /// The interest flag is up; the victim write is still to come.
    Announced,
    /// Interest and victim are written; the thread is in the wait loop.
    Waiting,
    Holding,
}

/// Peterson's lock for exactly two threads: two interest flags and one
/// victim variable.  Starvation-free: the victim tie-break lets the thread
/// that volunteered first go last.  Ids other than `0` and `1` are rejected
/// with a configuration error.
pub struct Peterson<T> {
    value: T,
    interested0: bool,
    interested1: bool,
    victim: usize,
    phase0: Phase,
    phase1: Phase,
}

impl<T> Peterson<T> {
    /// The interest flag of thread `t`.
    pub closed spec fn interested(self, t: int) -> bool {
        if t == 0 {
            self.interested0
        } else {
            self.interested1
        }
    }

    /// The protocol state of thread `t`.
    pub closed spec fn phase(self, t: int) -> Phase {
        if t == 0 {
            self.phase0
        } else {
            self.phase1
        }
    }

    /// The thread that most recently volunteered to wait, or the initial
    /// out-of-range value before any acquire.
    pub closed spec fn victim(self) -> int {
        self.victim as int
    }

    /// The protected value.
    pub closed spec fn stored(self) -> T {
        self.value
    }

    pub open spec fn holding(self, t: int) -> bool {
        0 <= t < 2 && self.phase(t) == Phase::Holding
    }

    pub open spec fn past_victim_write(self, t: int) -> bool {
        self.phase(t) == Phase::Waiting || self.phase(t) == Phase::Holding
    }

    /// Thread `t` passes its wait condition exactly when the other thread
    /// shows no interest or the other thread is the victim.
    pub open spec fn can_enter(self, t: int) -> bool {
        !(self.interested(1 - t) && self.victim() == t)
    }

    /// The machine invariant: a thread is past `Idle` exactly when its flag
    /// is up; whenever any thread is past its victim write the victim is a
    /// real thread id; and while a thread holds the lock, the other thread,
    /// if it is past its victim write, is the victim.
    pub closed spec fn wf(self) -> bool {
        &&& (self.phase(0) == Phase::Idle <==> !self.interested(0))
        &&& (self.phase(1) == Phase::Idle <==> !self.interested(1))
        &&& (self.past_victim_write(0) || self.past_victim_write(1) ==> self.victim() == 0
            || self.victim() == 1)
        &&& (self.holding(0) && self.past_victim_write(1) ==> self.victim() == 1)
        &&& (self.holding(1) && self.past_victim_write(0) ==> self.victim() == 0)
    }

    pub fn new(a: T) -> (r: Peterson<T>)
        ensures
            r.wf(),
            r.phase(0) == Phase::Idle,
            r.phase(1) == Phase::Idle,
            !r.interested(0),
            !r.interested(1),
            r.stored() == a,
    {
        Peterson {
            value: a,
            interested0: false,
            interested1: false,
            victim: 3,
            phase0: Phase::Idle,
            phase1: Phase::Idle,
        }
    }

    /// One atomic action of the acquire protocol of thread `me`: raise the
    /// interest flag, then volunteer as victim, then check the wait
    /// condition and enter once the other thread is uninterested or is the
    /// victim.
    pub fn lock(&mut self, me: usize) -> (r: Result<LockGuard, LockError>)
        requires
            old(self).wf(),
        ensures
            final(self).wf(),
            me >= 2 ==> *final(self) == *old(self) && r == Err::<LockGuard, LockError>(
                LockError::Configuration,
            ),
            me < 2 ==> final(self).stored() == old(self).stored() && final(self).phase(
                1 - me as int,
            ) == old(self).phase(1 - me as int) && final(self).interested(1 - me as int) == old(
                self,
            ).interested(1 - me as int),
            me < 2 && old(self).phase(me as int) == Phase::Idle ==> final(self).phase(me as int)
                == Phase::Announced && final(self).interested(me as int) && final(self).victim()
                == old(self).victim() && r == Err::<LockGuard, LockError>(LockError::WouldBlock),
            me < 2 && old(self).phase(me as int) == Phase::Announced ==> final(self).phase(
                me as int,
            ) == Phase::Waiting && final(self).interested(me as int) == old(self).interested(
                me as int,
            ) && final(self).victim() == me as int && r == Err::<LockGuard, LockError>(
                LockError::WouldBlock,
            ),
            me < 2 && old(self).phase(me as int) == Phase::Waiting && old(self).can_enter(me as int)
                ==> final(self).phase(me as int) == Phase::Holding && final(self).interested(
                me as int,
            ) == old(self).interested(me as int) && final(self).victim() == old(self).victim()
                && (r matches Ok(g) && g.tid() == me as int),
            me < 2 && old(self).phase(me as int) == Phase::Waiting && !old(self).can_enter(
                me as int,
            ) ==> *final(self) == *old(self) && r == Err::<LockGuard, LockError>(
                LockError::WouldBlock,
            ),
            me < 2 && old(self).phase(me as int) == Phase::Holding ==> *final(self) == *old(self)
                && r == Err::<LockGuard, LockError>(LockError::Configuration),
    {
        if me >= 2 {
            return Err(LockError::Configuration);
        }
        let ph = if me == 0 {
            self.phase0
        } else {
            self.phase1
        };
        match ph {
            Phase::Idle => {
                if me == 0 {
                    self.interested0 = true;
                    self.phase0 = Phase::Announced;
                } else {
                    self.interested1 = true;
                    self.phase1 = Phase::Announced;
                }
                Err(LockError::WouldBlock)
            },
            Phase::Announced => {
                self.victim = me;
                if me == 0 {
                    self.phase0 = Phase::Waiting;
                } else {
                    self.phase1 = Phase::Waiting;
                }
                Err(LockError::WouldBlock)
            },
            Phase::Waiting => {
                let other_interested = if me == 0 {
                    self.interested1
                } else {
                    self.interested0
                };
                if other_interested && self.victim == me {
                    Err(LockError::WouldBlock)
                } else {
                    if me == 0 {
                        self.phase0 = Phase::Holding;
                    } else {
                        self.phase1 = Phase::Holding;
                    }
                    Ok(LockGuard::make(me))
                }
            },
            Phase::Holding => Err(LockError::Configuration),
        }
    }

    /// Releases the lock by surrendering the guard; the thread's interest
    /// flag goes down and it returns to `Idle`.
    pub fn unlock(&mut self, g: LockGuard)
        requires
            old(self).wf(),
            old(self).holding(g.tid()),
        ensures
            final(self).wf(),
            final(self).stored() == old(self).stored(),
            final(self).phase(g.tid()) == Phase::Idle,
            !final(self).interested(g.tid()),
            final(self).phase(1 - g.tid()) == old(self).phase(1 - g.tid()),
            final(self).interested(1 - g.tid()) == old(self).interested(1 - g.tid()),
            final(self).victim() == old(self).victim(),
    {
        let t = g.thread_id();
        if t == 0 {
            self.interested0 = false;
            self.phase0 = Phase::Idle;
        } else {
            self.interested1 = false;
            self.phase1 = Phase::Idle;
        }
    }

    pub fn get(&self, g: &LockGuard) -> (r: &T)
        requires
            self.holding(g.tid()),
        ensures
            *r == self.stored(),
    {
        &self.value
    }

    pub fn set(&mut self, g: &LockGuard, v: T)
        requires
            old(self).wf(),
            old(self).holding(g.tid()),
        ensures
            final(self).wf(),
            final(self).stored() == v,
            final(self).phase(0) == old(self).phase(0),
            final(self).phase(1) == old(self).phase(1),
            final(self).interested(0) == old(self).interested(0),
            final(self).interested(1) == old(self).interested(1),
            final(self).victim() == old(self).victim(),
    {
        self.value = v;
    }

    /// Mutual exclusion: at most one thread holds the lock in any
    /// well-formed state.
    pub proof fn lemma_mutual_exclusion(self)
        requires
            self.wf(),
        ensures
            !(self.holding(0) && self.holding(1)),
    {
    }

    /// Deadlock-freedom: when both threads are in their wait loops, at least
    /// one of them passes its wait condition.
    pub proof fn lemma_deadlock_free(self)
        requires
            self.wf(),
            self.phase(0) == Phase::Waiting,
            self.phase(1) == Phase::Waiting,
        ensures
            self.can_enter(0) || self.can_enter(1),
    {
    }

    /// The victim tie-break behind starvation-freedom: a waiting thread
    /// whose rival is the victim passes its wait condition at once, so a
    /// thread is overtaken at most once before it enters.
    pub proof fn lemma_victim_yields(self, t: int)
        requires
            self.wf(),
            0 <= t < 2,
            self.phase(t) == Phase::Waiting,
            self.victim() == 1 - t,
        ensures
            self.can_enter(t),
    {
    }
}

} // verus!
