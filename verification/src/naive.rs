//! Two deliberately incorrect two-thread locks, kept as documented
//! counterexamples of violated deadlock-freedom.
//!
//! Each lock is an explicit state machine over the two legitimate thread ids
//! `0` and `1`.  A `lock` call advances the calling thread's acquire protocol
//! by one atomic action and reports `WouldBlock` while the protocol has to
//! wait; the deadlock lemmas below pin down the states from which no amount
//! of waiting can ever succeed.

use vstd::prelude::*;
use crate::LockError;

verus! {

/// Control state of one thread's acquire protocol.
#[derive(Clone, Copy, Debug, PartialEq, Eq, Structural)]
pub enum Phase {
    Idle,
    Waiting,
    Holding,
}

/// Token returned by a successful acquire of the two-thread locks.
///
/// Surrendering the guard to `unlock` is the only way to release the lock,
/// so a guard is released at most once.  Guards are only created by the
/// acquire path.
#[derive(Debug)]
pub struct LockGuard {
    pub(crate) id: usize,
}

impl LockGuard {
    /// The thread on whose behalf the guard was issued.
    pub closed spec fn tid(self) -> int {
        self.id as int
    }

    pub fn thread_id(&self) -> (r: usize)
        ensures
            r as int == self.tid(),
    {
        self.id
    }

    pub(crate) fn make(id: usize) -> (r: LockGuard)
        ensures
            r.tid() == id as int,
    {
        LockGuard { id }
    }
}

/// A two-thread lock in which each thread announces interest and then waits
/// unconditionally for the other's interest flag, with no tie-break.  It
/// provides mutual exclusion but can deadlock when both threads announce
/// before either checks.
pub struct LockOne<T> {
    value: T,
    flag0: bool,
    flag1: bool,
    phase0: Phase,
    phase1: Phase,
}

impl<T> LockOne<T> {
    /// The interest flag of thread `t`.
    pub closed spec fn flag(self, t: int) -> bool {
        if t == 0 {
            self.flag0
        } else {
            self.flag1
        }
    }

    /// The protocol state of thread `t`.
    pub closed spec fn phase(self, t: int) -> Phase {
        if t == 0 {
            self.phase0
        } else {
            self.phase1
        }
    }

    /// The protected value.
    pub closed spec fn stored(self) -> T {
        self.value
    }

    pub open spec fn holding(self, t: int) -> bool {
        0 <= t < 2 && self.phase(t) == Phase::Holding
    }

    /// Thread `t` passes its wait condition exactly when the other thread
    /// shows no interest.
    pub open spec fn can_enter(self, t: int) -> bool {
        !self.flag(1 - t)
    }

    /// A thread is past `Idle` exactly when its flag is up, and the two
    /// threads never hold the lock together.
    pub closed spec fn wf(self) -> bool {
        &&& (self.phase(0) == Phase::Idle <==> !self.flag(0))
        &&& (self.phase(1) == Phase::Idle <==> !self.flag(1))
        &&& !(self.holding(0) && self.holding(1))
    }

    pub fn new(a: T) -> (r: LockOne<T>)
        ensures
            r.wf(),
            r.phase(0) == Phase::Idle,
            r.phase(1) == Phase::Idle,
            !r.flag(0),
            !r.flag(1),
            r.stored() == a,
    {
        LockOne { value: a, flag0: false, flag1: false, phase0: Phase::Idle, phase1: Phase::Idle }
    }

    /// One atomic action of the acquire protocol of thread `me`: from `Idle`
    /// it raises the thread's flag, from `Waiting` it checks the other
    /// thread's flag and enters only if that flag is down.
    pub fn lock(&mut self, me: usize) -> (r: Result<LockGuard, LockError>)
        requires
            old(self).wf(),
        ensures
            final(self).wf(),
            me >= 2 ==> *final(self) == *old(self) && r == Err::<LockGuard, LockError>(
                LockError::Configuration,
            ),
            me < 2 ==> final(self).stored() == old(self).stored() && final(self).phase(
                1 - me as int,
            ) == old(self).phase(1 - me as int) && final(self).flag(1 - me as int) == old(
                self,
            ).flag(1 - me as int),
            me < 2 && old(self).phase(me as int) == Phase::Idle ==> final(self).phase(me as int)
                == Phase::Waiting && final(self).flag(me as int) && r == Err::<
                LockGuard,
                LockError,
            >(LockError::WouldBlock),
            me < 2 && old(self).phase(me as int) == Phase::Waiting && old(self).can_enter(me as int)
                ==> final(self).phase(me as int) == Phase::Holding && final(self).flag(me as int)
                == old(self).flag(me as int) && (r matches Ok(g) && g.tid() == me as int),
            me < 2 && old(self).phase(me as int) == Phase::Waiting && !old(self).can_enter(
                me as int,
            ) ==> *final(self) == *old(self) && r == Err::<LockGuard, LockError>(
                LockError::WouldBlock,
            ),
            me < 2 && old(self).phase(me as int) == Phase::Holding ==> *final(self) == *old(self)
                && r == Err::<LockGuard, LockError>(LockError::Configuration),
    {
        if me >= 2 {
            return Err(LockError::Configuration);
        }
        let ph = if me == 0 {
            self.phase0
        } else {
            self.phase1
        };
        match ph {
            Phase::Idle => {
                if me == 0 {
                    self.flag0 = true;
                    self.phase0 = Phase::Waiting;
                } else {
                    self.flag1 = true;
                    self.phase1 = Phase::Waiting;
                }
                Err(LockError::WouldBlock)
            },
            Phase::Waiting => {
                let other_flag = if me == 0 {
                    self.flag1
                } else {
                    self.flag0
                };
                if other_flag {
                    Err(LockError::WouldBlock)
                } else {
                    if me == 0 {
                        self.phase0 = Phase::Holding;
                    } else {
                        self.phase1 = Phase::Holding;
                    }
                    Ok(LockGuard { id: me })
                }
            },
            Phase::Holding => Err(LockError::Configuration),
        }
    }

    /// Releases the lock by surrendering the guard; the thread's flag goes
    /// down and it returns to `Idle`.
    pub fn unlock(&mut self, g: LockGuard)
        requires
            old(self).wf(),
            old(self).holding(g.tid()),
        ensures
            final(self).wf(),
            final(self).stored() == old(self).stored(),
            final(self).phase(g.tid()) == Phase::Idle,
            !final(self).flag(g.tid()),
            final(self).phase(1 - g.tid()) == old(self).phase(1 - g.tid()),
            final(self).flag(1 - g.tid()) == old(self).flag(1 - g.tid()),
    {
        if g.id == 0 {
            self.flag0 = false;
            self.phase0 = Phase::Idle;
        } else {
            self.flag1 = false;
            self.phase1 = Phase::Idle;
        }
    }

    pub fn get(&self, g: &LockGuard) -> (r: &T)
        requires
            self.holding(g.tid()),
        ensures
            *r == self.stored(),
    {
        &self.value
    }

    pub fn set(&mut self, g: &LockGuard, v: T)
        requires
            old(self).wf(),
            old(self).holding(g.tid()),
        ensures
            final(self).wf(),
            final(self).stored() == v,
            final(self).phase(0) == old(self).phase(0),
            final(self).phase(1) == old(self).phase(1),
            final(self).flag(0) == old(self).flag(0),
            final(self).flag(1) == old(self).flag(1),
    {
        self.value = v;
    }

    /// At most one thread holds the lock in any well-formed state.
    pub proof fn lemma_mutual_exclusion(self)
        requires
            self.wf(),
        ensures
            !(self.holding(0) && self.holding(1)),
    {
    }

    /// Once both threads are waiting, both flags are up and neither wait
    /// condition can ever pass again: no step of either thread changes the
    /// state, so the lock is deadlocked.
    pub proof fn lemma_deadlock(self)
        requires
            self.wf(),
            self.phase(0) == Phase::Waiting,
            self.phase(1) == Phase::Waiting,
        ensures
            !self.can_enter(0),
            !self.can_enter(1),
    {
    }
}

/// A two-thread lock whose single `turn` variable is not owned by either
/// legitimate thread id at initialization: a thread hands the turn to itself
/// and then waits for the other thread to take it back, so it deadlocks even
/// under sequential (single-thread-at-a-time) execution.
pub struct LockTwo<T> {
    value: T,
    turn: usize,
    phase0: Phase,
    phase1: Phase,
}

impl<T> LockTwo<T> {
    /// The thread id most recently written into the turn variable, or the
    /// initial out-of-range owner.
    pub closed spec fn turn(self) -> int {
        self.turn as int
    }

    pub closed spec fn phase(self, t: int) -> Phase {
        if t == 0 {
            self.phase0
        } else {
            self.phase1
        }
    }

    pub closed spec fn stored(self) -> T {
        self.value
    }

    pub open spec fn holding(self, t: int) -> bool {
        0 <= t < 2 && self.phase(t) == Phase::Holding
    }

    /// Thread `t` passes its wait condition exactly when the turn is not its
    /// own: it needs the other thread to overwrite the turn before it can
    /// proceed.
    pub open spec fn can_enter(self, t: int) -> bool {
        self.turn() != t
    }

    /// While one thread holds the lock, a waiting other thread has written
    /// the turn last, and the two threads never hold the lock together.
    pub closed spec fn wf(self) -> bool {
        &&& (self.holding(0) && self.phase(1) == Phase::Waiting ==> self.turn() == 1)
        &&& (self.holding(1) && self.phase(0) == Phase::Waiting ==> self.turn() == 0)
        &&& !(self.holding(0) && self.holding(1))
        &&& (self.phase(0) != Phase::Idle || self.phase(1) != Phase::Idle ==> self.turn() == 0
            || self.turn() == 1)
    }

    pub fn new(a: T) -> (r: LockTwo<T>)
        ensures
            r.wf(),
            r.phase(0) == Phase::Idle,
            r.phase(1) == Phase::Idle,
            r.stored() == a,
            r.turn() == 3,
    {
        LockTwo { value: a, turn: 3, phase0: Phase::Idle, phase1: Phase::Idle }
    }

    /// One atomic action of the acquire protocol of thread `me`: from `Idle`
    /// it writes the turn to itself, from `Waiting` it enters only once the
    /// turn is no longer its own.
    pub fn lock(&mut self, me: usize) -> (r: Result<(), LockError>)
        requires
            old(self).wf(),
        ensures
            final(self).wf(),
            me >= 2 ==> *final(self) == *old(self) && r == Err::<(), LockError>(
                LockError::Configuration,
            ),
            me < 2 ==> final(self).stored() == old(self).stored() && final(self).phase(
                1 - me as int,
            ) == old(self).phase(1 - me as int),
            me < 2 && old(self).phase(me as int) == Phase::Idle ==> final(self).phase(me as int)
                == Phase::Waiting && final(self).turn() == me as int && r == Err::<(), LockError>(
                LockError::WouldBlock,
            ),
            me < 2 && old(self).phase(me as int) == Phase::Waiting && old(self).can_enter(me as int)
                ==> final(self).phase(me as int) == Phase::Holding && final(self).turn() == old(
                self,
            ).turn() && r == Ok::<(), LockError>(()),
            me < 2 && old(self).phase(me as int) == Phase::Waiting && !old(self).can_enter(
                me as int,
            ) ==> *final(self) == *old(self) && r == Err::<(), LockError>(LockError::WouldBlock),
            me < 2 && old(self).phase(me as int) == Phase::Holding ==> *final(self) == *old(self)
                && r == Err::<(), LockError>(LockError::Configuration),
    {
        if me >= 2 {
            return Err(LockError::Configuration);
        }
        let ph = if me == 0 {
            self.phase0
        } else {
            self.phase1
        };
        match ph {
            Phase::Idle => {
                self.turn = me;
                if me == 0 {
                    self.phase0 = Phase::Waiting;
                } else {
                    self.phase1 = Phase::Waiting;
                }
                Err(LockError::WouldBlock)
            },
            Phase::Waiting => {
                if self.turn == me {
                    Err(LockError::WouldBlock)
                } else {
                    if me == 0 {
                        self.phase0 = Phase::Holding;
                    } else {
                        self.phase1 = Phase::Holding;
                    }
                    Ok(())
                }
            },
            Phase::Holding => Err(LockError::Configuration),
        }
    }

    /// Releases the lock; the turn variable keeps its value, since this
    /// construction has no release protocol at all.
    pub fn unlock(&mut self, me: usize)
        requires
            old(self).wf(),
            old(self).holding(me as int),
        ensures
            final(self).wf(),
            final(self).stored() == old(self).stored(),
            final(self).phase(me as int) == Phase::Idle,
            final(self).phase(1 - me as int) == old(self).phase(1 - me as int),
            final(self).turn() == old(self).turn(),
    {
        if me == 0 {
            self.phase0 = Phase::Idle;
        } else {
            self.phase1 = Phase::Idle;
        }
    }

    pub fn get(&self, me: usize) -> (r: &T)
        requires
            self.holding(me as int),
        ensures
            *r == self.stored(),
    {
        &self.value
    }

    pub fn set(&mut self, me: usize, v: T)
        requires
            old(self).wf(),
            old(self).holding(me as int),
        ensures
            final(self).wf(),
            final(self).stored() == v,
            final(self).phase(0) == old(self).phase(0),
            final(self).phase(1) == old(self).phase(1),
            final(self).turn() == old(self).turn(),
    {
        self.value = v;
    }

    /// Mutual exclusion: at most one thread holds the lock in any
    /// well-formed state.
    pub proof fn lemma_mutual_exclusion(self)
        requires
            self.wf(),
        ensures
            !(self.holding(0) && self.holding(1)),
    {
    }

    /// A thread that has just handed the turn to itself can never pass its
    /// wait condition on its own: only the other thread's announcement
    /// changes the turn, so a thread running alone deadlocks.
    pub proof fn lemma_sequential_deadlock(self, me: int)
        requires
            self.wf(),
            0 <= me < 2,
            self.phase(me) == Phase::Waiting,
            self.turn() == me,
        ensures
            !self.can_enter(me),
    {
    }
}

} // verus!
