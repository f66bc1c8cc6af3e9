//! Lamport's bakery lock for `n` threads.
//!
//! Each thread raises a flag, takes a label one past the largest label it
//! can see, and then waits until no flagged thread precedes it in the
//! lexicographic `(label, thread id)` order; a flagged thread that has not
//! finished taking its label counts as preceding everyone.  The machine
//! performs one atomic action of this protocol per `lock` call, so the
//! mutual-exclusion and first-come-first-served lemmas below cover every
//! interleaving of the threads' actions.

use vstd::prelude::*;
use crate::LockError;

verus! {

/// The strict lexicographic order on `(label, thread id)` pairs.  Distinct
/// threads always compare strictly one way, since their ids differ.
pub open spec fn lex_less(l1: int, t1: int, l2: int, t2: int) -> bool {
    l1 < l2 || (l1 == l2 && t1 < t2)
}

/// Control state of one thread's acquire protocol.
#[derive(Clone, Copy, Debug, PartialEq, Eq, Structural)]
pub enum Phase {
    Idle,
    /// The flag is up; the labels are still to be read.
    Joining,
    /// The labels were read and their maximum was `0`'s payload; the label
    /// write is still to come.
    Labeling(u64),
    /// The label is written; the thread is in the wait loop.
    Waiting,
    Holding,
}

/// The bakery lock: per-thread flags and labels, plus the protected value.
/// Starvation-free: threads enter in `(label, id)` order, ties broken by the
/// smaller thread id.  Labels grow without bound across the lock's
/// lifetime; the unreachable overflow of a label is reported as a capacity
/// error rather than wrapped around.
pub struct Bakery<T> {
    value: T,
    n: usize,
    flags: Vec<bool>,
    labels: Vec<u64>,
    phases: Vec<Phase>,
}

impl<T> Bakery<T> {
    /// The number of participating threads, fixed at construction.
    pub closed spec fn threads(self) -> int {
        self.n as int
    }

    /// The flag of thread `t`.
    pub closed spec fn flag(self, t: int) -> bool {
        self.flags@[t]
    }

    /// The label of thread `t`; `0` means no label taken.
    pub closed spec fn label(self, t: int) -> int {
        self.labels@[t] as int
    }

    /// The protocol state of thread `t`.
    pub closed spec fn phase(self, t: int) -> Phase {
        self.phases@[t]
    }

    /// The protected value.
    pub closed spec fn stored(self) -> T {
        self.value
    }

    pub open spec fn holding(self, t: int) -> bool {
        0 <= t < self.threads() && self.phase(t) == Phase::Holding
    }

    /// Thread `t` passes its wait condition exactly when no other flagged
    /// thread precedes it in `(label, id)` order; a flagged thread whose
    /// label is not yet written has label `0` and so precedes everyone.
    pub open spec fn can_enter(self, t: int) -> bool {
        forall|u: int|
            0 <= u < self.threads() && u != t && #[trigger] self.flag(u) ==> !lex_less(
                self.label(u),
                u,
                self.label(t),
                t,
            )
    }

    /// The machine invariant.  A thread is past `Idle` exactly when its
    /// flag is up; a thread has a label exactly when it is past its label
    /// write; and a holder precedes every flagged rival: rivals that are
    /// labelled come later in `(label, id)` order, and rivals that are
    /// still reading saw at least the holder's label.
    pub closed spec fn wf(self) -> bool {
        &&& self.flags@.len() == self.threads()
        &&& self.labels@.len() == self.threads()
        &&& self.phases@.len() == self.threads()
        &&& forall|t: int|
            0 <= t < self.threads() ==> (#[trigger] self.phase(t) == Phase::Idle <==> !self.flag(
                t,
            ))
        &&& forall|t: int|
            0 <= t < self.threads() ==> ((#[trigger] self.phase(t) == Phase::Waiting || self.phase(
                t,
            ) == Phase::Holding) <==> self.label(t) >= 1)
        &&& forall|h: int, t: int|
            #![trigger self.phase(h), self.phase(t)]
            self.holding(h) && 0 <= t < self.threads() && t != h && self.flag(t) ==> ((self.phase(
                t,
            ) matches Phase::Labeling(m) ==> m >= self.label(h)) && ((self.phase(t)
                == Phase::Waiting || self.phase(t) == Phase::Holding) ==> lex_less(
                self.label(h),
                h,
                self.label(t),
                t,
            )))
    }

    pub fn new(a: T, n: usize) -> (r: Bakery<T>)
        ensures
            r.wf(),
            r.threads() == n,
            r.stored() == a,
            forall|t: int| 0 <= t < n ==> r.phase(t) == Phase::Idle,
            forall|t: int| 0 <= t < n ==> !r.flag(t) && r.label(t) == 0,
    {
        let mut flags: Vec<bool> = Vec::new();
        let mut labels: Vec<u64> = Vec::new();
        let mut phases: Vec<Phase> = Vec::new();
        let mut i: usize = 0;
        while i < n
            invariant
                i <= n,
                flags@.len() == i,
                labels@.len() == i,
                phases@.len() == i,
                forall|t: int| 0 <= t < i ==> flags@[t] == false,
                forall|t: int| 0 <= t < i ==> labels@[t] == 0,
                forall|t: int| 0 <= t < i ==> phases@[t] == Phase::Idle,
            decreases n - i,
        {
            flags.push(false);
            labels.push(0);
            phases.push(Phase::Idle);
            i += 1;
        }
        Bakery { value: a, n, flags, labels, phases }
    }

    /// One atomic action of the acquire protocol of thread `me`: raise the
    /// flag, then read the maximum label, then write one past it, then
    /// check the wait condition and enter once no flagged rival precedes
    /// `me` in `(label, id)` order.
    pub fn lock(&mut self, me: usize) -> (r: Result<(), LockError>)
        requires
            old(self).wf(),
        ensures
            final(self).wf(),
            me >= old(self).threads() ==> *final(self) == *old(self) && r == Err::<(), LockError>(
                LockError::Configuration,
            ),
            me < old(self).threads() ==> final(self).threads() == old(self).threads() && final(self).stored() == old(self).stored() && forall|t: int|
                0 <= t < old(self).threads() && t != me ==> final(self).phase(t) == old(self).phase(
                    t,
                ) && final(self).flag(t) == old(self).flag(t) && final(self).label(t) == old(self).label(t),
            me < old(self).threads() && old(self).phase(me as int) == Phase::Idle ==> final(self).phase(me as int) == Phase::Joining && final(self).flag(me as int) && final(self).label(
                me as int,
            ) == 0 && r == Err::<(), LockError>(LockError::WouldBlock),
            me < old(self).threads() && old(self).phase(me as int) == Phase::Joining ==> (final(self).phase(me as int) matches Phase::Labeling(m) && (forall|i: int|
                0 <= i < old(self).threads() ==> old(self).label(i) <= m) && (m == 0 || exists|
                i: int,
            |
                0 <= i < old(self).threads() && old(self).label(i) == m) && final(self).flag(
                me as int,
            ) == old(self).flag(me as int) && final(self).label(me as int) == old(self).label(
                me as int,
            ) && r == Err::<(), LockError>(LockError::WouldBlock)),
            me < old(self).threads() ==> (old(self).phase(me as int) matches Phase::Labeling(m)
                ==> if m == u64::MAX {
                *final(self) == *old(self) && r == Err::<(), LockError>(LockError::CapacityExceeded)
            } else {
                final(self).phase(me as int) == Phase::Waiting && final(self).flag(me as int) == old(self).flag(me as int) && final(self).label(me as int) == m + 1 && r == Err::<
                    (),
                    LockError,
                >(LockError::WouldBlock)
            }),
            me < old(self).threads() && old(self).phase(me as int) == Phase::Waiting && old(self).can_enter(me as int) ==> final(self).phase(me as int) == Phase::Holding && final(self).flag(me as int) == old(self).flag(me as int) && final(self).label(me as int) == old(self).label(me as int) && r == Ok::<(), LockError>(()),
            me < old(self).threads() && old(self).phase(me as int) == Phase::Waiting && !old(self).can_enter(me as int) ==> *final(self) == *old(self) && r == Err::<(), LockError>(
                LockError::WouldBlock,
            ),
            me < old(self).threads() && old(self).phase(me as int) == Phase::Holding ==> *final(self) == *old(self) && r == Err::<(), LockError>(LockError::Configuration),
    {
        if me >= self.n {
            return Err(LockError::Configuration);
        }
        let ph = self.phases[me];
        match ph {
            Phase::Idle => {
                self.flags.set(me, true);
                self.phases.set(me, Phase::Joining);
                proof {
                    assert forall|t: int|
                        0 <= t < self.threads() && t != me as int implies #[trigger] self.phase(t)
                        == old(self).phase(t) && self.flag(t) == old(self).flag(t) && self.label(t)
                        == old(self).label(t) by {}
                }
                Err(LockError::WouldBlock)
            },
            Phase::Joining => {
                let ghost pre = *self;
                let mut m: u64 = 0;
                let mut i: usize = 0;
                while i < self.n
                    invariant
                        *self == pre,
                        i <= self.n,
                        self.labels@.len() == self.n,
                        forall|j: int| 0 <= j < i ==> self.labels@[j] <= m,
                        m == 0 || exists|j: int| 0 <= j < i && self.labels@[j] == m,
                    decreases self.n - i,
                {
                    if self.labels[i] > m {
                        m = self.labels[i];
                    }
                    i += 1;
                }
                proof {
                    assert forall|i2: int|
                        0 <= i2 < old(self).threads() implies old(self).label(i2) <= m by {
                        assert(self.labels@[i2] <= m);
                    }
                    if m > 0 {
                        let j = choose|j: int| 0 <= j < self.n && self.labels@[j] == m;
                        assert(old(self).label(j) == m);
                    }
                }
                self.phases.set(me, Phase::Labeling(m));
                proof {
                    assert forall|t: int|
                        0 <= t < self.threads() && t != me as int implies #[trigger] self.phase(t)
                        == old(self).phase(t) && self.flag(t) == old(self).flag(t) && self.label(t)
                        == old(self).label(t) by {}
                }
                Err(LockError::WouldBlock)
            },
            Phase::Labeling(m) => {
                if m == u64::MAX {
                    Err(LockError::CapacityExceeded)
                } else {
                    self.labels.set(me, m + 1);
                    self.phases.set(me, Phase::Waiting);
                    proof {
                        assert forall|t: int|
                            0 <= t < self.threads() && t != me as int implies #[trigger] self.phase(
                            t,
                        ) == old(self).phase(t) && self.flag(t) == old(self).flag(t) && self.label(
                            t,
                        ) == old(self).label(t) by {}
                    }
                    Err(LockError::WouldBlock)
                }
            },
            Phase::Waiting => {
                let mut blocked = false;
                let mut u: usize = 0;
                while u < self.n
                    invariant
                        old(self).wf(),
                        *self == *old(self),
                        u <= self.n,
                        me < self.n,
                        self.phase(me as int) == Phase::Waiting,
                        !blocked ==> forall|j: int|
                            0 <= j < u && j != me && self.flag(j) ==> !lex_less(
                                self.label(j),
                                j,
                                self.label(me as int),
                                me as int,
                            ),
                        blocked ==> !self.can_enter(me as int),
                    decreases self.n - u,
                {
                    if u != me && self.flags[u] {
                        let lu = self.labels[u];
                        let lme = self.labels[me];
                        if lu < lme || (lu == lme && u < me) {
                            proof {
                                assert(self.flag(u as int) && lex_less(
                                    self.label(u as int),
                                    u as int,
                                    self.label(me as int),
                                    me as int,
                                ));
                            }
                            blocked = true;
                        }
                    }
                    u += 1;
                }
                if blocked {
                    Err(LockError::WouldBlock)
                } else {
                    proof {
                        assert forall|t: int|
                            0 <= t < old(self).threads() && t != me as int && #[trigger] old(
                                self,
                            ).flag(t) implies old(self).label(t) >= 1 && lex_less(
                            old(self).label(me as int),
                            me as int,
                            old(self).label(t),
                            t,
                        ) by {
                            assert(!lex_less(
                                old(self).label(t),
                                t,
                                old(self).label(me as int),
                                me as int,
                            ));
                            assert(old(self).label(me as int) >= 1);
                        }
                    }
                    self.phases.set(me, Phase::Holding);
                    proof {
                        assert forall|t: int|
                            0 <= t < self.threads() && t != me as int implies #[trigger] self.phase(
                            t,
                        ) == old(self).phase(t) && self.flag(t) == old(self).flag(t) && self.label(
                            t,
                        ) == old(self).label(t) by {}
                    }
                    Ok(())
                }
            },
            Phase::Holding => Err(LockError::Configuration),
        }
    }

    /// Releases the lock: the flag goes down, the label is reset, and the
    /// thread returns to `Idle`.
    pub fn unlock(&mut self, me: usize)
        requires
            old(self).wf(),
            old(self).holding(me as int),
        ensures
            final(self).wf(),
            final(self).threads() == old(self).threads(),
            final(self).stored() == old(self).stored(),
            final(self).phase(me as int) == Phase::Idle,
            !final(self).flag(me as int),
            final(self).label(me as int) == 0,
            forall|t: int|
                0 <= t < old(self).threads() && t != me ==> final(self).phase(t) == old(self).phase(
                    t,
                ) && final(self).flag(t) == old(self).flag(t) && final(self).label(t) == old(self).label(t),
    {
        self.flags.set(me, false);
        self.labels.set(me, 0);
        self.phases.set(me, Phase::Idle);
        proof {
            assert forall|t: int|
                0 <= t < self.threads() && t != me as int implies #[trigger] self.phase(t) == old(
                    self,
                ).phase(t) && self.flag(t) == old(self).flag(t) && self.label(t) == old(self).label(
                    t,
                ) by {}
        }
    }

    pub fn get(&self, me: usize) -> (r: &T)
        requires
            self.holding(me as int),
        ensures
            *r == self.stored(),
    {
        &self.value
    }

    pub fn set(&mut self, me: usize, v: T)
        requires
            old(self).wf(),
            old(self).holding(me as int),
        ensures
            final(self).wf(),
            final(self).stored() == v,
            final(self).threads() == old(self).threads(),
            forall|t: int|
                0 <= t < old(self).threads() ==> final(self).phase(t) == old(self).phase(t) && final(self).flag(t) == old(self).flag(t) && final(self).label(t) == old(self).label(t),
    {
        self.value = v;
        proof {
            assert forall|t: int|
                0 <= t < self.threads() implies #[trigger] self.phase(t) == old(self).phase(t)
                && self.flag(t) == old(self).flag(t) && self.label(t) == old(self).label(t) by {}
        }
    }

    /// Mutual exclusion: at most one thread holds the lock in any
    /// well-formed state.
    pub proof fn lemma_mutual_exclusion(self, t1: int, t2: int)
        requires
            self.wf(),
            self.holding(t1),
            self.holding(t2),
        ensures
            t1 == t2,
    {
    }

    /// First come, first served: the holder precedes every labelled waiter
    /// in the lexicographic `(label, id)` order, with ties on the label
    /// broken by the smaller thread id.
    pub proof fn lemma_fifo(self, h: int, t: int)
        requires
            self.wf(),
            self.holding(h),
            0 <= t < self.threads(),
            t != h,
            self.phase(t) == Phase::Waiting,
        ensures
            lex_less(self.label(h), h, self.label(t), t),
    {
    }

    /// The starvation-freedom step: a waiting thread that precedes every
    /// flagged rival in `(label, id)` order passes its wait condition, so
    /// the earliest waiter is never blocked.
    pub proof fn lemma_first_waiter_enters(self, t: int)
        requires
            self.wf(),
            0 <= t < self.threads(),
            self.phase(t) == Phase::Waiting,
            forall|u: int|
                0 <= u < self.threads() && u != t && self.flag(u) ==> lex_less(
                    self.label(t),
                    t,
                    self.label(u),
                    u,
                ),
        ensures
            self.can_enter(t),
    {
    }
}

} // verus!
