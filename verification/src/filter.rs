//! The filter lock: Peterson's algorithm generalized to `n` threads through
//! a chain of levels.
//!
//! A thread acquires by descending from level `n - 1` to level `0`, at each
//! level volunteering as that level's victim and waiting until no other
//! thread is at the same or a deeper level or until another thread
//! volunteers behind it; level `n` is the "not competing" sentinel and a
//! thread at level `0` that passes its check holds the lock.  Deadlock-free
//! but not starvation-free: a thread can be passed at any level arbitrarily
//! often.

use vstd::prelude::*;
use vstd::set_lib::{lemma_int_range, lemma_len_subset, set_int_range};
use crate::LockError;

verus! {

/// Control state of one thread's acquire protocol.
#[derive(Clone, Copy, Debug, PartialEq, Eq, Structural)]
pub enum Phase {
    Idle,
    /// In the wait loop of the given level, having volunteered as its
    /// victim on entry.
    Waiting(usize),
    Holding,
}

/// The filter lock: a current level per thread and a victim per level.
pub struct FilterLock<T> {
    value: T,
    n: usize,
    levels: Vec<usize>,
    victims: Vec<usize>,
    phases: Vec<Phase>,
}

impl<T> FilterLock<T> {
    /// The number of participating threads, fixed at construction.
    pub closed spec fn threads(self) -> int {
        self.n as int
    }

    /// The level thread `t` is competing at; `threads()` means idle.
    pub closed spec fn level(self, t: int) -> int {
        self.levels@[t] as int
    }

    /// The thread that most recently volunteered as the victim of level
    /// `i`, or the out-of-range initial value.
    pub closed spec fn victim(self, i: int) -> int {
        self.victims@[i] as int
    }

    /// The protocol state of thread `t`.
    pub closed spec fn phase(self, t: int) -> Phase {
        self.phases@[t]
    }

    /// The protected value.
    pub closed spec fn stored(self) -> T {
        self.value
    }

    pub open spec fn holding(self, t: int) -> bool {
        0 <= t < self.threads() && self.phase(t) == Phase::Holding
    }

    /// Thread `t` passes the wait condition of level `i` exactly when no
    /// other thread is at level `i` or deeper, or some other thread has
    /// since volunteered as the victim of level `i`.
    pub open spec fn can_advance(self, t: int, i: int) -> bool {
        !((exists|u: int| 0 <= u < self.threads() && u != t && #[trigger] self.level(u) <= i)
            && self.victim(i) == t)
    }

    /// The threads competing at level `i` or deeper.
    pub closed spec fn below(self, i: int) -> Set<int> {
        Set::new(|t: int| 0 <= t < self.threads() && self.level(t) <= i)
    }

    /// The machine invariant: a thread is idle exactly when it sits at the
    /// sentinel level, a waiting thread sits at its phase's level, and a
    /// holder has reached level `0`.  The occupancy clauses carry the
    /// filtering argument: at most `i + 1` threads are ever at level `i` or
    /// deeper; while two or more threads are that deep, the level's victim
    /// is one of the threads at that depth; and once the level's victim has
    /// passed the level, it is the only thread at that depth.
    pub closed spec fn wf(self) -> bool {
        &&& self.levels@.len() == self.threads()
        &&& self.victims@.len() == self.threads()
        &&& self.phases@.len() == self.threads()
        &&& forall|t: int|
            0 <= t < self.threads() ==> (#[trigger] self.phase(t) == Phase::Idle <==> self.level(t)
                == self.threads())
        &&& forall|t: int|
            0 <= t < self.threads() ==> (#[trigger] self.phase(t) matches Phase::Waiting(i)
                ==> self.level(t) == i < self.threads())
        &&& forall|t: int|
            0 <= t < self.threads() ==> (#[trigger] self.phase(t) == Phase::Holding ==> self.level(
                t,
            ) == 0)
        &&& forall|t: int| 0 <= t < self.threads() ==> #[trigger] self.level(t) <= self.threads()
        &&& forall|i: int|
            0 <= i < self.threads() ==> (#[trigger] self.below(i)).finite() && self.below(i).len()
                <= i + 1
        &&& forall|i: int, u: int|
            #![trigger self.victim(i), self.level(u)]
            0 <= i < self.threads() && 0 <= u < self.threads() && self.level(u) <= i && 0
                <= self.victim(i) < self.threads() && self.level(self.victim(i)) < i ==> u
                == self.victim(i)
        &&& forall|i: int, u: int, w: int|
            #![trigger self.victim(i), self.level(u), self.level(w)]
            0 <= i < self.threads() && 0 <= u < self.threads() && 0 <= w < self.threads() && u != w
                && self.level(u) <= i && self.level(w) <= i ==> 0 <= self.victim(i)
                < self.threads() && self.level(self.victim(i)) <= i
    }

    pub fn new(a: T, n: usize) -> (r: FilterLock<T>)
        ensures
            r.wf(),
            r.threads() == n,
            r.stored() == a,
            forall|t: int| 0 <= t < n ==> r.phase(t) == Phase::Idle,
            forall|t: int| 0 <= t < n ==> r.level(t) == n,
    {
        let mut levels: Vec<usize> = Vec::new();
        let mut victims: Vec<usize> = Vec::new();
        let mut phases: Vec<Phase> = Vec::new();
        let mut i: usize = 0;
        while i < n
            invariant
                i <= n,
                levels@.len() == i,
                victims@.len() == i,
                phases@.len() == i,
                forall|t: int| 0 <= t < i ==> levels@[t] == n,
                forall|t: int| 0 <= t < i ==> phases@[t] == Phase::Idle,
            decreases n - i,
        {
            levels.push(n);
            victims.push(n);
            phases.push(Phase::Idle);
            i += 1;
        }
        let r = FilterLock { value: a, n, levels, victims, phases };
        proof {
            assert forall|j: int|
                0 <= j < r.threads() implies (#[trigger] r.below(j)).finite() && r.below(j).len()
                <= j + 1 by {
                assert(r.below(j) =~= Set::<int>::empty());
            }
        }
        r
    }

    /// One atomic action of the acquire protocol of thread `me`: from
    /// `Idle` it enters the outermost level and volunteers as its victim;
    /// from a level's wait loop it checks the level's condition and, on
    /// success, descends one level — or, from level `0`, takes the lock.
    pub fn lock(&mut self, me: usize) -> (r: Result<(), LockError>)
        requires
            old(self).wf(),
        ensures
            final(self).wf(),
            me >= old(self).threads() ==> *final(self) == *old(self) && r == Err::<(), LockError>(
                LockError::Configuration,
            ),
            me < old(self).threads() ==> final(self).threads() == old(self).threads() && final(self).stored() == old(self).stored() && forall|t: int|
                0 <= t < old(self).threads() && t != me ==> final(self).phase(t) == old(self).phase(
                    t,
                ) && final(self).level(t) == old(self).level(t),
            me < old(self).threads() && old(self).phase(me as int) == Phase::Idle ==> final(self).phase(me as int) == Phase::Waiting((old(self).threads() - 1) as usize) && final(self).level(me as int) == old(self).threads() - 1 && final(self).victim(
                old(self).threads() - 1,
            ) == me as int && (forall|i: int|
                0 <= i < old(self).threads() - 1 ==> final(self).victim(i) == old(self).victim(i))
                && r == Err::<(), LockError>(LockError::WouldBlock),
            me < old(self).threads() ==> (old(self).phase(me as int) matches Phase::Waiting(i)
                ==> if !old(self).can_advance(me as int, i as int) {
                *final(self) == *old(self) && r == Err::<(), LockError>(LockError::WouldBlock)
            } else if i == 0 {
                final(self).phase(me as int) == Phase::Holding && final(self).level(me as int) == 0
                    && (forall|j: int|
                    0 <= j < old(self).threads() ==> final(self).victim(j) == old(self).victim(j))
                    && r == Ok::<(), LockError>(())
            } else {
                final(self).phase(me as int) == Phase::Waiting((i - 1) as usize) && final(self).level(me as int) == i - 1 && final(self).victim(i - 1) == me as int && (forall|
                    j: int,
                |
                    0 <= j < old(self).threads() && j != i - 1 ==> final(self).victim(j) == old(self).victim(j)) && r == Err::<(), LockError>(LockError::WouldBlock)
            }),
            me < old(self).threads() && old(self).phase(me as int) == Phase::Holding ==> *final(self) == *old(self) && r == Err::<(), LockError>(LockError::Configuration),
    {
        if me >= self.n {
            return Err(LockError::Configuration);
        }
        let ph = self.phases[me];
        match ph {
            Phase::Idle => {
                let top = self.n - 1;
                self.levels.set(me, top);
                self.victims.set(top, me);
                self.phases.set(me, Phase::Waiting(top));
                proof {
                    assert forall|t: int|
                        #![trigger self.phase(t)]
                        #![trigger self.level(t)]
                        0 <= t < self.threads() && t != me as int implies self.phase(t) == old(
                            self,
                        ).phase(t) && self.level(t) == old(self).level(t) by {}
                    assert forall|j: int|
                        0 <= j < self.threads() - 1 implies #[trigger] self.victim(j) == old(
                            self,
                        ).victim(j) by {}
                    assert(self.victim(self.threads() - 1) == me as int);
                    assert(self.level(me as int) == self.threads() - 1);
                    assert forall|j: int|
                        0 <= j < self.threads() - 1 implies #[trigger] self.below(j) == old(
                            self,
                        ).below(j) by {
                        assert(self.below(j) =~= old(self).below(j));
                    }
                    assert(self.below(self.threads() - 1).subset_of(
                        set_int_range(0, self.threads()),
                    ));
                    lemma_int_range(0, self.threads());
                    lemma_len_subset(
                        self.below(self.threads() - 1),
                        set_int_range(0, self.threads()),
                    );
                    assert forall|j: int, u2: int, w2: int|
                        #![trigger self.victim(j), self.level(u2), self.level(w2)]
                        0 <= j < self.threads() && 0 <= u2 < self.threads() && 0 <= w2
                            < self.threads() && u2 != w2 && self.level(u2) <= j && self.level(w2)
                            <= j implies 0 <= self.victim(j) < self.threads() && self.level(
                        self.victim(j),
                    ) <= j by {
                        if j < self.threads() - 1 {
                            assert(u2 != me as int && w2 != me as int);
                            assert(old(self).level(u2) <= j && old(self).level(w2) <= j);
                            assert(0 <= old(self).victim(j) < old(self).threads() && old(
                                self,
                            ).level(old(self).victim(j)) <= j);
                        }
                    }
                }
                Err(LockError::WouldBlock)
            },
            Phase::Waiting(i) => {
                let mut someone_deep = false;
                let mut u: usize = 0;
                while u < self.n
                    invariant
                        old(self).wf(),
                        *self == *old(self),
                        u <= self.n,
                        me < self.n,
                        someone_deep ==> exists|t: int|
                            0 <= t < self.threads() && t != me as int && #[trigger] self.level(t)
                                <= i,
                        !someone_deep ==> forall|t: int|
                            0 <= t < u && t != me as int ==> #[trigger] self.level(t) > i,
                    decreases self.n - u,
                {
                    if u != me && self.levels[u] <= i {
                        proof {
                            assert(self.level(u as int) <= i);
                        }
                        someone_deep = true;
                    }
                    u += 1;
                }
                let is_victim = self.victims[i] == me;
                if someone_deep && is_victim {
                    Err(LockError::WouldBlock)
                } else if i == 0 {
                    self.phases.set(me, Phase::Holding);
                    proof {
                        assert forall|t: int|
                            #![trigger self.phase(t)]
                            #![trigger self.level(t)]
                            0 <= t < self.threads() && t != me as int implies self.phase(t) == old(
                                self,
                            ).phase(t) && self.level(t) == old(self).level(t) by {}
                        assert(self.level(me as int) == old(self).level(me as int));
                        assert forall|j: int|
                            0 <= j < self.threads() implies #[trigger] self.victim(j) == old(
                                self,
                            ).victim(j) by {}
                        assert forall|j: int|
                            0 <= j < self.threads() implies #[trigger] self.below(j) == old(
                                self,
                            ).below(j) by {
                            assert(self.below(j) =~= old(self).below(j));
                        }
                    }
                    Ok(())
                } else {
                    let down = i - 1;
                    self.levels.set(me, down);
                    self.victims.set(down, me);
                    self.phases.set(me, Phase::Waiting(down));
                    proof {
                        let ii = i as int;
                        let nn = self.threads();
                        assert forall|t: int|
                            #![trigger self.phase(t)]
                            #![trigger self.level(t)]
                            0 <= t < self.threads() && t != me as int implies self.phase(t) == old(
                                self,
                            ).phase(t) && self.level(t) == old(self).level(t) by {}
                        assert(self.victim(ii - 1) == me as int);
                        assert(self.level(me as int) == ii - 1);
                        assert forall|j: int|
                            0 <= j < nn && j != ii - 1 implies #[trigger] self.victim(j) == old(
                                self,
                            ).victim(j) by {}
                        assert forall|j: int|
                            0 <= j < nn && j != ii - 1 implies #[trigger] self.below(j) == old(
                                self,
                            ).below(j) by {
                            assert(self.below(j) =~= old(self).below(j));
                        }
                        assert(self.below(ii - 1) =~= old(self).below(ii - 1).insert(me as int));
                        assert(!old(self).below(ii - 1).contains(me as int));
                        if !someone_deep {
                            assert(old(self).below(ii - 1) =~= Set::<int>::empty());
                            assert(self.below(ii - 1).len() <= ii);
                        } else {
                            let u0 = choose|t: int|
                                0 <= t < nn && t != me as int && #[trigger] old(self).level(t)
                                    <= ii;
                            assert(0 <= old(self).victim(ii) < nn && old(self).level(
                                old(self).victim(ii),
                            ) <= ii);
                            let v = old(self).victim(ii);
                            assert(v != me as int);
                            assert(old(self).level(v) == ii) by {
                                if old(self).level(v) < ii {
                                    assert(old(self).level(me as int) <= ii);
                                }
                            }
                            let s = old(self).below(ii - 1);
                            assert(!s.contains(v) && !s.contains(me as int));
                            assert(s.insert(v).insert(me as int).subset_of(old(self).below(ii)));
                            assert(s.finite());
                            lemma_len_subset(
                                s.insert(v).insert(me as int),
                                old(self).below(ii),
                            );
                            assert(s.insert(v).len() == s.len() + 1);
                            assert(s.insert(v).insert(me as int).len() == s.len() + 2);
                            assert(s.len() + 2 <= ii + 1);
                            assert(self.below(ii - 1).len() == s.len() + 1);
                        }
                        assert forall|j: int|
                            0 <= j < nn implies (#[trigger] self.below(j)).finite()
                                && self.below(j).len() <= j + 1 by {
                            if j != ii - 1 {
                                assert(self.below(j) == old(self).below(j));
                            }
                        }
                        assert forall|j: int, u2: int, w2: int|
                            #![trigger self.victim(j), self.level(u2), self.level(w2)]
                            0 <= j < nn && 0 <= u2 < nn && 0 <= w2 < nn && u2 != w2 && self.level(
                                u2,
                            ) <= j && self.level(w2) <= j implies 0 <= self.victim(j) < nn
                            && self.level(self.victim(j)) <= j by {
                            if j == ii - 1 {
                                assert(self.victim(j) == me as int);
                            } else {
                                if u2 != me as int && w2 != me as int {
                                    assert(old(self).level(u2) <= j && old(self).level(w2) <= j);
                                    assert(0 <= old(self).victim(j) < nn && old(self).level(
                                        old(self).victim(j),
                                    ) <= j);
                                    if old(self).victim(j) == me as int {
                                        assert(old(self).level(me as int) == ii);
                                        assert(ii <= j);
                                    }
                                } else {
                                    let other = if u2 == me as int { w2 } else { u2 };
                                    assert(other != me as int);
                                    assert(old(self).level(other) <= j);
                                    assert(j >= ii - 1);
                                    if j >= ii {
                                        assert(old(self).level(me as int) <= j);
                                        assert(0 <= old(self).victim(j) < nn && old(self).level(
                                            old(self).victim(j),
                                        ) <= j);
                                        if old(self).victim(j) == me as int {
                                            assert(ii <= j);
                                        }
                                    } else {
                                        assert(j == ii - 1);
                                        assert(self.victim(j) == me as int);
                                    }
                                }
                            }
                        }
                        assert forall|j: int, u2: int|
                            #![trigger self.victim(j), self.level(u2)]
                            0 <= j < nn && 0 <= u2 < nn && self.level(u2) <= j && 0 <= self.victim(
                                j,
                            ) < nn && self.level(self.victim(j)) < j implies u2 == self.victim(
                            j,
                        ) by {
                            if j == ii - 1 {
                                assert(self.victim(j) == me as int);
                                assert(self.level(me as int) == ii - 1);
                            } else if j == ii {
                                if self.victim(ii) == me as int {
                                    assert(!someone_deep);
                                    if u2 != me as int {
                                        assert(old(self).level(u2) > ii);
                                    }
                                } else {
                                    assert(old(self).victim(ii) == self.victim(ii));
                                    if old(self).level(self.victim(ii)) < ii {
                                        assert(old(self).level(me as int) <= ii);
                                        assert(me as int == old(self).victim(ii));
                                    }
                                    assert(self.level(self.victim(ii)) >= ii);
                                }
                            } else {
                                assert(self.victim(j) == old(self).victim(j));
                                if self.victim(j) == me as int {
                                    assert(self.level(me as int) == ii - 1);
                                    if ii - 1 < j {
                                        assert(old(self).level(me as int) == ii <= j);
                                    }
                                } else {
                                    if u2 != me as int {
                                        assert(old(self).level(u2) <= j);
                                    } else {
                                        assert(old(self).level(me as int) == ii <= j);
                                    }
                                }
                            }
                        }
                    }
                    Err(LockError::WouldBlock)
                }
            },
            Phase::Holding => Err(LockError::Configuration),
        }
    }

    /// Releases the lock: the thread returns to the "not competing"
    /// sentinel level.
    pub fn unlock(&mut self, me: usize)
        requires
            old(self).wf(),
            old(self).holding(me as int),
        ensures
            final(self).wf(),
            final(self).threads() == old(self).threads(),
            final(self).stored() == old(self).stored(),
            final(self).phase(me as int) == Phase::Idle,
            final(self).level(me as int) == old(self).threads(),
            forall|t: int|
                0 <= t < old(self).threads() && t != me ==> final(self).phase(t) == old(self).phase(
                    t,
                ) && final(self).level(t) == old(self).level(t),
            forall|i: int| 0 <= i < old(self).threads() ==> final(self).victim(i) == old(self).victim(i),
    {
        self.levels.set(me, self.n);
        self.phases.set(me, Phase::Idle);
        proof {
            assert forall|t: int|
                #![trigger self.phase(t)]
                #![trigger self.level(t)]
                0 <= t < self.threads() && t != me as int implies self.phase(t) == old(self).phase(
                    t,
                ) && self.level(t) == old(self).level(t) by {}
            assert forall|j: int|
                0 <= j < self.threads() implies #[trigger] self.victim(j) == old(self).victim(
                    j,
                ) by {}
            assert forall|j: int|
                0 <= j < self.threads() implies #[trigger] self.below(j) == old(self).below(
                    j,
                ).remove(me as int) by {
                assert(self.below(j) =~= old(self).below(j).remove(me as int));
            }
            assert forall|j: int|
                0 <= j < self.threads() implies (#[trigger] self.below(j)).finite()
                    && self.below(j).len() <= j + 1 by {
                assert(old(self).below(j).remove(me as int).subset_of(old(self).below(j)));
                lemma_len_subset(old(self).below(j).remove(me as int), old(self).below(j));
            }
            assert forall|j: int, u2: int, w2: int|
                #![trigger self.victim(j), self.level(u2), self.level(w2)]
                0 <= j < self.threads() && 0 <= u2 < self.threads() && 0 <= w2 < self.threads()
                    && u2 != w2 && self.level(u2) <= j && self.level(w2) <= j implies 0
                <= self.victim(j) < self.threads() && self.level(self.victim(j)) <= j by {
                assert(u2 != me as int && w2 != me as int);
                assert(old(self).level(u2) <= j && old(self).level(w2) <= j);
                assert(0 <= old(self).victim(j) < old(self).threads() && old(self).level(
                    old(self).victim(j),
                ) <= j);
                if old(self).victim(j) == me as int {
                    // the departing holder was the victim: it had passed the
                    // level, so nobody else was that deep
                    if j >= 1 {
                        assert(old(self).level(me as int) == 0);
                        assert(old(self).level(me as int) < j);
                        assert(u2 == me as int);
                    } else {
                        assert(old(self).below(0).contains(u2));
                        assert(old(self).below(0).contains(w2));
                        assert(Set::<int>::empty().insert(u2).insert(w2).subset_of(
                            old(self).below(0),
                        ));
                        assert(Set::<int>::empty().insert(u2).insert(w2).len() == 2);
                        lemma_len_subset(
                            Set::<int>::empty().insert(u2).insert(w2),
                            old(self).below(0),
                        );
                    }
                }
            }
        }
    }

    pub fn get(&self, me: usize) -> (r: &T)
        requires
            self.holding(me as int),
        ensures
            *r == self.stored(),
    {
        &self.value
    }

    pub fn set(&mut self, me: usize, v: T)
        requires
            old(self).wf(),
            old(self).holding(me as int),
        ensures
            final(self).wf(),
            final(self).stored() == v,
            final(self).threads() == old(self).threads(),
            forall|t: int|
                0 <= t < old(self).threads() ==> final(self).phase(t) == old(self).phase(t)
                    && final(self).level(t) == old(self).level(t),
            forall|i: int| 0 <= i < old(self).threads() ==> final(self).victim(i) == old(self).victim(i),
    {
        self.value = v;
        proof {
            assert forall|t: int|
                #![trigger self.phase(t)]
                #![trigger self.level(t)]
                0 <= t < self.threads() implies self.phase(t) == old(self).phase(t) && self.level(
                    t,
                ) == old(self).level(t) by {}
            assert forall|j: int|
                0 <= j < self.threads() implies #[trigger] self.victim(j) == old(self).victim(
                    j,
                ) by {}
            assert forall|j: int|
                0 <= j < self.threads() implies #[trigger] self.below(j) == old(self).below(
                    j,
                ) by {
                assert(self.below(j) =~= old(self).below(j));
            }
        }
    }

    /// Mutual exclusion: at most one thread is ever at the innermost level,
    /// so at most one thread holds the lock in any well-formed state.
    pub proof fn lemma_mutual_exclusion(self, t1: int, t2: int)
        requires
            self.wf(),
            self.holding(t1),
            self.holding(t2),
        ensures
            t1 == t2,
    {
        if t1 != t2 {
            assert(self.below(0).contains(t1));
            assert(self.below(0).contains(t2));
            assert(Set::<int>::empty().insert(t1).insert(t2).subset_of(self.below(0)));
            assert(Set::<int>::empty().insert(t1).insert(t2).len() == 2);
            lemma_len_subset(Set::<int>::empty().insert(t1).insert(t2), self.below(0));
        }
    }

    /// The deadlock-freedom mechanism: of two threads waiting at the same
    /// level, at most one is the level's victim, so at least one of them
    /// passes the level's wait condition.
    pub proof fn lemma_level_progress(self, t: int, u: int, i: int)
        requires
            self.wf(),
            0 <= t < self.threads(),
            0 <= u < self.threads(),
            t != u,
            self.phase(t) == Phase::Waiting(i as usize),
            self.phase(u) == Phase::Waiting(i as usize),
            0 <= i < self.threads(),
        ensures
            self.can_advance(t, i) || self.can_advance(u, i),
    {
    }
}

} // verus!
