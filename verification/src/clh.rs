//! CLH queue lock: an implicit queue of per-thread nodes linked through an
//! atomic tail.
//!
//! Every thread owns one node of a preallocated arena, holding one flag.  To
//! acquire, a thread raises its node's flag, swaps the tail with its node and
//! keeps the previous tail as its predecessor, then waits until the
//! predecessor's flag goes down.  To release, it lowers its own node's flag
//! and adopts the predecessor's node as its own for the next round.  FIFO
//! and starvation-free for any number of threads; the queue of enqueued
//! threads is carried alongside the arena as ghost state, and the lemmas
//! below prove that exactly the queue's head can enter.

use vstd::prelude::*;
use crate::LockError;

verus! {

/// Control state of one thread's acquire protocol.
#[derive(Clone, Copy, Debug, PartialEq, Eq, Structural)]
pub enum Phase {
    Idle,
    /// Enqueued: the own flag is up and the predecessor is recorded.
    Waiting,
    Holding,
}

/// The CLH lock: a node arena of `n + 1` flags (one node per thread plus
/// one floating node that starts as the sentinel), the tail index, and each
/// thread's owned node and recorded predecessor.
pub struct CLHLock<T> {
    value: T,
    n: usize,
    nodes: Vec<bool>,
    tail: usize,
    my_node: Vec<usize>,
    preds: Vec<usize>,
    phases: Vec<Phase>,
    q: Ghost<Seq<int>>,
}

impl<T> CLHLock<T> {
    /// The number of participating threads, fixed at construction.
    pub closed spec fn threads(self) -> int {
        self.n as int
    }

    /// The flag of arena node `i`.
    pub closed spec fn node_flag(self, i: int) -> bool {
        self.nodes@[i]
    }

    /// The arena index of the node thread `t` currently owns.
    pub closed spec fn my_node(self, t: int) -> int {
        self.my_node@[t] as int
    }

    /// The arena index thread `t` recorded as its predecessor when it last
    /// enqueued.
    pub closed spec fn pred(self, t: int) -> int {
        self.preds@[t] as int
    }

    /// The arena index the tail points at.
    pub closed spec fn tail_idx(self) -> int {
        self.tail as int
    }

    /// The protocol state of thread `t`.
    pub closed spec fn phase(self, t: int) -> Phase {
        self.phases@[t]
    }

    /// The enqueued threads in enqueue order; the head is the thread whose
    /// turn it is.
    pub closed spec fn queue(self) -> Seq<int> {
        self.q@
    }

    /// The protected value.
    pub closed spec fn stored(self) -> T {
        self.value
    }

    pub open spec fn holding(self, t: int) -> bool {
        0 <= t < self.threads() && self.phase(t) == Phase::Holding
    }

    /// Whether thread `t` is somewhere in the queue.
    pub open spec fn queued(self, t: int) -> bool {
        exists|k: int| 0 <= k < self.queue().len() && #[trigger] self.queue()[k] == t
    }

    /// Thread `t` passes its wait condition exactly when its predecessor's
    /// flag is down.
    pub open spec fn can_enter(self, t: int) -> bool {
        !self.node_flag(self.pred(t))
    }

    /// The node that no thread owns: the predecessor of the queue's head,
    /// or the tail when the queue is empty.
    pub closed spec fn floating(self) -> int {
        if self.queue().len() == 0 {
            self.tail_idx()
        } else {
            self.pred(self.queue()[0])
        }
    }

    /// The machine invariant: the queue holds exactly the non-idle
    /// threads, without repetition; node ownership is injective and the
    /// floating node is owned by nobody and has its flag down; a thread's
    /// node flag is up exactly while it is enqueued; each queued thread's
    /// predecessor is the node of the thread before it; the tail is the
    /// last enqueued node; and only the queue's head can be holding.
    pub closed spec fn wf(self) -> bool {
        &&& self.nodes@.len() == self.threads() + 1
        &&& self.my_node@.len() == self.threads()
        &&& self.preds@.len() == self.threads()
        &&& self.phases@.len() == self.threads()
        &&& 0 <= self.tail_idx() <= self.threads()
        &&& forall|t: int|
            0 <= t < self.threads() ==> 0 <= #[trigger] self.my_node(t) <= self.threads()
        &&& forall|t: int|
            0 <= t < self.threads() ==> 0 <= #[trigger] self.pred(t) <= self.threads()
        &&& forall|k: int|
            0 <= k < self.queue().len() ==> 0 <= #[trigger] self.queue()[k] < self.threads()
        &&& forall|k1: int, k2: int|
            0 <= k1 < k2 < self.queue().len() ==> #[trigger] self.queue()[k1]
                != #[trigger] self.queue()[k2]
        &&& forall|t: int|
            0 <= t < self.threads() ==> (#[trigger] self.phase(t) != Phase::Idle <==> self.queued(
                t,
            ))
        &&& forall|t1: int, t2: int|
            0 <= t1 < self.threads() && 0 <= t2 < self.threads() && t1 != t2 ==> #[trigger] self.my_node(
                t1,
            ) != #[trigger] self.my_node(t2)
        &&& forall|t: int|
            0 <= t < self.threads() ==> #[trigger] self.my_node(t) != self.floating()
        &&& !self.node_flag(self.floating())
        &&& forall|t: int|
            0 <= t < self.threads() ==> (self.node_flag(#[trigger] self.my_node(t)) <==> self.phase(
                t,
            ) != Phase::Idle)
        &&& forall|k: int|
            1 <= k < self.queue().len() ==> #[trigger] self.pred(self.queue()[k]) == self.my_node(
                self.queue()[k - 1],
            )
        &&& (self.queue().len() > 0 ==> self.tail_idx() == self.my_node(
            self.queue()[self.queue().len() - 1],
        ))
        &&& forall|t: int|
            0 <= t < self.threads() && #[trigger] self.phase(t) == Phase::Holding
                ==> self.queue().len() > 0 && self.queue()[0] == t
    }

    pub fn new(a: T, n: usize) -> (r: CLHLock<T>)
        requires
            n < usize::MAX,
        ensures
            r.wf(),
            r.threads() == n,
            r.stored() == a,
            r.queue().len() == 0,
            forall|t: int| 0 <= t < n ==> r.phase(t) == Phase::Idle,
    {
        let mut nodes: Vec<bool> = Vec::new();
        let mut my_node: Vec<usize> = Vec::new();
        let mut preds: Vec<usize> = Vec::new();
        let mut phases: Vec<Phase> = Vec::new();
        let mut i: usize = 0;
        while i < n
            invariant
                i <= n,
                nodes@.len() == i,
                my_node@.len() == i,
                preds@.len() == i,
                phases@.len() == i,
                forall|t: int| 0 <= t < i ==> nodes@[t] == false,
                forall|t: int| 0 <= t < i ==> my_node@[t] == t,
                forall|t: int| 0 <= t < i ==> preds@[t] == n,
                forall|t: int| 0 <= t < i ==> phases@[t] == Phase::Idle,
            decreases n - i,
        {
            nodes.push(false);
            my_node.push(i);
            preds.push(n);
            phases.push(Phase::Idle);
            i += 1;
        }
        nodes.push(false);
        CLHLock { value: a, n, nodes, tail: n, my_node, preds, phases, q: Ghost(Seq::empty()) }
    }

    /// One atomic action of the acquire protocol of thread `me`: from
    /// `Idle` it raises its node's flag and swaps itself into the tail,
    /// recording the previous tail as its predecessor; from `Waiting` it
    /// reads the predecessor's flag and enters once that flag is down.
    pub fn lock(&mut self, me: usize) -> (r: Result<(), LockError>)
        requires
            old(self).wf(),
        ensures
            final(self).wf(),
            me >= old(self).threads() ==> *final(self) == *old(self) && r == Err::<(), LockError>(
                LockError::Configuration,
            ),
            me < old(self).threads() ==> final(self).threads() == old(self).threads() && final(self).stored() == old(self).stored() && forall|t: int|
                0 <= t < old(self).threads() && t != me ==> final(self).phase(t) == old(self).phase(
                    t,
                ) && final(self).my_node(t) == old(self).my_node(t) && final(self).pred(t) == old(self).pred(t),
            me < old(self).threads() && old(self).phase(me as int) == Phase::Idle ==> final(self).phase(me as int) == Phase::Waiting && final(self).queue() == old(self).queue().push(
                me as int,
            ) && final(self).pred(me as int) == old(self).tail_idx() && final(self).tail_idx()
                == old(self).my_node(me as int) && r == Err::<(), LockError>(LockError::WouldBlock),
            me < old(self).threads() && old(self).phase(me as int) == Phase::Waiting && old(self).can_enter(me as int) ==> final(self).phase(me as int) == Phase::Holding && final(self).queue() == old(self).queue() && r == Ok::<(), LockError>(()),
            me < old(self).threads() && old(self).phase(me as int) == Phase::Waiting && !old(self).can_enter(me as int) ==> *final(self) == *old(self) && r == Err::<(), LockError>(
                LockError::WouldBlock,
            ),
            me < old(self).threads() && old(self).phase(me as int) == Phase::Holding ==> *final(self) == *old(self) && r == Err::<(), LockError>(LockError::Configuration),
    {
        if me >= self.n {
            return Err(LockError::Configuration);
        }
        let ph = self.phases[me];
        match ph {
            Phase::Idle => {
                let mine = self.my_node[me];
                proof {
                    assert(self.my_node(me as int) <= self.threads());
                }
                self.nodes.set(mine, true);
                self.preds.set(me, self.tail);
                self.tail = mine;
                self.phases.set(me, Phase::Waiting);
                proof {
                    self.q@ = old(self).queue().push(me as int);
                }
                proof {
                    let q0 = old(self).queue();
                    let q1 = self.queue();
                    assert(q1.len() == q0.len() + 1);
                    assert(q1[q1.len() - 1] == me as int);
                    assert forall|t: int|
                        #![trigger self.phase(t)]
                        #![trigger self.my_node(t)]
                        #![trigger self.pred(t)]
                        0 <= t < self.threads() && t != me as int implies self.phase(t) == old(self).phase(t) && self.my_node(t) == old(self).my_node(t) && self.pred(t) == old(self).pred(t) by {}
                    assert forall|k: int| 0 <= k < q0.len() implies q1[k] == q0[k] by {}
                    assert(!old(self).queued(me as int));
                    assert forall|t: int|
                        0 <= t < self.threads() implies (#[trigger] self.phase(t) != Phase::Idle
                            <==> self.queued(t)) by {
                        if t == me as int {
                            assert(q1[q1.len() - 1] == t);
                        } else {
                            if old(self).queued(t) {
                                let k = choose|k: int|
                                    0 <= k < q0.len() && #[trigger] q0[k] == t;
                                assert(q1[k] == t);
                            }
                            if self.queued(t) {
                                let k = choose|k: int|
                                    0 <= k < q1.len() && #[trigger] q1[k] == t;
                                assert(k < q0.len());
                                assert(q0[k] == t);
                            }
                        }
                    }
                    if q0.len() > 0 {
                        assert(self.floating() == old(self).floating());
                    } else {
                        assert(self.floating() == self.pred(me as int));
                        assert(self.pred(me as int) == old(self).tail_idx());
                        assert(self.floating() == old(self).floating());
                    }
                }
                Err(LockError::WouldBlock)
            },
            Phase::Waiting => {
                let p = self.preds[me];
                proof {
                    assert(self.pred(me as int) <= self.threads());
                }
                if self.nodes[p] {
                    Err(LockError::WouldBlock)
                } else {
                    proof {
                        lemma_head_can_enter(*self, me as int);
                    }
                    self.phases.set(me, Phase::Holding);
                    proof {
                        assert forall|t: int|
                            #![trigger self.phase(t)]
                            #![trigger self.my_node(t)]
                            #![trigger self.pred(t)]
                            0 <= t < self.threads() && t != me as int implies self.phase(t) == old(self).phase(t) && self.my_node(t) == old(self).my_node(t) && self.pred(t)
                            == old(self).pred(t) by {}
                        assert forall|t: int|
                            0 <= t < self.threads() implies (#[trigger] self.phase(t) != Phase::Idle
                                <==> self.queued(t)) by {
                            assert(self.queued(t) == old(self).queued(t));
                            assert(old(self).phase(t) != Phase::Idle <==> old(self).queued(t));
                        }
                    }
                    Ok(())
                }
            },
            Phase::Holding => Err(LockError::Configuration),
        }
    }

    /// Releases the lock: the thread's node flag goes down (which is what
    /// its successor is waiting on) and the thread adopts its former
    /// predecessor's node as its own for the next acquisition.
    pub fn unlock(&mut self, me: usize)
        requires
            old(self).wf(),
            old(self).holding(me as int),
        ensures
            final(self).wf(),
            final(self).threads() == old(self).threads(),
            final(self).stored() == old(self).stored(),
            final(self).phase(me as int) == Phase::Idle,
            final(self).queue() == old(self).queue().drop_first(),
            forall|t: int|
                0 <= t < old(self).threads() && t != me ==> final(self).phase(t) == old(self).phase(
                    t,
                ) && final(self).my_node(t) == old(self).my_node(t) && final(self).pred(t) == old(self).pred(t),
    {
        proof {
            lemma_holder_is_head(*old(self), me as int);
        }
        let mine = self.my_node[me];
        proof {
            assert(self.my_node(me as int) <= self.threads());
        }
        self.nodes.set(mine, false);
        let adopted = self.preds[me];
        self.my_node.set(me, adopted);
        self.phases.set(me, Phase::Idle);
        proof {
            self.q@ = old(self).queue().drop_first();
        }
        proof {
            let q0 = old(self).queue();
            let q1 = self.queue();
            assert(q0[0] == me as int);
            assert(q1.len() == q0.len() - 1);
            assert forall|k: int| 0 <= k < q1.len() implies #[trigger] q1[k] == q0[k + 1] by {}
            assert forall|t: int|
                #![trigger self.phase(t)]
                #![trigger self.my_node(t)]
                #![trigger self.pred(t)]
                0 <= t < self.threads() && t != me as int implies self.phase(t) == old(self).phase(
                    t,
                ) && self.my_node(t) == old(self).my_node(t) && self.pred(t) == old(self).pred(
                    t,
                ) by {}
            assert(old(self).floating() == old(self).pred(me as int));
            assert(self.my_node(me as int) == old(self).floating());
            assert(self.floating() == old(self).my_node(me as int)) by {
                if q1.len() == 0 {
                    assert(q0.len() == 1);
                    assert(self.tail_idx() == old(self).tail_idx());
                    assert(old(self).tail_idx() == old(self).my_node(q0[0]));
                } else {
                    assert(q1[0] == q0[1]);
                    assert(old(self).pred(q0[1]) == old(self).my_node(q0[0]));
                    assert(self.pred(q1[0]) == old(self).pred(q0[1]));
                }
            }
            assert forall|t: int|
                0 <= t < self.threads() implies (#[trigger] self.phase(t) != Phase::Idle
                    <==> self.queued(t)) by {
                if t == me as int {
                    if self.queued(t) {
                        let k = choose|k: int| 0 <= k < q1.len() && #[trigger] q1[k] == t;
                        assert(q0[k + 1] == t);
                        assert(q0[0] == t);
                    }
                } else {
                    if old(self).queued(t) {
                        let k = choose|k: int| 0 <= k < q0.len() && #[trigger] q0[k] == t;
                        assert(k != 0);
                        assert(q1[k - 1] == t);
                    }
                    if self.queued(t) {
                        let k = choose|k: int| 0 <= k < q1.len() && #[trigger] q1[k] == t;
                        assert(q0[k + 1] == t);
                    }
                }
            }
            assert forall|t: int|
                0 <= t < self.threads() implies (self.node_flag(#[trigger] self.my_node(t))
                    <==> self.phase(t) != Phase::Idle) by {
                if t != me as int {
                    assert(self.my_node(t) != old(self).my_node(me as int));
                    assert(self.my_node(t) != old(self).floating());
                }
            }
        }
    }

    pub fn get(&self, me: usize) -> (r: &T)
        requires
            self.holding(me as int),
        ensures
            *r == self.stored(),
    {
        &self.value
    }

    pub fn set(&mut self, me: usize, v: T)
        requires
            old(self).wf(),
            old(self).holding(me as int),
        ensures
            final(self).wf(),
            final(self).stored() == v,
            final(self).threads() == old(self).threads(),
            final(self).queue() == old(self).queue(),
            forall|t: int|
                0 <= t < old(self).threads() ==> final(self).phase(t) == old(self).phase(t),
    {
        self.value = v;
        proof {
            assert forall|t: int|
                #![trigger self.phase(t)]
                #![trigger self.my_node(t)]
                #![trigger self.pred(t)]
                0 <= t < self.threads() implies self.phase(t) == old(self).phase(t) && self.my_node(
                t,
            ) == old(self).my_node(t) && self.pred(t) == old(self).pred(t) by {}
        }
    }

    /// Mutual exclusion: at most one thread holds the lock, namely the
    /// queue's head.
    pub proof fn lemma_mutual_exclusion(self, t1: int, t2: int)
        requires
            self.wf(),
            self.holding(t1),
            self.holding(t2),
        ensures
            t1 == t2,
    {
        lemma_holder_is_head(self, t1);
        lemma_holder_is_head(self, t2);
    }
}

/// Only the queue's head can pass its wait condition: every later thread's
/// predecessor is the node of the thread before it, whose flag is still up.
/// This is FIFO: threads enter in enqueue order.
pub proof fn lemma_head_can_enter<T>(l: CLHLock<T>, t: int)
    requires
        l.wf(),
        0 <= t < l.threads(),
        l.phase(t) == Phase::Waiting,
        l.can_enter(t),
    ensures
        l.queue().len() > 0 && l.queue()[0] == t,
{
    assert(l.queued(t));
    let k = choose|k: int| 0 <= k < l.queue().len() && #[trigger] l.queue()[k] == t;
    if k > 0 {
        let before = l.queue()[k - 1];
        assert(l.pred(t) == l.my_node(before));
        assert(l.queued(before));
        assert(l.phase(before) != Phase::Idle);
        assert(l.node_flag(l.my_node(before)));
    }
}

/// The queue's head always passes its wait condition: its predecessor is
/// the floating node, whose flag is down.  Together with `lemma_head_can_enter`
/// this says that exactly the head can enter.
pub proof fn lemma_head_enters<T>(l: CLHLock<T>, t: int)
    requires
        l.wf(),
        l.queue().len() > 0,
        l.queue()[0] == t,
    ensures
        l.can_enter(t),
{
}

/// A holding thread is the queue's head.
pub proof fn lemma_holder_is_head<T>(l: CLHLock<T>, t: int)
    requires
        l.wf(),
        l.holding(t),
    ensures
        l.queue().len() > 0 && l.queue()[0] == t,
{
    assert(l.queued(t));
    let k = choose|k: int| 0 <= k < l.queue().len() && #[trigger] l.queue()[k] == t;
    if k > 0 {
        let before = l.queue()[k - 1];
        assert(l.pred(t) == l.my_node(before));
        assert(l.queued(before));
        assert(l.phase(before) != Phase::Idle);
        assert(l.node_flag(l.my_node(before)));
        assert(l.node_flag(l.pred(t)));
    }
}

} // verus!
