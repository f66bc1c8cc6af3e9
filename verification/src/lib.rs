//! Software mutual-exclusion algorithms for a fixed set of threads, modelled
//! as explicit state machines, together with the small lock-protected data
//! structures that consume them.
//!
//! Each lock keeps its algorithm state (flags, labels, tickets, queue nodes)
//! in plain fields and advances one atomic action of its acquire protocol per
//! `lock` call; the busy-wait of the textbook algorithms becomes the caller's
//! wait policy.  A call that would spin reports `LockError::WouldBlock`
//! instead of blocking, so a driver can interleave the protocol steps of any
//! number of logical threads and every interleaving is covered by the
//! verified transition contracts.
//!
//! Lock state is never poisoned: a caller that stops between steps simply
//! leaves the machine where it was, and later acquirers proceed unaware, as
//! the textbook algorithms do.

use vstd::prelude::*;

pub mod alock;
pub mod backoff;
pub mod bakery;
pub mod clh;
pub mod coarse;
pub mod conslist;
pub mod filter;
pub mod fine;
pub mod list;
pub mod naive;
pub mod peterson;
pub mod queue;
pub mod simplebox;
pub mod simplerc;
pub mod simplerefcell;
pub mod stack;
pub mod ttas;

verus! {

/// The ways an acquire step can fail.
///
/// `Configuration` reports a thread id outside the lock's range or an invalid
/// capacity; `WouldBlock` reports that the acquire protocol has to wait for
/// another thread before it can make progress; `CapacityExceeded` reports
/// that admitting one more waiter would alias two waiters onto one slot or
/// overflow a label.
#[derive(Clone, Copy, Debug, PartialEq, Eq, Structural)]
pub enum LockError {
    Configuration,
    WouldBlock,
    CapacityExceeded,
}

} // verus!
