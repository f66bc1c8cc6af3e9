//! The lock machines driven sequentially: each logical thread's acquire
//! protocol is advanced step by step, so interleavings are spelled out
//! explicitly.

use spinlocks::LockError;
use spinlocks::alock::ALock;
use spinlocks::bakery::Bakery;
use spinlocks::clh::CLHLock;
use spinlocks::filter::FilterLock;
use spinlocks::naive::{LockGuard, LockOne, LockTwo};
use spinlocks::peterson::Peterson;
use spinlocks::ttas::TTASLock;

fn acquire_lockone(l: &mut LockOne<i32>, tid: usize) -> LockGuard {
    loop {
        match l.lock(tid) {
            Ok(g) => return g,
            Err(e) => assert_eq!(e, LockError::WouldBlock),
        }
    }
}

fn acquire_peterson(l: &mut Peterson<i32>, tid: usize) -> LockGuard {
    loop {
        match l.lock(tid) {
            Ok(g) => return g,
            Err(e) => assert_eq!(e, LockError::WouldBlock),
        }
    }
}

#[test]
fn ch2_test() {
    let mut lo = LockOne::new(0);
    for tid in 0..2 {
        for _ in 0..20 {
            let g = acquire_lockone(&mut lo, tid);
            let v = *lo.get(&g);
            lo.set(&g, v + 1);
            lo.unlock(g);
            println!("{}", tid);
        }
    }
    let g = acquire_lockone(&mut lo, 1);
    println!("value is {}", lo.get(&g));
    assert_eq!(*lo.get(&g), 40);
    lo.unlock(g);
}

#[test]
fn testlock2() {
    let mut lo = LockTwo::new(0);
    // Each thread's first announcement; afterwards each release is followed
    // by a fresh announcement that lets the other thread through.
    assert_eq!(lo.lock(0), Err(LockError::WouldBlock));
    assert_eq!(lo.lock(1), Err(LockError::WouldBlock));
    for _ in 0..20 {
        assert_eq!(lo.lock(0), Ok(()));
        let v = *lo.get(0);
        lo.set(0, v + 1);
        println!("{} - {}", 0, v + 1);
        lo.unlock(0);
        assert_eq!(lo.lock(0), Err(LockError::WouldBlock));
        assert_eq!(lo.lock(1), Ok(()));
        let v = *lo.get(1);
        lo.set(1, v + 1);
        println!("{} - {}", 1, v + 1);
        lo.unlock(1);
        assert_eq!(lo.lock(1), Err(LockError::WouldBlock));
    }
    assert_eq!(lo.lock(0), Ok(()));
    assert_eq!(*lo.get(0), 40);
    lo.unlock(0);
    // The documented defect: with nobody else announcing, a thread that has
    // handed the turn to itself can never pass its own wait condition.
    assert_eq!(lo.lock(1), Err(LockError::WouldBlock));
    assert_eq!(lo.lock(1), Err(LockError::WouldBlock));
}

#[test]
#[allow(non_snake_case)]
fn testPeterson() {
    let mut lo = Peterson::new(0);
    for tid in 0..2 {
        for _ in 0..20 {
            let g = acquire_peterson(&mut lo, tid);
            let v = *lo.get(&g);
            lo.set(&g, v + 1);
            lo.unlock(g);
            println!("{}", tid);
        }
    }
    let g = acquire_peterson(&mut lo, 1);
    println!("value is {}", lo.get(&g));
    assert_eq!(*lo.get(&g), 40);
    lo.unlock(g);
}

#[test]
fn test_filter_lock() {
    let cpus = num_cpus::get();
    println!("{}", cpus);
    let mut lo = FilterLock::new(0, 30);
    for tid in 0..30 {
        for _ in 0..300 {
            loop {
                match lo.lock(tid) {
                    Ok(()) => break,
                    Err(e) => assert_eq!(e, LockError::WouldBlock),
                }
            }
            let v = *lo.get(tid);
            lo.set(tid, v + 1);
            lo.unlock(tid);
        }
    }
    loop {
        match lo.lock(1) {
            Ok(()) => break,
            Err(e) => assert_eq!(e, LockError::WouldBlock),
        }
    }
    println!("value is {}", lo.get(1));
    assert_eq!(*lo.get(1), 30 * 300);
}

#[test]
fn test_bakery() {
    let cpus = num_cpus::get();
    println!("{}", cpus);
    let mut lo = Bakery::new(0u64, 100);
    for tid in 0..100 {
        for _ in 0..600 {
            loop {
                match lo.lock(tid) {
                    Ok(()) => break,
                    Err(e) => assert_eq!(e, LockError::WouldBlock),
                }
            }
            let v = *lo.get(tid);
            lo.set(tid, v + 1);
            lo.unlock(tid);
        }
    }
    loop {
        match lo.lock(0) {
            Ok(()) => break,
            Err(e) => assert_eq!(e, LockError::WouldBlock),
        }
    }
    println!("value is {}", lo.get(0));
    assert_eq!(*lo.get(0), 100 * 600);
}

#[test]
fn tt() {
    let mut lo = TTASLock::new(0u64);
    let now = std::time::SystemTime::now();
    for _ in 0..50 {
        for _ in 0..3000 {
            assert_eq!(lo.lock(), Ok(()));
            let v = *lo.get();
            lo.set(v + 1);
            lo.unlock();
        }
    }
    assert_eq!(lo.lock(), Ok(()));
    println!("value is {} {:?}", lo.get(), now.elapsed());
    assert_eq!(*lo.get(), 150000);
}

#[test]
fn at() {
    let mut lo = ALock::new(0u64, 100).unwrap();
    let now = std::time::SystemTime::now();
    for _ in 0..50 {
        for _ in 0..3000 {
            let g = lo.lock().unwrap();
            assert!(lo.ready(&g));
            let v = *lo.get(&g);
            lo.set(&g, v + 1);
            lo.unlock(g);
        }
    }
    let g = lo.lock().unwrap();
    println!("value is {} {:?}", lo.get(&g), now.elapsed());
    assert_eq!(*lo.get(&g), 150000);
    lo.unlock(g);
}

#[test]
fn clh() {
    let mut lo = CLHLock::new(0u64, 1);
    let now = std::time::SystemTime::now();
    for _ in 0..3000 {
        assert_eq!(lo.lock(0), Err(LockError::WouldBlock));
        assert_eq!(lo.lock(0), Ok(()));
        let v = *lo.get(0);
        lo.set(0, v + 1);
        lo.unlock(0);
    }
    assert_eq!(lo.lock(0), Err(LockError::WouldBlock));
    assert_eq!(lo.lock(0), Ok(()));
    println!("value is {} {:?}", lo.get(0), now.elapsed());
    assert_eq!(*lo.get(0), 3000);
    lo.unlock(0);
}

#[test]
fn peterson_blocks_rival_while_held() {
    let mut lo = Peterson::new(0);
    let g0 = acquire_peterson(&mut lo, 0);
    // The rival announces, volunteers as victim, and then stays blocked for
    // as long as the lock is held.
    assert_eq!(lo.lock(1).unwrap_err(), LockError::WouldBlock);
    assert_eq!(lo.lock(1).unwrap_err(), LockError::WouldBlock);
    assert_eq!(lo.lock(1).unwrap_err(), LockError::WouldBlock);
    assert_eq!(lo.lock(1).unwrap_err(), LockError::WouldBlock);
    lo.set(&g0, 7);
    lo.unlock(g0);
    // After the release the waiting rival enters at once.
    let g1 = lo.lock(1).unwrap();
    assert_eq!(*lo.get(&g1), 7);
    lo.unlock(g1);
}

#[test]
fn peterson_rejects_foreign_ids() {
    let mut lo = Peterson::new(0);
    assert_eq!(lo.lock(2).unwrap_err(), LockError::Configuration);
    assert_eq!(lo.lock(9).unwrap_err(), LockError::Configuration);
}

#[test]
fn lockone_deadlocks_when_both_announce() {
    let mut lo = LockOne::new(0);
    // Both threads announce before either checks: from here no step of
    // either thread can ever succeed, reproducing the documented deadlock.
    assert_eq!(lo.lock(0).unwrap_err(), LockError::WouldBlock);
    assert_eq!(lo.lock(1).unwrap_err(), LockError::WouldBlock);
    for _ in 0..5 {
        assert_eq!(lo.lock(0).unwrap_err(), LockError::WouldBlock);
        assert_eq!(lo.lock(1).unwrap_err(), LockError::WouldBlock);
    }
}

#[test]
fn locktwo_deadlocks_sequentially() {
    let mut lo = LockTwo::new(0);
    // A thread running alone hands the turn to itself and then waits for an
    // overwrite that never comes.
    assert_eq!(lo.lock(0).unwrap_err(), LockError::WouldBlock);
    for _ in 0..5 {
        assert_eq!(lo.lock(0).unwrap_err(), LockError::WouldBlock);
    }
}

#[test]
fn bakery_serves_in_label_order() {
    let mut lo = Bakery::new(0, 3);
    // Thread 0 acquires: flag, read, label, enter.
    assert_eq!(lo.lock(0), Err(LockError::WouldBlock));
    assert_eq!(lo.lock(0), Err(LockError::WouldBlock));
    assert_eq!(lo.lock(0), Err(LockError::WouldBlock));
    assert_eq!(lo.lock(0), Ok(()));
    // Threads 1 and 2 take labels in that order while 0 holds the lock.
    for t in [1, 2] {
        assert_eq!(lo.lock(t), Err(LockError::WouldBlock));
        assert_eq!(lo.lock(t), Err(LockError::WouldBlock));
        assert_eq!(lo.lock(t), Err(LockError::WouldBlock));
    }
    // Neither can enter while 0 holds, and 2 cannot overtake 1 afterwards.
    assert_eq!(lo.lock(2), Err(LockError::WouldBlock));
    assert_eq!(lo.lock(1), Err(LockError::WouldBlock));
    lo.unlock(0);
    assert_eq!(lo.lock(2), Err(LockError::WouldBlock));
    assert_eq!(lo.lock(1), Ok(()));
    assert_eq!(lo.lock(2), Err(LockError::WouldBlock));
    lo.unlock(1);
    assert_eq!(lo.lock(2), Ok(()));
    lo.unlock(2);
}

#[test]
fn alock_capacity_boundary() {
    // A capacity of zero is rejected outright.
    assert!(ALock::new(0, 0).is_err());
    let mut lo = ALock::new(0, 2).unwrap();
    // Exactly two waiters fit; they are served strictly in draw order.
    let g1 = lo.lock().unwrap();
    let g2 = lo.lock().unwrap();
    // A third concurrent waiter would alias a slot and is refused.
    assert_eq!(lo.lock().unwrap_err(), LockError::CapacityExceeded);
    assert!(lo.ready(&g1));
    assert!(!lo.ready(&g2));
    lo.unlock(g1);
    assert!(lo.ready(&g2));
    lo.unlock(g2);
    // With the slots drained there is room again.
    let g3 = lo.lock().unwrap();
    assert!(lo.ready(&g3));
    lo.unlock(g3);
}

#[test]
fn clh_serves_in_enqueue_order() {
    let mut lo = CLHLock::new(0, 3);
    assert_eq!(lo.lock(0), Err(LockError::WouldBlock));
    assert_eq!(lo.lock(0), Ok(()));
    assert_eq!(lo.lock(1), Err(LockError::WouldBlock));
    assert_eq!(lo.lock(2), Err(LockError::WouldBlock));
    // Both spin on their predecessors while 0 holds the lock.
    assert_eq!(lo.lock(1), Err(LockError::WouldBlock));
    assert_eq!(lo.lock(2), Err(LockError::WouldBlock));
    lo.unlock(0);
    // 2 still waits on 1's node; 1 enters first.
    assert_eq!(lo.lock(2), Err(LockError::WouldBlock));
    assert_eq!(lo.lock(1), Ok(()));
    lo.unlock(1);
    assert_eq!(lo.lock(2), Ok(()));
    lo.unlock(2);
}

#[test]
fn backoff_windows_grow_to_cap() {
    let mut lo = TTASLock::new(0);
    let mut bo = lo.backoff();
    // Successive draws stay below a window that doubles from the minimum up
    // to the cap and never shrinks.
    let mut window: u64 = 500;
    for _ in 0..10 {
        let d = bo.next();
        assert!(d < window);
        let next_window = if 2 * window <= 10000 { 2 * window } else { 10000 };
        assert!(next_window >= window);
        window = next_window;
    }
    assert_eq!(window, 10000);
}

#[test]
fn ttas_blocks_until_release() {
    let mut lo = TTASLock::new(5);
    assert_eq!(lo.lock(), Ok(()));
    assert_eq!(lo.lock().unwrap_err(), LockError::WouldBlock);
    let mut bo = lo.backoff();
    let d = bo.next();
    assert!(d < 500);
    lo.unlock();
    assert_eq!(lo.lock(), Ok(()));
    assert_eq!(*lo.get(), 5);
}
