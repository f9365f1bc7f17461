//! The reference counter.

use loom::sync::{Arc, Mutex};
use loom::thread;
use rayd::kernel::id::{ObjectId, WorkerId};
use rayd::kernel::ref_counter::{OwnerEntry, RefCounter};

fn oid(seed: u8) -> ObjectId {
    let mut buf = [0u8; 28];
    buf[0] = seed;
    ObjectId::from_bytes(buf)
}

fn wid(seed: u8) -> WorkerId {
    let mut buf = [0u8; 16];
    buf[0] = seed;
    WorkerId::from_bytes(buf)
}

#[test]
fn add_owned_starts_local_count_at_one() {
    let mut c = RefCounter::new();
    c.add_owned(oid(1));
    let e = c.snapshot(oid(1)).expect("entry");
    assert_eq!(e.local_count, 1);
    assert!(e.borrowers.is_empty());
    assert_eq!(e.submit_dep_count, 0);
}

#[test]
fn dec_unpins_when_count_reaches_zero() {
    let mut c = RefCounter::new();
    c.add_owned(oid(1));
    assert!(c.dec_local(oid(1)));
    assert!(c.snapshot(oid(1)).is_none());
    assert!(c.is_empty());
}

#[test]
fn dec_does_not_unpin_while_borrower_holds() {
    let mut c = RefCounter::new();
    c.add_owned(oid(1));
    c.add_borrower(oid(1), wid(7));
    // The owner drops its last reference, but the borrower keeps the object.
    assert!(!c.dec_local(oid(1)));
    let e = c.snapshot(oid(1)).expect("still tracked");
    assert_eq!(e.local_count, 0);
    assert_eq!(e.borrowers.len(), 1);
    // The borrower drops too.
    assert!(c.remove_borrower(oid(1), wid(7)));
    assert!(c.snapshot(oid(1)).is_none());
}

#[test]
fn dec_does_not_unpin_while_submit_dep_holds() {
    let mut c = RefCounter::new();
    c.add_owned(oid(1));
    c.add_submit_dep(oid(1));
    assert!(!c.dec_local(oid(1)));
    assert!(c.complete_submit_dep(oid(1)));
    assert!(c.snapshot(oid(1)).is_none());
}

#[test]
fn inc_local_increments_for_clones() {
    let mut c = RefCounter::new();
    c.add_owned(oid(1));
    assert_eq!(c.inc_local(oid(1)), 2);
    assert_eq!(c.inc_local(oid(1)), 3);
    assert!(!c.dec_local(oid(1)));
    assert!(!c.dec_local(oid(1)));
    assert!(c.dec_local(oid(1)));
}

#[test]
fn add_borrower_is_idempotent_per_worker() {
    let mut c = RefCounter::new();
    c.add_owned(oid(1));
    assert!(c.add_borrower(oid(1), wid(7)));
    assert!(!c.add_borrower(oid(1), wid(7)));
    let e = c.snapshot(oid(1)).expect("entry");
    assert_eq!(e.borrowers.len(), 1);
}

#[test]
fn dec_local_on_unknown_is_a_no_op() {
    let mut c = RefCounter::new();
    assert!(!c.dec_local(oid(99)));
    assert!(c.is_empty());
}

#[test]
fn dec_local_below_zero_saturates_and_does_not_panic() {
    let mut c = RefCounter::new();
    c.add_owned(oid(1));
    // A borrower keeps the entry when the local count reaches zero.
    c.add_borrower(oid(1), wid(7));
    assert!(!c.dec_local(oid(1)));
    // A stray extra drop.
    assert!(!c.dec_local(oid(1)));
    let e = c.snapshot(oid(1)).expect("still tracked");
    assert_eq!(e.local_count, 0);
}

#[test]
fn unrelated_borrower_drop_does_not_affect_other_workers() {
    let mut c = RefCounter::new();
    c.add_owned(oid(1));
    c.add_borrower(oid(1), wid(7));
    c.add_borrower(oid(1), wid(8));
    // This worker never borrowed.
    assert!(!c.remove_borrower(oid(1), wid(9)));
    let e = c.snapshot(oid(1)).expect("entry");
    assert_eq!(e.borrowers.len(), 2);
}

#[test]
fn entry_is_unpinned_only_when_all_three_hit_zero() {
    let mut c = RefCounter::new();
    c.add_owned(oid(1));
    c.add_borrower(oid(1), wid(7));
    c.add_submit_dep(oid(1));
    assert!(!c.dec_local(oid(1)));
    assert!(!c.remove_borrower(oid(1), wid(7)));
    assert!(c.complete_submit_dep(oid(1)));
    assert!(c.is_empty());
}

#[test]
fn unknown_ids_are_unaffected_by_drops_and_clones() {
    let mut c = RefCounter::default();
    assert_eq!(c.inc_local(oid(1)), 0);
    assert!(!c.remove_borrower(oid(1), wid(1)));
    assert!(!c.complete_submit_dep(oid(1)));
    assert_eq!(c.len(), 0);
    assert!(OwnerEntry::default().is_unpinned());
}

/// A small deterministic generator of operations.
fn next(state: &mut u64) -> u64 {
    *state = state.wrapping_mul(6364136223846793005).wrapping_add(1442695040888963407);
    *state >> 33
}

#[test]
fn tracked_entries_are_never_unpinned_in_long_runs() {
    let mut c = RefCounter::new();
    let mut state: u64 = 7;
    for _ in 0..2000 {
        let o = oid((next(&mut state) % 4) as u8);
        let w = wid((next(&mut state) % 3) as u8);
        match next(&mut state) % 7 {
            0 => c.add_owned(o),
            1 => {
                c.inc_local(o);
            }
            2 => {
                c.dec_local(o);
            }
            3 => {
                c.add_borrower(o, w);
            }
            4 => {
                c.remove_borrower(o, w);
            }
            5 => c.add_submit_dep(o),
            _ => {
                c.complete_submit_dep(o);
            }
        }
        for i in 0..4 {
            if let Some(e) = c.snapshot(oid(i)) {
                assert!(!e.is_unpinned());
            }
        }
    }
}

#[test]
fn loom_concurrent_dec_local_and_add_borrower_no_panic() {
    loom::model(|| {
        let c = Arc::new(Mutex::new(RefCounter::new()));
        c.lock().unwrap().add_owned(oid(1));

        let c1 = Arc::clone(&c);
        let t1 = thread::spawn(move || {
            let _freed = c1.lock().unwrap().dec_local(oid(1));
        });
        let c2 = Arc::clone(&c);
        let t2 = thread::spawn(move || {
            c2.lock().unwrap().add_borrower(oid(1), wid(7));
        });
        t1.join().unwrap();
        t2.join().unwrap();

        let guard = c.lock().unwrap();
        let e = guard.snapshot(oid(1)).expect("the borrower pins it");
        assert_eq!(e.local_count, 0, "local count should be zero on any final shape");
        assert_eq!(e.borrowers.len(), 1, "borrower set should have exactly the one borrower");
        assert!(e.borrowers.contains(&wid(7)));
    });
}

#[test]
fn loom_concurrent_two_borrowers_independent() {
    loom::model(|| {
        let c = Arc::new(Mutex::new(RefCounter::new()));
        c.lock().unwrap().add_owned(oid(1));

        let c1 = Arc::clone(&c);
        let t1 = thread::spawn(move || {
            c1.lock().unwrap().add_borrower(oid(1), wid(7));
            c1.lock().unwrap().remove_borrower(oid(1), wid(7));
        });
        let c2 = Arc::clone(&c);
        let t2 = thread::spawn(move || {
            c2.lock().unwrap().add_borrower(oid(1), wid(8));
            c2.lock().unwrap().remove_borrower(oid(1), wid(8));
        });
        t1.join().unwrap();
        t2.join().unwrap();

        let mut guard = c.lock().unwrap();
        let e = guard.snapshot(oid(1)).expect("the owner pins it");
        assert_eq!(e.local_count, 1);
        assert!(e.borrowers.is_empty());
        assert!(guard.dec_local(oid(1)));
        assert!(guard.snapshot(oid(1)).is_none());
    });
}

#[test]
fn loom_dec_and_remove_race_exactly_one_unpin() {
    loom::model(|| {
        let c = Arc::new(Mutex::new(RefCounter::new()));
        c.lock().unwrap().add_owned(oid(1));
        c.lock().unwrap().add_borrower(oid(1), wid(7));

        let c1 = Arc::clone(&c);
        let t1 = thread::spawn(move || c1.lock().unwrap().dec_local(oid(1)));
        let c2 = Arc::clone(&c);
        let t2 = thread::spawn(move || c2.lock().unwrap().remove_borrower(oid(1), wid(7)));
        let r1 = t1.join().unwrap();
        let r2 = t2.join().unwrap();

        assert!(r1 ^ r2, "exactly one of dec/remove should report unpin");
        assert!(c.lock().unwrap().snapshot(oid(1)).is_none(), "entry must be gone");
    });
}
