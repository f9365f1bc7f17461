//! The in-process store.

use rayd::kernel::id::{ObjectId, TaskId};
use rayd::kernel::metadata::{ErrorCategory, Metadata, RefState};
use rayd::kernel::ray_object::RayObject;
use rayd::kernel::store::{BlockingRead, MemoryStore, PlasmaIndex, StoredEntry};

fn ok_obj(payload: &[u8]) -> RayObject {
    RayObject::new(Metadata::Pickle5 { has_nested_refs: false }, payload.to_vec())
}

fn err_obj() -> RayObject {
    RayObject::new(
        Metadata::Error { category: ErrorCategory::TaskException, raw_code: 3 },
        Vec::new(),
    )
}

fn plasma(data_size: u64) -> PlasmaIndex {
    PlasmaIndex { metadata: Metadata::Pickle5 { has_nested_refs: false }, data_size }
}

fn random_id() -> ObjectId {
    ObjectId::for_return(&TaskId::random(), 0)
}

#[test]
fn inline_round_trip() {
    let mut store = MemoryStore::new();
    let id = random_id();
    store.put_inline(id, ok_obj(b"hello"));
    let entry = store.get_entry(&id).expect("present");
    match entry {
        StoredEntry::Inline(obj) => assert_eq!(obj.data, b"hello"),
        StoredEntry::Plasma(_) => panic!("expected inline"),
    }
    let obj = store.get_inline(&id).expect("inline");
    assert_eq!(obj.data, b"hello");
}

#[test]
fn plasma_index_does_not_appear_as_inline() {
    let mut store = MemoryStore::new();
    let id = random_id();
    store.put_plasma(id, plasma(10_000_000));
    assert!(store.contains(&id));
    assert!(store.get_inline(&id).is_none());
    let entry = store.get_entry(&id).expect("present");
    assert!(matches!(entry, StoredEntry::Plasma(_)));
}

#[test]
fn state_distinguishes_ready_failed_and_pending() {
    let mut store = MemoryStore::new();
    let ok_id = random_id();
    let err_id = random_id();
    let plasma_err_id = random_id();
    let plasma_ok_id = random_id();
    let absent = random_id();

    store.put_inline(ok_id, ok_obj(b"v"));
    store.put_inline(err_id, err_obj());
    store.put_plasma(
        plasma_err_id,
        PlasmaIndex {
            metadata: Metadata::Error { category: ErrorCategory::WorkerDied, raw_code: 0 },
            data_size: 0,
        },
    );
    store.put_plasma(plasma_ok_id, plasma(10_000));

    assert_eq!(store.state_of(&ok_id), RefState::ReadyLocal);
    assert_eq!(store.state_of(&err_id), RefState::Failed);
    assert_eq!(store.state_of(&plasma_err_id), RefState::Failed);
    assert_eq!(store.state_of(&plasma_ok_id), RefState::ReadyLocal);
    assert_eq!(store.state_of(&absent), RefState::Pending);

    let snapshot = store.state_snapshot(&[ok_id, err_id, absent, ok_id]);
    assert_eq!(snapshot.len(), 3);
    assert_eq!(snapshot.get(&ok_id), Some(&RefState::ReadyLocal));
    assert_eq!(snapshot.get(&err_id), Some(&RefState::Failed));
    assert_eq!(snapshot.get(&absent), Some(&RefState::Pending));
}

#[test]
fn get_entry_blocking_times_out() {
    let store = MemoryStore::new();
    let id = random_id();
    assert!(matches!(store.get_entry_blocking(&id, false), BlockingRead::Wait));
    assert!(matches!(store.get_entry_blocking(&id, true), BlockingRead::TimedOut));
}

#[test]
fn get_entry_blocking_wakes_on_put() {
    let mut store = MemoryStore::new();
    let id = random_id();
    assert!(matches!(store.get_entry_blocking(&id, false), BlockingRead::Wait));
    store.put_inline(id, ok_obj(b"late"));
    match store.get_entry_blocking(&id, false) {
        BlockingRead::Found(StoredEntry::Inline(obj)) => assert_eq!(obj.data, b"late"),
        other => panic!("expected the object, got {other:?}"),
    }
    // A present object is found even when the deadline has passed.
    assert!(matches!(store.get_entry_blocking(&id, true), BlockingRead::Found(_)));
}

#[test]
fn wait_returns_partition() {
    let mut store = MemoryStore::new();
    let a = random_id();
    let b = random_id();
    let c = random_id();
    store.put_inline(a, ok_obj(b"a"));
    store.put_plasma(b, plasma(1024));

    let out = store.wait(&[a, b, c], 2, false).expect("two are there");
    assert_eq!(out.ready.len(), 2);
    assert_eq!(out.not_ready, vec![c]);
    assert_eq!(out.ready, vec![a, b]);
}

#[test]
fn wait_times_out_when_threshold_unreachable() {
    let store = MemoryStore::new();
    let a = random_id();
    let b = random_id();
    assert!(store.wait(&[a, b], 2, false).is_none());
    let out = store.wait(&[a, b], 2, true).expect("expired");
    assert_eq!(out.ready, Vec::<ObjectId>::new());
    assert_eq!(out.not_ready.len(), 2);
}

#[test]
fn wait_for_more_than_there_are_waits_for_all() {
    let mut store = MemoryStore::new();
    let a = random_id();
    let b = random_id();
    store.put_inline(a, ok_obj(b"a"));
    assert!(store.wait(&[a, b], 9, false).is_none());
    store.put_inline(b, ok_obj(b"b"));
    assert_eq!(store.wait(&[a, b], 9, false).expect("all").ready, vec![a, b]);
    assert!(store.wait(&[], 0, false).is_some());
}

#[test]
fn delete_releases_bytes() {
    let mut store = MemoryStore::new();
    let id = random_id();
    store.put_inline(id, ok_obj(b"sizable"));
    assert!(store.used_memory() > 0);
    store.delete(&[id]);
    assert_eq!(store.used_memory(), 0);
    assert!(!store.contains(&id));
}

#[test]
fn replace_updates_byte_count() {
    let mut store = MemoryStore::new();
    let id = random_id();
    store.put_inline(id, ok_obj(b"short"));
    let before = store.used_memory();
    assert_eq!(before, 2 + 5);
    store.put_inline(id, ok_obj(b"a much longer payload"));
    assert!(store.used_memory() > before);
    assert_eq!(store.used_memory(), 2 + 21);
    assert_eq!(store.len(), 1);
}

#[test]
fn plasma_entries_lists_only_plasma() {
    let mut store = MemoryStore::default();
    let a = random_id();
    let b = random_id();
    store.put_inline(a, ok_obj(b"a"));
    store.put_plasma(b, plasma(5));
    assert_eq!(store.plasma_entries(), vec![(b, plasma(5))]);
    assert_eq!(
        store.used_memory(),
        (2 + 1 + std::mem::size_of::<PlasmaIndex>()) as u64
    );
    assert!(!store.is_empty());
}
