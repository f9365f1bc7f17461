//! The node's agent: directory, index of nodes, spilled objects and transfers.

use std::collections::BTreeMap;

use rayd::gcs::client::RegisterOutcome;
use rayd::gcs::nodes::{NodeAddress, NodeEvent, NodeInfo, NodeStatus};
use rayd::gcs::status::RpcCode;
use rayd::kernel::core_worker::{CoreWorker, FreeStep};
use rayd::kernel::id::ObjectId;
use rayd::kernel::metadata::Metadata;
use rayd::kernel::recovery::ObjectRecoverer;
use rayd::plasma::error::{PlasmaError, ServerErrorKind};
use rayd::raylet::client::{
    parse_locations, push_frames, should_evict, ObjectTransportClientError, PullReceiver,
    PulledObject,
};
use rayd::raylet::directory::ObjectDirectory;
use rayd::raylet::lifecycle::{lookup_label, Raylet, RayletConfig, RayletHandle};
use rayd::raylet::local_fs::{corrupt_io, LocalFsBackend};
use rayd::raylet::metrics::Metrics;
use rayd::raylet::node_index::{node_address_text, node_id_from_addr, NodeIndex, StatusTransition};
use rayd::raylet::object_manager::LocalObjectManager;
use rayd::raylet::owner_sink::{tell, SinkCall};
use rayd::raylet::service::{
    evict_delete_failed, evict_targets, first_get, plasma_to_status, pull_frames, push_sealed,
    resealed, restored, second_get, GetNext, ObjectTransportService, PullKind, PushKind,
    PushReceiver, PULL_CHUNK_SIZE,
};
use rayd::raylet::spill::{RestoredObject, SpillBackend, SpillError, SpillUrl};
use rayd::raylet::watch_nodes::{stream_failed, StreamOutcome, WatchAction, WatchState};

// The directory.

#[test]
fn register_is_idempotent() {
    let mut dir = ObjectDirectory::new();
    let oid = [1u8; 28];
    let nid = [2u8; 16];
    dir.register(oid, nid);
    dir.register(oid, nid);
    assert_eq!(dir.locations(&oid), vec![nid]);
}

#[test]
fn unknown_object_returns_empty() {
    let dir = ObjectDirectory::new();
    let oid = [9u8; 28];
    assert!(dir.locations(&oid).is_empty());
}

#[test]
fn multiple_holders_are_returned() {
    let mut dir = ObjectDirectory::new();
    let oid = [1u8; 28];
    dir.register(oid, [10u8; 16]);
    dir.register(oid, [11u8; 16]);
    let mut got = dir.locations(&oid);
    got.sort_unstable();
    assert_eq!(got, vec![[10u8; 16], [11u8; 16]]);
}

#[test]
fn the_last_holder_takes_the_entry_along() {
    let mut dir = ObjectDirectory::new();
    let oid = [1u8; 28];
    dir.register(oid, [10u8; 16]);
    dir.register(oid, [11u8; 16]);
    dir.remove(oid, [12u8; 16]);
    dir.remove(oid, [10u8; 16]);
    assert_eq!((dir.len(), dir.locations(&oid)), (1, vec![[11u8; 16]]));
    dir.remove(oid, [11u8; 16]);
    dir.remove(oid, [11u8; 16]);
    assert_eq!(dir.len(), 0);
}

#[test]
fn objects_do_not_mix() {
    let mut dir = ObjectDirectory::new();
    dir.register([1; 28], [10; 16]);
    dir.register([2; 28], [20; 16]);
    dir.remove([1; 28], [10; 16]);
    assert!(dir.locations(&[1; 28]).is_empty());
    assert_eq!(dir.locations(&[2; 28]), vec![[20; 16]]);
}

// The index of nodes.

fn info(node_id: [u8; 16], status: NodeStatus, host: &str) -> NodeInfo {
    NodeInfo {
        address: Some(NodeAddress {
            host: host.to_owned(),
            port: 60001,
            node_id: node_id.to_vec(),
            plasma_socket: String::new(),
        }),
        resources: None,
        status: status.code(),
        registered_at_unix_ms: 0,
        last_heartbeat_unix_ms: 0,
    }
}

/// An IPv4 address and a port.
fn resolve(text: &str) -> Option<([u8; 4], u16)> {
    let (host, port) = text.split_once(':')?;
    let parts: Vec<u8> = host.split('.').map(|p| p.parse().ok()).collect::<Option<_>>()?;
    Some((parts.try_into().ok()?, port.parse().ok()?))
}

fn apply(idx: &mut NodeIndex<([u8; 4], u16)>, info: &NodeInfo) -> StatusTransition {
    let addr = node_address_text(info).and_then(|t| resolve(&t));
    idx.apply_event(info, addr)
}

#[test]
fn first_seen_is_inserted_then_unchanged_then_changed() {
    let mut idx = NodeIndex::new();
    let nid = [42u8; 16];
    assert!(matches!(
        apply(&mut idx, &info(nid, NodeStatus::Alive, "10.0.0.1")),
        StatusTransition::Inserted(NodeStatus::Alive)
    ));
    assert_eq!(
        apply(&mut idx, &info(nid, NodeStatus::Alive, "10.0.0.1")),
        StatusTransition::Unchanged
    );
    assert_eq!(
        apply(&mut idx, &info(nid, NodeStatus::Dead, "10.0.0.1")),
        StatusTransition::Changed { from: NodeStatus::Alive, to: NodeStatus::Dead }
    );
}

#[test]
fn malformed_node_address_is_skipped() {
    let mut idx = NodeIndex::new();
    let mut bad = info([1u8; 16], NodeStatus::Alive, "10.0.0.2");
    bad.address = None;
    assert_eq!(apply(&mut idx, &bad), StatusTransition::Skipped);
    assert_eq!(idx.len(), 0);
}

#[test]
fn address_of_returns_socket_addr_after_apply() {
    let mut idx = NodeIndex::new();
    let nid = [7u8; 16];
    apply(&mut idx, &info(nid, NodeStatus::Alive, "127.0.0.1"));
    assert_eq!(idx.address_of(&nid), resolve("127.0.0.1:60001"));
    assert_eq!(idx.status_of(&nid), Some(NodeStatus::Alive));
}

#[test]
fn other_malformed_events_are_skipped() {
    let mut idx = NodeIndex::new();
    assert_eq!(
        apply(&mut idx, &info([1; 16], NodeStatus::Alive, "no-ip")),
        StatusTransition::Skipped
    );
    let mut port = info([1; 16], NodeStatus::Alive, "10.0.0.1");
    port.address.as_mut().unwrap().port = 70_000;
    assert_eq!(node_address_text(&port), None);
    assert_eq!(idx.apply_event(&port, resolve("10.0.0.1:1")), StatusTransition::Skipped);
    let mut short = info([1; 16], NodeStatus::Alive, "10.0.0.1");
    short.address.as_mut().unwrap().node_id = vec![1, 2];
    assert_eq!(apply(&mut idx, &short), StatusTransition::Skipped);
    assert_eq!(node_id_from_addr(short.address.as_ref().unwrap()), None);
    assert_eq!(idx.len(), 0);
}

#[test]
fn a_dead_node_is_reported_once() {
    let mut watch = WatchState::new();
    let mut idx = NodeIndex::new();
    let addr = resolve("10.0.0.1:60001");
    let event = |seq, status| NodeEvent {
        sequence: seq,
        node: Some(info([5; 16], status, "10.0.0.1")),
    };
    assert_eq!(watch.event(&mut idx, &event(4, NodeStatus::Alive), addr), None);
    assert_eq!(watch.event(&mut idx, &event(5, NodeStatus::Dead), addr), Some([5; 16]));
    assert_eq!(watch.event(&mut idx, &event(6, NodeStatus::Dead), addr), None);
    assert_eq!(watch.event(&mut idx, &event(2, NodeStatus::Alive), addr), None);
    assert_eq!(watch.event(&mut idx, &NodeEvent { sequence: 9, node: None }, addr), None);
    assert_eq!(watch.last_seen_sequence, 9);
}

#[test]
fn an_event_resets_the_backoff() {
    let mut watch = WatchState::new();
    let mut idx: NodeIndex<([u8; 4], u16)> = NodeIndex::new();
    for ms in [200, 400, 800] {
        assert_eq!(
            watch.subscribe_failed(RpcCode::Unavailable),
            WatchAction::SleepThenSubscribe(ms)
        );
    }
    assert_eq!(watch.event(&mut idx, &NodeEvent { sequence: 3, node: None }, None), None);
    assert_eq!(watch, WatchState { last_seen_sequence: 3, backoff_ms: 200 });
    assert_eq!(
        watch.stream_ended(stream_failed(RpcCode::Internal)),
        WatchAction::SleepThenSubscribe(200)
    );
}

#[test]
fn the_subscription_backs_off_and_starts_over() {
    let mut watch = WatchState::new();
    watch.last_seen_sequence = 7;
    let mut waits = Vec::new();
    for _ in 0..8 {
        match watch.subscribe_failed(RpcCode::Unavailable) {
            WatchAction::SleepThenSubscribe(ms) => waits.push(ms),
            other => panic!("{other:?}"),
        }
    }
    assert_eq!(waits, vec![200, 400, 800, 1600, 3200, 6400, 10_000, 10_000]);
    let mut lost = watch;
    assert_eq!(lost.subscribe_failed(RpcCode::OutOfRange), WatchAction::Subscribe);
    assert_eq!(lost, WatchState::new());
    assert_eq!(watch.stream_ended(StreamOutcome::CleanReset), WatchAction::Subscribe);
    assert_eq!((watch.backoff_ms, watch.last_seen_sequence), (200, 7));
    assert_eq!(
        watch.stream_ended(stream_failed(RpcCode::Unavailable)),
        WatchAction::SleepThenSubscribe(200)
    );
    assert_eq!(watch.stream_ended(stream_failed(RpcCode::OutOfRange)), WatchAction::Subscribe);
    assert_eq!(watch, WatchState::new());
    assert_eq!(watch.stream_ended(StreamOutcome::Shutdown), WatchAction::Stop);
}

// Spilled objects, on a disk in memory.

struct Disk {
    names: LocalFsBackend,
    files: BTreeMap<String, Vec<u8>>,
    seq: u64,
}

impl Disk {
    fn new() -> Self {
        Disk::with(BTreeMap::new())
    }

    fn with(files: BTreeMap<String, Vec<u8>>) -> Self {
        Disk { names: LocalFsBackend::new("/tmp/spill".to_owned()), files, seq: 0 }
    }
}

impl SpillBackend for Disk {
    fn spill(
        &mut self,
        object_id: [u8; 28],
        metadata: &[u8],
        data: &[u8],
    ) -> Result<SpillUrl, SpillError> {
        let path = self.names.path_for(&object_id);
        let tmp = self.names.tmp_path_for(&object_id, self.seq);
        self.seq += 1;
        let bytes = LocalFsBackend::file_bytes(&tmp, metadata, data)?;
        self.files.insert(tmp.clone(), bytes);
        let bytes = self.files.remove(&tmp).expect("written");
        self.files.insert(path.clone(), bytes);
        Ok(LocalFsBackend::url_for(&path))
    }

    fn restore(&mut self, url: &SpillUrl) -> Result<RestoredObject, SpillError> {
        let path = self.names.parse_url(url)?;
        match self.files.get(&path) {
            None => Err(LocalFsBackend::open_failed(url, true, "no such file".into())),
            Some(bytes) => LocalFsBackend::parse_file(url, bytes),
        }
    }

    fn remove(&mut self, url: &SpillUrl) -> Result<(), SpillError> {
        let path = self.names.parse_url(url)?;
        match self.files.remove(&path) {
            Some(_) => Ok(()),
            None => LocalFsBackend::remove_failed(true, "no such file".into()),
        }
    }
}

fn obj_id(seed: u8) -> [u8; 28] {
    let mut id = [0u8; 28];
    id[0] = seed;
    id
}

fn fixture() -> LocalObjectManager<Disk> {
    LocalObjectManager::new(Disk::new())
}

#[test]
fn empty_manager_reports_nothing_spilled() {
    let mgr = fixture();
    assert_eq!(mgr.spilled_count(), 0);
    assert!(!mgr.is_spilled(&obj_id(1)));
    assert!(mgr.spill_url(&obj_id(1)).is_none());
}

#[test]
fn spill_records_url_and_restores_round_trips() {
    let mut mgr = fixture();
    let metadata = b"meta".to_vec();
    let data = b"the payload".to_vec();

    let url = mgr.spill(obj_id(2), &metadata, &data).unwrap();
    assert_eq!(mgr.spilled_count(), 1);
    assert!(mgr.is_spilled(&obj_id(2)));
    assert_eq!(mgr.spill_url(&obj_id(2)).as_ref(), Some(&url));

    let restored = mgr.restore(&obj_id(2)).unwrap().unwrap();
    assert_eq!(restored.metadata, metadata);
    assert_eq!(restored.data, data);
}

#[test]
fn restore_unknown_object_is_none_not_error() {
    let mut mgr = fixture();
    assert!(mgr.restore(&obj_id(3)).unwrap().is_none());
}

#[test]
fn forget_drops_directory_entry_and_backend_file() {
    let mut mgr = fixture();
    mgr.spill(obj_id(4), b"m", b"d").unwrap();
    assert!(mgr.is_spilled(&obj_id(4)));

    mgr.forget(&obj_id(4)).unwrap();
    assert!(!mgr.is_spilled(&obj_id(4)));
    assert_eq!(mgr.spilled_count(), 0);
    assert!(mgr.restore(&obj_id(4)).unwrap().is_none());
}

#[test]
fn forget_unknown_is_idempotent() {
    let mut mgr = fixture();
    mgr.forget(&obj_id(5)).expect("forgetting an unknown oid is a no-op");
}

#[test]
fn re_spill_overwrites_directory_entry() {
    let mut mgr = fixture();
    let url1 = mgr.spill(obj_id(6), b"m1", b"d1").unwrap();
    let url2 = mgr.spill(obj_id(6), b"m2", b"d2").unwrap();
    assert_eq!(url1, url2);
    let restored = mgr.restore(&obj_id(6)).unwrap().unwrap();
    assert_eq!(restored.data, b"d2");
}

#[test]
fn multiple_objects_round_trip_independently() {
    let mut mgr = fixture();
    for i in 0..5u8 {
        mgr.spill(obj_id(10 + i), b"m", &vec![i; 16]).unwrap();
    }
    assert_eq!(mgr.spilled_count(), 5);
    for i in 0..5u8 {
        let restored = mgr.restore(&obj_id(10 + i)).unwrap().unwrap();
        assert_eq!(restored.data, vec![i; 16]);
    }
}

#[test]
fn restore_purges_stale_entry_on_not_found() {
    let mut mgr = fixture();
    let url = mgr.spill(obj_id(7), b"m", b"d").unwrap();
    // The file goes behind the manager's back: the entry stays, but points nowhere.
    mgr.forget(&obj_id(7)).unwrap();
    mgr.note_spill(obj_id(7), &Ok(url));
    assert!(mgr.is_spilled(&obj_id(7)));
    let err = mgr.restore(&obj_id(7)).unwrap_err();
    assert!(matches!(err, SpillError::NotFound { .. }), "got {err:?}");
    assert!(!mgr.is_spilled(&obj_id(7)));
}

#[test]
fn other_failures_keep_the_entry() {
    let mut mgr = fixture();
    let url = mgr.spill(obj_id(8), b"m", b"d").unwrap();
    mgr.note_restore(&obj_id(8), &Err(SpillError::Io("busy".into())));
    assert_eq!(mgr.spill_url(&obj_id(8)), Some(url.clone()));
    mgr.note_restore(&obj_id(8), &Err(corrupt_io(&url, "odd")));
    assert!(!mgr.is_spilled(&obj_id(8)));
    mgr.note_spill(obj_id(8), &Err(SpillError::Io("full".into())));
    assert!(!mgr.is_spilled(&obj_id(8)));
}

#[test]
fn a_manager_serves_a_worker() {
    let mut mgr = fixture();
    let id = ObjectId::from_bytes(obj_id(9));
    assert!(mgr.recover(&id).unwrap().is_none());
    mgr.store(&id, b"m", b"d").unwrap();
    let back = mgr.recover(&id).unwrap().unwrap();
    assert_eq!((back.metadata.as_slice(), back.data.as_slice()), (&b"m"[..], &b"d"[..]));
    mgr.note_spill(id.0, &Ok(SpillUrl("file:///etc/passwd".into())));
    let e = mgr.recover(&id).unwrap_err();
    assert_eq!(
        e.text(),
        "recoverer: spill restore: spill corruption at file:///etc/passwd: path is outside spill \
         root /tmp/spill"
    );
}

#[test]
fn spill_then_restore_round_trips() {
    let mut backend = Disk::new();
    let url = backend.spill(obj_id(1), b"meta-bytes", b"hello, plasma!").unwrap();
    assert!(url.as_str().starts_with("file://"));

    let restored = backend.restore(&url).unwrap();
    assert_eq!(restored.metadata, b"meta-bytes");
    assert_eq!(restored.data, b"hello, plasma!");
}

#[test]
fn spill_handles_empty_payloads() {
    let mut backend = Disk::new();
    let url = backend.spill(obj_id(2), b"", b"").unwrap();
    let restored = backend.restore(&url).unwrap();
    assert!(restored.metadata.is_empty());
    assert!(restored.data.is_empty());
}

#[test]
fn re_spill_overwrites() {
    let mut backend = Disk::new();
    let url1 = backend.spill(obj_id(3), b"m1", b"d1").unwrap();
    let url2 = backend.spill(obj_id(3), b"m2", b"d2").unwrap();
    assert_eq!(url1, url2, "same object_id maps to the same url");

    let restored = backend.restore(&url1).unwrap();
    assert_eq!(restored.metadata, b"m2");
    assert_eq!(restored.data, b"d2");
}

#[test]
fn remove_drops_the_file() {
    let mut backend = Disk::new();
    let url = backend.spill(obj_id(4), b"m", b"d").unwrap();
    backend.remove(&url).unwrap();
    let err = backend.restore(&url).unwrap_err();
    assert!(matches!(err, SpillError::NotFound { .. }), "got {err:?}");
}

#[test]
fn remove_is_idempotent_on_missing() {
    let mut backend = Disk::new();
    let path = backend.names.path_for(&obj_id(5));
    let url = LocalFsBackend::url_for(&path);
    backend.remove(&url).expect("removing an absent file is a no-op");
}

#[test]
fn restore_unknown_url_is_not_found() {
    let mut backend = Disk::new();
    let path = backend.names.path_for(&obj_id(6));
    let url = LocalFsBackend::url_for(&path);
    let err = backend.restore(&url).unwrap_err();
    assert!(matches!(err, SpillError::NotFound { .. }), "got {err:?}");
}

#[test]
fn url_outside_root_is_corrupt() {
    let mut backend = Disk::new();
    let url = SpillUrl("file:///etc/passwd".to_owned());
    let err = backend.restore(&url).unwrap_err();
    assert!(matches!(err, SpillError::Corrupt { .. }), "got {err:?}");
}

#[test]
fn truncated_file_is_corrupt() {
    let mut backend = Disk::new();
    let path = backend.names.path_for(&obj_id(7));
    backend.files.insert(path.clone(), vec![0u8; 2]);

    let url = LocalFsBackend::url_for(&path);
    let err = backend.restore(&url).unwrap_err();
    assert!(matches!(err, SpillError::Corrupt { .. }), "got {err:?}");
}

#[test]
fn re_open_finds_existing_spilled_objects() {
    let (url, files) = {
        let mut backend = Disk::new();
        let url = backend.spill(obj_id(8), b"meta", b"data").unwrap();
        (url, backend.files)
    };
    let mut backend2 = Disk::with(files);
    let restored = backend2.restore(&url).unwrap();
    assert_eq!(restored.data, b"data");
}

#[test]
fn file_names_and_layout() {
    let names = LocalFsBackend::new("/tmp/spill".to_owned());
    let hex = "07".to_owned() + &"00".repeat(27);
    assert_eq!(names.path_for(&obj_id(7)), format!("/tmp/spill/{hex}.spill"));
    assert_eq!(names.tmp_path_for(&obj_id(7), 12), format!("/tmp/spill/{hex}.spill.tmp.12"));
    assert_eq!(
        LocalFsBackend::new("/".to_owned()).path_for(&obj_id(7)),
        format!("/{hex}.spill")
    );
    let b = LocalFsBackend::file_bytes("-", b"mm", b"d").unwrap();
    assert_eq!(b, b"\x02\0\0\0mm\x01\0\0\0\0\0\0\0d");
    let url = SpillUrl::from("file:///tmp/spill/x".to_owned());
    let mut longer = b.clone();
    longer.push(9);
    assert_eq!(LocalFsBackend::parse_file(&url, &longer).unwrap().data, b"d");
    for n in 0..b.len() {
        let e = LocalFsBackend::parse_file(&url, &b[..n]).unwrap_err();
        assert_eq!(
            e.text(),
            "spill corruption at file:///tmp/spill/x: truncated or unreadable: failed to fill \
             whole buffer"
        );
    }
}

#[test]
fn urls_are_compared_by_path_components() {
    let names = LocalFsBackend::new("/tmp/spill".to_owned());
    let url = |s: &str| SpillUrl(s.to_owned());
    assert_eq!(names.parse_url(&url("file:///tmp/spill/a")).unwrap(), "/tmp/spill/a");
    assert!(names.parse_url(&url("file:///tmp//spill/./a")).is_ok());
    assert!(names.parse_url(&url("file:///tmp/spillage/a")).is_err());
    for path in [
        "/tmp/spill/../etc/passwd",
        "/tmp/spill/..",
        "/tmp//spill/../x",
        "/tmp/spill/a/../../b",
        "/tmp/spill/./../../../../..",
        "/tmp/spill/../spillage/a",
    ] {
        let e = names.parse_url(&url(&format!("file://{path}"))).unwrap_err();
        assert_eq!(
            e.text(),
            format!("spill corruption at file://{path}: path is outside spill root /tmp/spill")
        );
    }
    for path in [
        "/tmp/spill",
        "/tmp/spill/",
        "/tmp/spill/a/..",
        "/tmp/spill/a/../b",
        "/tmp/spill/a/b/../../c",
        "/tmp/spill/../spill/x",
    ] {
        assert_eq!(names.parse_url(&url(&format!("file://{path}"))).unwrap(), path);
    }
    let top = LocalFsBackend::new("/".to_owned());
    assert_eq!(top.parse_url(&url("file:///../etc")).unwrap(), "/../etc");
    assert!(top.parse_url(&url("file://etc")).is_err());
    let here = LocalFsBackend::new("./spill".to_owned());
    assert!(here.parse_url(&url("file://./spill//a/.")).is_ok());
    assert!(here.parse_url(&url("file://spill/a")).is_err());
    assert!(here.parse_url(&url("file://./spill/../../spill")).is_err());
    assert_eq!(names.parse_url(&url("file:///tmp/spill/..a/b..")).unwrap(), "/tmp/spill/..a/b..");
    assert_eq!(names.parse_url(&url("file:///tmp/spill/...")).unwrap(), "/tmp/spill/...");
    let e = names.parse_url(&url("/tmp/spill/a")).unwrap_err();
    assert_eq!(e.text(), "spill corruption at /tmp/spill/a: url missing file:// prefix");
    assert_eq!(
        LocalFsBackend::open_failed(&url("file://x"), true, "-".into()).text(),
        "spill url not found: file://x"
    );
    assert_eq!(
        LocalFsBackend::open_failed(&url("file://x"), false, "denied".into()).text(),
        "spill I/O: denied"
    );
    assert!(LocalFsBackend::remove_failed(false, "denied".into()).is_err());
}

// Transfers.

/// Shared memory, as far as transfers see it.
struct Node {
    plasma: BTreeMap<[u8; 28], (Vec<u8>, Vec<u8>)>,
    service: ObjectTransportService,
    manager: Option<LocalObjectManager<Disk>>,
}

impl Node {
    fn new(spill: bool) -> Self {
        Node {
            plasma: BTreeMap::new(),
            service: ObjectTransportService::new(),
            manager: spill.then(fixture),
        }
    }

    fn get(&self, id: &[u8; 28]) -> Result<(Vec<u8>, Vec<u8>), PlasmaError> {
        self.plasma.get(id).cloned().ok_or(PlasmaError::Server {
            kind: ServerErrorKind::NotFound,
            message: "no".into(),
        })
    }

    fn seal(&mut self, id: [u8; 28], metadata: &[u8], data: &[u8]) -> Result<(), PlasmaError> {
        if self.plasma.contains_key(&id) {
            return Err(PlasmaError::Server {
                kind: ServerErrorKind::AlreadyExists,
                message: "there".into(),
            });
        }
        self.plasma.insert(id, (metadata.to_vec(), data.to_vec()));
        Ok(())
    }

    fn pull(&mut self, id: &[u8]) -> Result<PulledObject, RpcCode> {
        let id = rayd::raylet::service::parse_object_id(id).map_err(|s| s.code)?;
        let object = match first_get(self.get(&id), self.manager.is_some()) {
            GetNext::Ready(o) => o,
            GetNext::Failed(s) => return Err(s.code),
            GetNext::Restore => {
                let r = self.manager.as_mut().expect("manager").restore(&id);
                let back = restored(r).map_err(|s| s.code)?;
                let sealed = self.seal(id, &back.metadata, &back.data);
                resealed(sealed).map_err(|s| s.code)?;
                second_get(self.get(&id)).map_err(|s| s.code)?
            }
        };
        let mut frames = pull_frames(&object.0, &object.1).into_iter();
        let mut receiver = PullReceiver::begin(frames.next().map(Some)).expect("metadata");
        for f in frames {
            receiver.frame(Some(f)).expect("data");
        }
        Ok(receiver.finish().expect("whole"))
    }

    fn push(&mut self, id: &[u8], metadata: &[u8], data: &[u8]) -> Result<(), RpcCode> {
        let mut frames = push_frames(id, metadata, data).into_iter();
        let mut receiver = PushReceiver::begin(frames.next().map(Some)).map_err(|s| s.code)?;
        for f in frames {
            receiver.frame(Some(f)).map_err(|s| s.code)?;
        }
        let o = receiver.finish().map_err(|s| s.code)?;
        let sealed = self.seal(o.object_id, &o.metadata, &o.data);
        push_sealed(sealed).map_err(|s| s.code)
    }
}

const SAMPLE_OID: [u8; 28] = [0x42; 28];

#[test]
fn pull_round_trips_a_sealed_object() {
    let mut h = Node::new(false);
    let payload = vec![0xABu8; 200_000];
    let metadata = b"sample-metadata".to_vec();
    h.seal(SAMPLE_OID, &metadata, &payload).unwrap();
    let pulled = h.pull(&SAMPLE_OID).expect("pull");
    assert_eq!(pulled.metadata, metadata);
    assert_eq!(pulled.data, payload);
}

#[test]
fn pull_unknown_object_returns_not_found() {
    let mut h = Node::new(false);
    assert_eq!(h.pull(&[0x77u8; 28]).unwrap_err(), RpcCode::NotFound);
}

#[test]
fn pull_handles_zero_byte_object() {
    let mut h = Node::new(false);
    h.seal(SAMPLE_OID, b"", b"").unwrap();
    let pulled = h.pull(&SAMPLE_OID).expect("pull");
    assert!(pulled.metadata.is_empty());
    assert!(pulled.data.is_empty());
}

#[test]
fn register_then_get_object_locations_round_trip() {
    let mut h = Node::new(false);
    assert!(h.service.get_object_locations(&SAMPLE_OID).expect("loc").is_empty());
    h.service.register_object(&SAMPLE_OID, &[1u8; 16]).expect("register-1");
    h.service.register_object(&SAMPLE_OID, &[2u8; 16]).expect("register-2");
    let (call, entries) =
        h.service.register_object(&SAMPLE_OID, &[1u8; 16]).expect("register-1-again");
    assert!(matches!(
        call,
        SinkCall::AddBorrower { object_id, borrower_node_id }
            if object_id == SAMPLE_OID && borrower_node_id == [1; 16]
    ));
    assert_eq!(entries, 1);
    let raw: Vec<Vec<u8>> = h
        .service
        .get_object_locations(&SAMPLE_OID)
        .expect("loc-after")
        .iter()
        .map(|n| n.to_vec())
        .collect();
    let mut locs = parse_locations(&raw).expect("reply");
    locs.node_ids.sort_unstable();
    assert_eq!(locs.node_ids, vec![[1u8; 16], [2u8; 16]]);
    assert!(matches!(
        h.service.wait_for_ref_removed(&SAMPLE_OID, &[1; 16]),
        Ok(SinkCall::RemoveBorrower { .. })
    ));
    assert_eq!(h.service.get_object_locations(&SAMPLE_OID).unwrap(), vec![[2u8; 16]]);
}

#[test]
fn push_seals_into_local_plasma_and_pull_returns_same_bytes() {
    let mut h = Node::new(false);
    let payload = vec![0xCDu8; 200_000];
    let metadata = b"pushed-meta".to_vec();
    h.push(&SAMPLE_OID, &metadata, &payload).expect("push");
    let pulled = h.pull(&SAMPLE_OID).expect("pull");
    assert_eq!(pulled.metadata, metadata);
    assert_eq!(pulled.data, payload);
}

#[test]
fn push_is_idempotent_when_object_already_sealed() {
    let mut h = Node::new(false);
    let payload = b"already-here".to_vec();
    let metadata = b"m".to_vec();
    h.seal(SAMPLE_OID, &metadata, &payload).unwrap();
    h.push(&SAMPLE_OID, &metadata, &payload).expect("push duplicate");
    assert_eq!(h.pull(&SAMPLE_OID).expect("pull").data, payload);
}

#[test]
fn push_handles_zero_byte_object() {
    let mut h = Node::new(false);
    h.push(&SAMPLE_OID, b"", b"").expect("push empty");
    let pulled = h.pull(&SAMPLE_OID).expect("pull");
    assert!(pulled.metadata.is_empty());
    assert!(pulled.data.is_empty());
}

#[test]
fn register_object_rejects_wrong_byte_lengths() {
    let mut h = Node::new(false);
    let e = h.service.register_object(&[0u8; 5], &[1u8; 16]).unwrap_err();
    assert_eq!(e.code, RpcCode::InvalidArgument);
    assert_eq!(e.message, "object_id must be 28 bytes, got 5");
    let e = h.service.wait_for_ref_removed(&SAMPLE_OID, &[1u8; 3]).unwrap_err();
    assert_eq!(e.message, "node_id must be 16 bytes, got 3");
    assert!(h.service.get_object_locations(&[1; 2]).is_err());
}

#[test]
fn pull_restores_spilled_object_when_plasma_misses() {
    let mut h = Node::new(true);
    let oid: [u8; 28] = [0x55; 28];
    let metadata = b"spilled-meta".to_vec();
    let payload = vec![0xCDu8; 200_000];
    let manager = h.manager.as_mut().unwrap();
    manager.spill(oid, &metadata, &payload).expect("spill");
    assert!(manager.is_spilled(&oid));
    let pulled = h.pull(&oid).expect("pull");
    assert_eq!(pulled.metadata, metadata);
    assert_eq!(pulled.data, payload);
    assert_eq!(h.pull(&oid).expect("pull again").data, payload);
}

#[test]
fn pull_restores_after_evicting_from_plasma() {
    let mut h = Node::new(true);
    let oid: [u8; 28] = [0xA1; 28];
    let metadata = b"evict-test-meta".to_vec();
    let payload = vec![0xEFu8; 50_000];
    h.seal(oid, &metadata, &payload).unwrap();
    let (m, d) = h.get(&oid).expect("get from plasma");
    h.manager.as_mut().unwrap().spill(oid, &m, &d).expect("spill");
    h.plasma.remove(&oid);
    assert!(h.get(&oid).unwrap_err().is(ServerErrorKind::NotFound));
    let pulled = h.pull(&oid).expect("pull after evict");
    assert_eq!(pulled.metadata, metadata);
    assert_eq!(pulled.data, payload);
    assert_eq!(h.get(&oid).expect("plasma should have it after restore").1, payload);
}

#[test]
fn pull_unknown_object_with_spill_manager_still_returns_not_found() {
    let mut h = Node::new(true);
    assert_eq!(h.pull(&[0x99u8; 28]).unwrap_err(), RpcCode::NotFound);
}

#[test]
fn payloads_are_cut_into_frames() {
    for (len, frames) in [(0, 0), (1, 1), (PULL_CHUNK_SIZE, 1), (PULL_CHUNK_SIZE + 1, 2)] {
        let got = pull_frames(b"m", &vec![1u8; len]);
        assert_eq!(got.len(), frames + 1, "{len}");
        assert_eq!(
            got[0],
            PullKind::Meta { metadata: b"m".to_vec(), data_size: len as u64 }
        );
    }
    let got = push_frames(&[7; 28], b"m", &vec![1u8; PULL_CHUNK_SIZE + 3]);
    assert_eq!(got[2], PushKind::Data(vec![1; 3]));
}

#[test]
fn faulty_push_streams_are_refused() {
    let header = |n| {
        Some(Some(PushKind::Header {
            object_id: vec![7; 28],
            metadata: vec![],
            data_size: n,
        }))
    };
    let message = |r: Result<PushReceiver, rayd::gcs::status::Status>| r.unwrap_err().message;
    assert_eq!(message(PushReceiver::begin(None)), "push stream closed before header");
    assert_eq!(message(PushReceiver::begin(Some(None))), "first push frame is empty");
    assert_eq!(
        message(PushReceiver::begin(Some(Some(PushKind::Data(vec![]))))),
        "first push frame must be a Header, got Data"
    );
    let mut p = PushReceiver::begin(header(3)).unwrap();
    assert_eq!(p.frame(None).unwrap_err().message, "received empty push frame");
    assert_eq!(
        p.frame(header(1).unwrap()).unwrap_err().message,
        "received second header frame mid-stream"
    );
    p.frame(Some(PushKind::Data(vec![1, 2]))).unwrap();
    assert_eq!(
        p.frame(Some(PushKind::Data(vec![3, 4]))).unwrap_err().message,
        "push data overran header.data_size: header said 3, received 2 so far + 2 more"
    );
    assert_eq!(
        p.finish().unwrap_err().message,
        "push short read: header promised 3 bytes, got 2"
    );
}

#[test]
fn faulty_pull_streams_are_refused() {
    let text = |e: ObjectTransportClientError| e.text();
    assert_eq!(
        text(PullReceiver::begin(None).unwrap_err()),
        "malformed reply: pull stream closed before metadata"
    );
    assert_eq!(
        text(PullReceiver::begin(Some(None)).unwrap_err()),
        "malformed reply: first pull frame must be metadata, got None"
    );
    assert_eq!(
        text(PullReceiver::begin(Some(Some(PullKind::Data(vec![1, 20, 255])))).unwrap_err()),
        format!(
            "malformed reply: first pull frame must be metadata, got Some(Data({:?}))",
            vec![1, 20, 255]
        )
    );
    let meta = || Some(PullKind::Meta { metadata: vec![], data_size: 2 });
    let mut p = PullReceiver::begin(Some(meta())).unwrap();
    assert_eq!(text(p.frame(None).unwrap_err()), "malformed reply: received empty pull frame");
    assert_eq!(
        text(p.frame(meta()).unwrap_err()),
        "malformed reply: received second metadata frame mid-stream"
    );
    p.frame(Some(PullKind::Data(vec![1, 2, 3]))).unwrap();
    assert_eq!(text(p.finish().unwrap_err()), "pull short read: expected 2 bytes, got 3");
    let e = parse_locations(&vec![vec![1; 16], vec![2; 4]]).unwrap_err();
    assert_eq!(text(e), "malformed reply: node_id must be 16 bytes, got 4");
}

#[test]
fn store_failures_become_statuses() {
    let server = |kind| PlasmaError::Server { kind, message: "m".into() };
    let s = plasma_to_status(&server(ServerErrorKind::NotSealed));
    assert_eq!(
        (s.code, s.message.as_str()),
        (RpcCode::FailedPrecondition, "object exists but is unsealed")
    );
    let s = plasma_to_status(&server(ServerErrorKind::OutOfMemory));
    assert_eq!(
        (s.code, s.message.as_str()),
        (RpcCode::Internal, "plasma: plasma server error: OutOfMemory: m")
    );
    assert!(push_sealed(Err(server(ServerErrorKind::AlreadyExists))).is_ok());
    assert!(push_sealed(Err(server(ServerErrorKind::OutOfMemory))).is_err());
    let s = restored(Ok(None)).unwrap_err();
    assert_eq!(s.message, "object not present in plasma or spill");
    let s = restored(Err(SpillError::Io("x".into()))).unwrap_err();
    assert_eq!((s.code, s.message.as_str()), (RpcCode::Internal, "spill restore: spill I/O: x"));
    assert!(!evict_delete_failed(&Err(server(ServerErrorKind::NotFound))));
    assert!(evict_delete_failed(&Err(server(ServerErrorKind::Internal))));
    assert!(matches!(
        first_get::<()>(Err(server(ServerErrorKind::NotSealed)), true),
        GetNext::Failed(_)
    ));
}

#[test]
fn evictions_are_checked_before_anything_goes() {
    let ids = evict_targets(&vec![vec![1; 28], vec![2; 28]]).unwrap();
    assert_eq!(ids, vec![[1; 28], [2; 28]]);
    let e = evict_targets(&vec![vec![1; 28], vec![2; 27], vec![3; 1]]).unwrap_err();
    assert_eq!(e.message, "object_id must be 28 bytes, got 27");
}

#[test]
fn dead_connections_are_evicted() {
    let rpc = |code| ObjectTransportClientError::Rpc(code, "x".into());
    assert!(should_evict(&rpc(RpcCode::Unavailable)));
    assert!(!should_evict(&rpc(RpcCode::NotFound)));
    assert!(!should_evict(&ObjectTransportClientError::Connect("x".into())));
}

#[test]
fn a_running_agent_notes_its_own_objects() {
    let joined = RegisterOutcome { node_id: [3; 16], cluster_session_id: [4; 16] };
    let mut agent: RayletHandle<u8> = Raylet::start(joined);
    assert_eq!((agent.node_id(), agent.cluster_session_id()), ([3; 16], [4; 16]));
    agent.register_self([1; 28]);
    assert_eq!(agent.transport.get_object_locations(&[1; 28]).unwrap(), vec![[3; 16]]);
    agent.deregister_self([1; 28]);
    assert!(agent.transport.get_object_locations(&[1; 28]).unwrap().is_empty());
    assert_eq!(lookup_label(&agent.node_status(&[3; 16])), "miss");
    agent.node_index.apply_event(&info([3; 16], NodeStatus::Alive, "10.0.0.1"), Some(0));
    assert_eq!(agent.node_status(&[3; 16]), Some(NodeStatus::Alive));
    assert_eq!(lookup_label(&agent.node_status(&[3; 16])), "hit");
    let config = RayletConfig::defaults();
    assert_eq!(config.gcs_address, "127.0.0.1:60000");
    assert_eq!(config.plasma_socket, "/tmp/rayd-raylet.sock");
    assert_eq!(config.heartbeat_interval_ms, 2_000);
}

#[test]
fn an_owner_is_told_of_borrowers() {
    let mut worker = CoreWorker::new_local();
    let id = ObjectId::for_return(&worker.next_task_id(), 0);
    worker.seal_value(id, Metadata::Raw, vec![1]);
    let add = SinkCall::AddBorrower { object_id: id.0, borrower_node_id: [8; 16] };
    assert_eq!(tell(&mut worker, add), FreeStep::Kept);
    assert_eq!(worker.dec_local_ref(id), FreeStep::Kept);
    let died = SinkCall::OwnerDied { dead_node_id: [8; 16] };
    assert_eq!(tell(&mut worker, died), FreeStep::Kept);
    let remove = SinkCall::RemoveBorrower { object_id: id.0, borrower_node_id: [8; 16] };
    assert_eq!(tell(&mut worker, remove), FreeStep::Freed { delete_from_plasma: false });
    assert!(worker.store().is_empty());
}

#[test]
fn the_agent_counts_what_it_serves() {
    let mut m = Metrics::new();
    m.pulled();
    m.pulled();
    m.pushed();
    m.registered(3);
    m.asked_for_locations();
    m.spill_restored();
    m.looked_up(true);
    m.looked_up(false);
    m.looked_up(false);
    let body = m.encode_text().expect("text");
    for line in [
        "rayd_raylet_pull_total 2",
        "rayd_raylet_push_total 1",
        "rayd_raylet_register_object_total 1",
        "rayd_raylet_get_object_locations_total 1",
        "rayd_raylet_spill_restore_total 1",
        "rayd_raylet_directory_entries 3",
        "rayd_node_index_status_lookups_total{outcome=\"hit\"} 1",
        "rayd_node_index_status_lookups_total{outcome=\"miss\"} 2",
    ] {
        assert!(body.contains(line), "{line}: {body}");
    }
    m.directory_holds(2);
    let body = m.encode_text().expect("text");
    assert!(body.contains("rayd_raylet_directory_entries 2\n"), "{body}");
    assert!(body.contains("rayd_raylet_register_object_total 1\n"), "{body}");
}
