//! The shared-memory store and the worker on top of it, with server and client in one
//! process: every message passes through its encoded form, and the arena is a plain region.

use rayd::kernel::core_worker::{
    deletion_outcome, CoreError, CoreWorker, FreeStep, ReadStep, RecoverStep, ResolveStep,
    ResolvedObject, SealStep, SpillOutcome, SpillPolicy, SpillRead, INLINE_THRESHOLD_BYTES,
};
use rayd::kernel::id::{ObjectId, WorkerId};
use rayd::kernel::metadata::{ErrorCategory, Metadata, RefState};
use rayd::kernel::recovery::{RecoveredObject, RecoveryError};
use rayd::kernel::store::StoredEntry;
use rayd::plasma::arena::{Arena, ArenaError};
use rayd::plasma::client::{ContainsResult, MapStep, PlasmaClient, ReadHandle, WriteHandle};
use rayd::plasma::codec::{decode, encode, MAX_FRAME_BYTES};
use rayd::plasma::connection::ends_quietly;
use rayd::plasma::error::{CodecError, PlasmaError, ServerErrorKind};
use rayd::plasma::frame::{frame, header_sent, parse_header, transfer_step, Direction, Transfer};
use rayd::plasma::metrics::{request_complete, serve_one, wants_metrics, Metrics};
use rayd::plasma::server::{malformed_response, Counter, PlasmaServer, Reply};
use rayd::plasma::wire::{AddressBlob, CreateRequest, Request, Response, SlotInfo};

struct Store {
    server: PlasmaServer,
    memory: Vec<u8>,
}

impl Store {
    fn start(capacity: u64) -> Self {
        let arena = Arena::create(0, capacity, "rayd_plasma").expect("arena");
        Store { server: PlasmaServer::new(arena), memory: vec![0u8; capacity as usize] }
    }

    fn ask(&mut self, request: Request) -> Reply {
        let served = self.server.serve(&self.memory, &encode(&request));
        let response = served.reply.map(|b| decode::<Response>(&b).expect("response"));
        Reply { response, attach_fd: served.attach_fd, metrics: served.metrics }
    }

    fn answer(&mut self, request: Request) -> Response {
        self.ask(request).response.expect("an answer")
    }
}

struct Client {
    inner: PlasmaClient,
}

impl Client {
    fn connect() -> Self {
        Client { inner: PlasmaClient::new() }
    }

    fn map(&mut self, info: &SlotInfo, fd: bool) -> Result<(), PlasmaError> {
        match self.inner.ensure_arena_mapped(info, fd)? {
            MapStep::Cached => {}
            MapStep::MapFd { len } => {
                assert_eq!(len as u64, info.arena_capacity);
                self.inner.arena_mapped(info.arena_id);
            }
        }
        Ok(())
    }

    fn create(
        &mut self,
        s: &mut Store,
        id: [u8; 28],
        metadata: &[u8],
        data: &[u8],
        owner: AddressBlob,
    ) -> Result<WriteHandle, PlasmaError> {
        let reply = s.ask(self.inner.create(id, metadata, data, owner));
        let fd = reply.attach_fd;
        let h = self.inner.created(id, reply.response.expect("answer"))?;
        self.map(h.info(), fd)?;
        h.write_metadata(&mut s.memory, metadata);
        h.write_data(&mut s.memory, data);
        Ok(h)
    }

    fn create_and_seal(
        &mut self,
        s: &mut Store,
        id: [u8; 28],
        metadata: &[u8],
        data: &[u8],
        owner: AddressBlob,
    ) -> Result<(), PlasmaError> {
        self.create(s, id, metadata, data, owner)?;
        let reply = s.answer(self.inner.seal(id));
        self.inner.sealed(reply)
    }

    fn get(&mut self, s: &mut Store, id: [u8; 28]) -> Result<ReadHandle, PlasmaError> {
        let reply = s.ask(self.inner.get(id));
        let fd = reply.attach_fd;
        let h = self.inner.got(id, reply.response.expect("answer"))?;
        self.map(h.info(), fd)?;
        Ok(h)
    }

    fn contains(&mut self, s: &mut Store, id: [u8; 28]) -> Result<ContainsResult, PlasmaError> {
        let reply = s.answer(self.inner.contains(id));
        self.inner.contained(reply)
    }

    fn delete(&mut self, s: &mut Store, id: [u8; 28]) -> Result<(), PlasmaError> {
        let reply = s.answer(self.inner.delete(id));
        self.inner.simple_command(reply)
    }

    fn list(&mut self, s: &mut Store) -> Result<Vec<[u8; 28]>, PlasmaError> {
        let reply = s.answer(self.inner.list());
        self.inner.listed(reply)
    }
}

#[test]
fn a_slot_is_filled_in_place() {
    let mut s = Store::start(4096);
    let mut client = Client::connect();
    let h = client.create(&mut s, [1; 28], b"meta", b"data-0", AddressBlob::nil()).expect("create");
    let before = s.memory.clone();
    assert_eq!(h.metadata_mut_slice(&mut s.memory), b"meta");
    assert_eq!(s.memory, before);
    h.metadata_mut_slice(&mut s.memory).copy_from_slice(b"ATEM");
    h.data_mut_slice(&mut s.memory)[5] = b'9';
    let changed = s.memory.iter().zip(&before).filter(|(a, b)| a != b).count();
    assert_eq!(changed, 5);
    let reply = s.answer(client.inner.seal([1; 28]));
    client.inner.sealed(reply).expect("seal");
    let read = client.get(&mut s, [1; 28]).expect("get");
    assert_eq!(read.metadata(&s.memory), b"ATEM");
    assert_eq!(read.data(&s.memory), b"data-9");
}

// The arena.

#[test]
fn alloc_advances_bump_with_alignment() {
    let mut arena = Arena::create(0, 1024, "rayd_test_arena").expect("create");
    let a = arena.allocate(7).expect("alloc 7");
    let b = arena.allocate(8).expect("alloc 8");
    assert_eq!(a, 0);
    assert_eq!(b, 16);
    assert_eq!(arena.used(), 24);
}

#[test]
fn alloc_fails_when_exhausted() {
    let mut arena = Arena::create(1, 64, "rayd_test_small").expect("create");
    let _ = arena.allocate(64).expect("alloc 64");
    assert!(matches!(arena.allocate(1), Err(ArenaError::OutOfMemory { .. })));
    assert!(matches!(
        arena.allocate(1),
        Err(ArenaError::OutOfMemory { requested: 1, remaining: 0 })
    ));
}

#[test]
fn capacity_and_remaining_track_bump() {
    let mut arena = Arena::create(2, 256, "rayd_test_capacity").expect("create");
    assert_eq!(arena.capacity(), 256);
    assert_eq!(arena.remaining(), 256);
    let _ = arena.allocate(100).expect("alloc 100");
    assert_eq!(arena.remaining(), 256 - 100);
    let _ = arena.allocate(8).expect("alloc 8");
    assert_eq!(arena.remaining(), 256 - 120);
}

#[test]
fn read_copy_returns_initial_zeros() {
    let arena = Arena::create(3, 64, "rayd_test_read").expect("create");
    let memory = vec![0u8; 64];
    let bytes = arena.read_copy(&memory, 0, 16);
    assert_eq!(bytes, vec![0u8; 16]);
}

#[test]
fn arena_names_and_sizes_are_checked() {
    assert!(matches!(Arena::create(0, 8, "a\0b"), Err(ArenaError::InvalidName(n)) if n == "a\0b"));
    assert!(matches!(Arena::create(0, u64::MAX, "a"), Err(ArenaError::Nix(22))));
    assert_eq!(ArenaError::Nix(22).text(), "arena syscall: EINVAL: Invalid argument");
    assert_eq!(ArenaError::Io("x".into()).text(), "arena io: x");
    assert_eq!(ArenaError::InvalidName("n".into()).text(), "arena name contained NUL: n");
    assert_eq!(
        ArenaError::OutOfMemory { requested: 9, remaining: 2 }.text(),
        "arena out of memory: requested 9 bytes, only 2 remaining"
    );
    let arena = Arena::create(77, 8, "a").expect("create");
    assert_eq!(arena.id(), 77);
}

#[test]
fn a_huge_request_is_refused_without_overflow() {
    let mut arena = Arena::create(0, 64, "a").expect("create");
    arena.allocate(8).expect("alloc");
    assert!(matches!(arena.allocate(u64::MAX), Err(ArenaError::OutOfMemory { .. })));
    assert_eq!(arena.used(), 8);
}

// Messages.

#[test]
fn create_request_round_trips() {
    let req = Request::Create(CreateRequest {
        object_id: [7u8; 28],
        metadata_size: 4,
        data_size: 1024,
        owner: AddressBlob::new("h".into(), 9, [0xab; 16]),
    });
    let decoded: Request = decode(&encode(&req)).expect("decode");
    match decoded {
        Request::Create(c) => {
            assert_eq!(c.object_id, [7u8; 28]);
            assert_eq!(c.metadata_size, 4);
            assert_eq!(c.data_size, 1024);
            assert_eq!(c.owner.host, "h");
            assert_eq!(c.owner.port, 9);
            assert_eq!(c.owner.worker_id, [0xab; 16]);
        }
        other => panic!("{other:?}"),
    }
}

#[test]
fn slot_info_round_trips_via_response() {
    let info = SlotInfo {
        arena_id: 0,
        arena_capacity: 1 << 20,
        metadata_offset: 0,
        metadata_size: 2,
        data_offset: 16,
        data_size: 100,
        sealed: true,
    };
    let decoded: Response = decode(&encode(&Response::Got(info))).expect("decode");
    assert!(matches!(decoded, Response::Got(i) if i == info));
}

#[test]
fn list_response_with_many_ids_round_trips() {
    let ids: Vec<[u8; 28]> = (0u8..16u8).map(|i| [i; 28]).collect();
    let decoded: Response =
        decode(&encode(&Response::Listed { object_ids: ids.clone() })).expect("decode");
    assert!(matches!(decoded, Response::Listed { object_ids } if object_ids == ids));
}

#[test]
fn every_message_round_trips() {
    for r in [
        Request::Seal { object_id: [1; 28] },
        Request::Get { object_id: [2; 28] },
        Request::Contains { object_id: [3; 28] },
        Request::Release { object_id: [4; 28] },
        Request::Delete { object_id: [5; 28] },
        Request::List,
        Request::Disconnect,
    ] {
        let back: Request = decode(&encode(&r)).expect("decode");
        assert_eq!(format!("{back:?}"), format!("{r:?}"));
    }
    for r in [
        Response::Done,
        Response::Contains { present: false, metadata: None, sealed: false },
        Response::Contains { present: true, metadata: Some(vec![1, 2, 3]), sealed: true },
        Response::Error { kind: ServerErrorKind::NotSealed, message: "grüße".into() },
    ] {
        let back: Response = decode(&encode(&r)).expect("decode");
        assert_eq!(format!("{back:?}"), format!("{r:?}"));
    }
}

#[test]
fn wire_form_is_that_of_bincode() {
    // A tag of 4 bytes, then the fields, all numbers with fixed width in little-endian order.
    assert_eq!(encode(&Request::List), [6, 0, 0, 0]);
    let seal = encode(&Request::Seal { object_id: [9; 28] });
    assert_eq!(seal[..4], [1, 0, 0, 0]);
    assert_eq!(seal[4..], [9u8; 28]);
    let create = encode(&Request::Create(CreateRequest {
        object_id: [7; 28],
        metadata_size: 1,
        data_size: 258,
        owner: AddressBlob::new("ab".into(), 513, [3; 16]),
    }));
    let mut want = vec![0, 0, 0, 0];
    want.extend_from_slice(&[7; 28]);
    want.extend_from_slice(&[1, 0, 0, 0, 0, 0, 0, 0]);
    want.extend_from_slice(&[2, 1, 0, 0, 0, 0, 0, 0]);
    want.extend_from_slice(&[2, 0, 0, 0, 0, 0, 0, 0]);
    want.extend_from_slice(b"ab");
    want.extend_from_slice(&[1, 2]);
    want.extend_from_slice(&[3; 16]);
    assert_eq!(create, want);
}

#[test]
fn broken_messages_are_refused() {
    let cut = decode::<Request>(&[1, 0, 0, 0, 9]);
    assert!(matches!(cut, Err(CodecError::UnexpectedEnd { .. })), "{cut:?}");
    let unknown = decode::<Request>(&[200, 0, 0, 0]);
    assert!(matches!(unknown, Err(CodecError::UnexpectedVariant { found: 200, .. })), "{unknown:?}");
    let mut bad_text = encode(&Response::Error {
        kind: ServerErrorKind::Internal,
        message: "ab".into(),
    });
    let last = bad_text.len() - 1;
    bad_text[last] = 0xff;
    let r = decode::<Response>(&bad_text);
    assert!(matches!(r, Err(CodecError::Utf8 { .. })), "{r:?}");
    let bad_flag = {
        let mut b = encode(&Response::Contains { present: true, metadata: None, sealed: true });
        b[4] = 7;
        decode::<Response>(&b)
    };
    assert!(matches!(bad_flag, Err(CodecError::InvalidBooleanValue(7))), "{bad_flag:?}");
    match malformed_response(&cut.unwrap_err()) {
        Response::Error { kind: ServerErrorKind::Internal, message } => {
            assert!(message.starts_with("malformed request: "), "{message}");
        }
        other => panic!("{other:?}"),
    }
}

#[test]
fn a_broken_frame_is_answered_and_changes_nothing() {
    let mut s = Store::start(4096);
    let served = s.server.serve(&s.memory, &[9, 9]);
    assert!(!served.attach_fd);
    match decode::<Response>(&served.reply.expect("an answer")).expect("response") {
        Response::Error { kind: ServerErrorKind::Internal, message } => {
            assert_eq!(message, "malformed request: UnexpectedEnd { additional: 2 }");
        }
        other => panic!("{other:?}"),
    }
    assert!(s.server.serve(&s.memory, &encode(&Request::Disconnect)).reply.is_none());
    assert!(ends_quietly(&PlasmaError::Io("eof".into()), true));
    assert!(!ends_quietly(&PlasmaError::Io("reset".into()), false));
    assert!(ends_quietly(&PlasmaError::Protocol("x".into()), false));
}

#[test]
fn frames_carry_their_length() {
    let f = frame(b"hello").expect("frame");
    assert_eq!(f, b"\x05\0\0\0hello");
    assert_eq!(parse_header(&f[..4], 4).expect("header"), 5);
    assert!(parse_header(&[0xff, 0xff, 0xff, 0xff], 4).is_err());
    let over = (MAX_FRAME_BYTES + 1) as u32;
    assert!(matches!(parse_header(&over.to_le_bytes(), 4), Err(PlasmaError::Protocol(_))));
    assert!(header_sent(4).is_ok());
    assert_eq!(
        header_sent(3).unwrap_err().text(),
        "plasma protocol mismatch: short header send: wrote 3 bytes, expected 4"
    );
    assert_eq!(
        parse_header(&[1, 2], 2).unwrap_err().text(),
        "plasma protocol mismatch: short header recv: read 2 bytes, expected 4"
    );
    assert!(matches!(transfer_step(Direction::Recv, 5, 0, Some(5)), Transfer::Complete));
    assert!(matches!(transfer_step(Direction::Recv, 5, 0, Some(3)), Transfer::Continue(3)));
    assert!(matches!(transfer_step(Direction::Send, 5, 3, None), Transfer::Continue(3)));
    match transfer_step(Direction::Recv, 5, 1, Some(0)) {
        Transfer::Closed(e) => {
            assert_eq!(e.text(), "plasma protocol mismatch: EOF mid-body during recv");
        }
        other => panic!("{other:?}"),
    }
}

// Server and client.

#[test]
fn create_seal_get_round_trip() {
    let mut s = Store::start(1 << 20);
    let mut client = Client::connect();
    let id = [42u8; 28];
    client
        .create_and_seal(&mut s, id, b"\x01", b"hello world", AddressBlob::nil())
        .expect("create+seal");
    let h = client.get(&mut s, id).expect("get");
    assert_eq!(h.metadata(&s.memory), b"\x01");
    assert_eq!(h.data(&s.memory), b"hello world");
}

#[test]
fn contains_reports_presence_and_metadata() {
    let mut s = Store::start(1 << 20);
    let mut client = Client::connect();
    let id = [9u8; 28];

    let absent = client.contains(&mut s, id).expect("contains");
    assert!(!absent.present);

    client
        .create_and_seal(&mut s, id, b"\x02\x01", b"x", AddressBlob::nil())
        .expect("create+seal");

    let present = client.contains(&mut s, id).expect("contains");
    assert!(present.present);
    assert!(present.sealed);
    assert_eq!(present.metadata.as_deref(), Some(&b"\x02\x01"[..]));
}

#[test]
fn contains_hides_metadata_before_the_seal() {
    let mut s = Store::start(1 << 20);
    let mut client = Client::connect();
    client.create(&mut s, [9; 28], b"\x02", b"x", AddressBlob::nil()).expect("create");
    let r = client.contains(&mut s, [9; 28]).expect("contains");
    assert!(r.present && !r.sealed && r.metadata.is_none());
}

#[test]
fn get_before_seal_errors() {
    let mut s = Store::start(1 << 20);
    let mut client = Client::connect();
    let id = [3u8; 28];
    let _h = client.create(&mut s, id, b"\x01", b"abc", AddressBlob::nil()).expect("create");
    match client.get(&mut s, id) {
        Err(PlasmaError::Server { kind: ServerErrorKind::NotSealed, .. }) => {}
        other => panic!("expected NotSealed, got {other:?}"),
    }
}

#[test]
fn duplicate_create_errors() {
    let mut s = Store::start(1 << 20);
    let mut client = Client::connect();
    let id = [4u8; 28];
    let _h = client.create(&mut s, id, b"\x01", b"a", AddressBlob::nil()).expect("first create");
    match client.create(&mut s, id, b"\x01", b"b", AddressBlob::nil()) {
        Err(PlasmaError::Server { kind: ServerErrorKind::AlreadyExists, .. }) => {}
        other => panic!("expected AlreadyExists, got {other:?}"),
    }
}

#[test]
fn list_reports_known_ids() {
    let mut s = Store::start(1 << 20);
    let mut client = Client::connect();
    let a = [5u8; 28];
    let b = [6u8; 28];
    client.create_and_seal(&mut s, a, b"\x01", b"a", AddressBlob::nil()).expect("a");
    client.create_and_seal(&mut s, b, b"\x01", b"b", AddressBlob::nil()).expect("b");
    let mut listed = client.list(&mut s).expect("list");
    listed.sort_unstable();
    let mut want = vec![a, b];
    want.sort_unstable();
    assert_eq!(listed, want);
}

#[test]
fn delete_removes_object() {
    let mut s = Store::start(1 << 20);
    let mut client = Client::connect();
    let id = [7u8; 28];
    client.create_and_seal(&mut s, id, b"\x01", b"v", AddressBlob::nil()).expect("create+seal");
    client.delete(&mut s, id).expect("delete");
    let r = client.contains(&mut s, id).expect("contains");
    assert!(!r.present);
}

#[test]
fn out_of_memory_returns_typed_error() {
    let mut s = Store::start(4096);
    let mut client = Client::connect();
    match client.create(&mut s, [0u8; 28], b"\x01", &vec![0u8; 1 << 20], AddressBlob::nil()) {
        Err(PlasmaError::Server { kind: ServerErrorKind::OutOfMemory, .. }) => {}
        other => panic!("expected OutOfMemory, got {other:?}"),
    }
}

#[test]
fn many_clients_share_arena_and_data() {
    let mut s = Store::start(1 << 20);
    let mut writer = Client::connect();
    let mut reader = Client::connect();

    let id = [11u8; 28];
    let payload = vec![0xABu8; 64 * 1024];
    writer
        .create_and_seal(&mut s, id, b"\x01", &payload, AddressBlob::nil())
        .expect("create+seal");

    let h = reader.get(&mut s, id).expect("get");
    assert_eq!(h.data(&s.memory).len(), payload.len());
    assert_eq!(h.data(&s.memory), payload.as_slice());
}

#[test]
fn capacity_is_reported() {
    let s = Store::start(16384);
    assert_eq!(s.server.capacity(), 16384);
    assert_eq!(s.server.used_bytes(), 0);
}

#[test]
fn sealing_twice_or_nothing_is_refused() {
    let mut s = Store::start(4096);
    let mut client = Client::connect();
    client.create_and_seal(&mut s, [1; 28], b"m", b"d", AddressBlob::nil()).expect("seal");
    let again = s.answer(Request::Seal { object_id: [1; 28] });
    assert!(matches!(again, Response::Error { kind: ServerErrorKind::AlreadySealed, .. }));
    let none = s.answer(Request::Seal { object_id: [2; 28] });
    assert!(matches!(none, Response::Error { kind: ServerErrorKind::NotFound, .. }));
    assert!(s.ask(Request::Disconnect).response.is_none());
}

#[test]
fn wrong_answers_are_protocol_errors() {
    let client = PlasmaClient::new();
    match client.got([0; 28], Response::Done) {
        Err(PlasmaError::Protocol(m)) => assert_eq!(m, "unexpected reply to Get: Ok"),
        other => panic!("{other:?}"),
    }
    assert_eq!(
        Response::Error { kind: ServerErrorKind::NotFound, message: "no \"x\"\n".into() }.text(),
        r#"Error { kind: NotFound, message: "no \"x\"\n" }"#
    );
    match client.sealed(Response::Error { kind: ServerErrorKind::Internal, message: "x".into() }) {
        Err(e) => assert_eq!(e.text(), "plasma server error: Internal: x"),
        Ok(()) => panic!("sealed"),
    }
    let info = SlotInfo {
        arena_id: 5,
        arena_capacity: 8,
        metadata_offset: 0,
        metadata_size: 0,
        data_offset: 0,
        data_size: 0,
        sealed: true,
    };
    assert!(matches!(client.ensure_arena_mapped(&info, false), Err(PlasmaError::MissingFd)));
    assert!(matches!(
        client.ensure_arena_mapped(&info, true),
        Ok(MapStep::MapFd { len: 8 })
    ));
}

#[test]
fn metrics_endpoint_counts_create_get_delete() {
    let mut s = Store::start(65536);
    let mut metrics = Metrics::new(s.server.capacity());
    let client = PlasmaClient::new();
    let (oid_a, oid_b): ([u8; 28], [u8; 28]) = ([0xA1; 28], [0xB2; 28]);
    for (id, data) in [(oid_a, b"the-payload-aaaa"), (oid_b, b"the-payload-bbbb")] {
        let r = s.ask(client.create(id, b"meta", data, AddressBlob::nil()));
        assert_eq!(r.metrics.counter, Some(Counter::Create));
        metrics.update(r.metrics);
        metrics.update(s.ask(client.seal(id)).metrics);
    }
    metrics.update(s.ask(client.get(oid_a)).metrics);
    metrics.update(s.ask(client.delete(oid_a)).metrics);

    let text = metrics.encode_text().expect("text");
    let response = serve_one(b"GET /metrics HTTP/1.0\r\n\r\n", Some(&text));
    let body = response.split_once("\r\n\r\n").map(|(_, b)| b.to_owned()).expect("body");

    assert!(body.contains("rayd_plasma_create_total 2"), "body = {body:?}");
    assert!(body.contains("rayd_plasma_get_total 1"), "body = {body:?}");
    assert!(body.contains("rayd_plasma_delete_total 1"), "body = {body:?}");
    assert!(body.contains("rayd_plasma_objects_total 1"), "body = {body:?}");
    assert!(body.contains("rayd_plasma_arena_bytes_total 65536"), "body = {body:?}");
    let used = format!("rayd_plasma_arena_bytes_used {}", s.server.used_bytes());
    assert!(body.contains(&used), "body = {body:?}");
}

#[test]
fn the_metrics_endpoint_answers_one_path() {
    let head = b"GET /metrics HTTP/1.0\r\nHost: x\r\n\r\n";
    assert!(request_complete(head, Some(4)));
    assert!(!request_complete(b"GET /metrics", Some(12)));
    assert!(request_complete(b"GET /met", Some(0)));
    assert!(wants_metrics(head));
    assert!(!wants_metrics(b"GET / HTTP/1.0\r\n\r\n"));
    let ok = serve_one(head, Some("body 1\n"));
    assert!(ok.starts_with("HTTP/1.0 200 OK\r\n"), "{ok}");
    assert!(ok.contains("Content-Length: 7\r\n"), "{ok}");
    assert!(ok.ends_with("\r\n\r\nbody 1\n"), "{ok}");
    let not_found = serve_one(b"GET / HTTP/1.0\r\n\r\n", Some("body"));
    assert!(not_found.starts_with("HTTP/1.0 404 Not Found\r\n"), "{not_found}");
    let failed = serve_one(head, None);
    assert!(failed.starts_with("HTTP/1.0 500 "), "{failed}");
}

// The worker.

struct Node {
    store: Store,
    client: Client,
    worker: CoreWorker,
    spilled: Vec<(ObjectId, Vec<u8>, Vec<u8>)>,
}

impl Node {
    fn start(capacity: u64) -> Self {
        let mut worker = CoreWorker::new_local();
        worker.connect_plasma();
        Node {
            store: Store::start(capacity),
            client: Client::connect(),
            worker,
            spilled: Vec::new(),
        }
    }

    fn next_id(&mut self) -> ObjectId {
        ObjectId::for_return(&self.worker.next_task_id(), 0)
    }

    fn seal_value(&mut self, id: ObjectId, metadata: Metadata, data: Vec<u8>) -> Result<(), CoreError> {
        let size = data.len() as u64;
        match self.worker.seal_value(id, metadata, data) {
            SealStep::Stored => Ok(()),
            SealStep::Write(w) => {
                let reply = self.client.create_and_seal(
                    &mut self.store,
                    w.object_id.0,
                    &w.metadata,
                    &w.data,
                    w.owner,
                );
                self.worker.value_sealed(id, metadata, size, reply).map(|_| ())
            }
        }
    }

    fn read(&mut self, id: ObjectId) -> Result<(Vec<u8>, Vec<u8>), PlasmaError> {
        let h = self.client.get(&mut self.store, id.0)?;
        Ok((h.metadata(&self.store.memory).to_vec(), h.data(&self.store.memory).to_vec()))
    }

    fn resolve(&mut self, id: ObjectId) -> Result<Option<ResolvedObject>, CoreError> {
        match self.worker.resolve_now(&id) {
            ResolveStep::Absent | ResolveStep::Wait => Ok(None),
            ResolveStep::Done(o) => Ok(Some(o)),
            ResolveStep::Failed(e) => Err(e),
            ResolveStep::ReadPlasma(index) => {
                let reply = self.read(id).map(|(_, data)| data);
                match self.worker.plasma_read(&id, &index, reply) {
                    ReadStep::Done(o) => Ok(Some(o)),
                    ReadStep::Failed(e) => Err(e),
                    ReadStep::AskRecoverer => {
                        let found = self.spilled.iter().find(|(k, _, _)| *k == id).map(
                            |(_, m, d)| RecoveredObject { metadata: m.clone(), data: d.clone() },
                        );
                        match self.worker.recover_and_reseal(&id, Ok(found)) {
                            RecoverStep::Failed(e) => Err(e),
                            RecoverStep::Reseal(w) => {
                                let owner = AddressBlob::new(
                                    w.owner.host.clone(),
                                    w.owner.port,
                                    w.owner.worker_id,
                                );
                                let reply = self.client.create_and_seal(
                                    &mut self.store,
                                    w.object_id.0,
                                    &w.metadata,
                                    &w.data,
                                    owner,
                                );
                                self.worker.resealed(&index, w, reply).map(Some)
                            }
                        }
                    }
                }
            }
        }
    }

    fn dec_local_ref(&mut self, id: ObjectId) -> Result<bool, CoreError> {
        match self.worker.dec_local_ref(id) {
            FreeStep::Kept => Ok(false),
            FreeStep::Freed { delete_from_plasma } => {
                let reply = if delete_from_plasma {
                    Some(self.client.delete(&mut self.store, id.0))
                } else {
                    None
                };
                self.worker.free_finished(reply)
            }
        }
    }
}

const PICKLE: Metadata = Metadata::Pickle5 { has_nested_refs: false };

#[test]
fn task_ids_are_monotonic_and_share_job_prefix() {
    let mut worker = CoreWorker::new_local();
    let a = worker.next_task_id();
    let b = worker.next_task_id();
    let c = worker.next_task_id();

    assert_eq!(&a.as_bytes()[..16], worker.job_id().as_bytes());
    assert_eq!(&b.as_bytes()[..16], worker.job_id().as_bytes());
    assert_eq!(&c.as_bytes()[..16], worker.job_id().as_bytes());

    assert_eq!(u64::from_le_bytes(a.as_bytes()[16..].try_into().expect("8 bytes")), 1);
    assert_eq!(u64::from_le_bytes(b.as_bytes()[16..].try_into().expect("8 bytes")), 2);
    assert_eq!(u64::from_le_bytes(c.as_bytes()[16..].try_into().expect("8 bytes")), 3);
}

#[test]
fn store_starts_empty() {
    let worker = CoreWorker::new_local();
    assert!(worker.store().is_empty());
}

#[test]
fn seal_below_threshold_goes_inline_when_plasma_present() {
    let mut node = Node::start(1 << 20);
    let id = node.next_id();
    node.seal_value(id, PICKLE, b"small".to_vec()).unwrap();
    assert!(node.worker.store().get_inline(&id).is_some());
}

#[test]
fn seal_above_threshold_routes_to_plasma() {
    let mut node = Node::start(1 << 22);
    let id = node.next_id();
    let big = vec![0xABu8; INLINE_THRESHOLD_BYTES * 2];
    node.seal_value(id, PICKLE, big.clone()).unwrap();
    assert!(node.worker.store().get_inline(&id).is_none());
    let entry = node.worker.store().get_entry(&id).expect("present");
    assert!(matches!(entry, StoredEntry::Plasma(_)));

    let resolved = node.resolve(id).unwrap().expect("resolved");
    assert_eq!(resolved.data, big);
}

#[test]
fn no_plasma_falls_back_to_inline_for_large() {
    let mut worker = CoreWorker::new_local();
    let id = ObjectId::for_return(&worker.next_task_id(), 0);
    let big = vec![1u8; INLINE_THRESHOLD_BYTES * 2];
    assert!(matches!(worker.seal_value(id, PICKLE, big), SealStep::Stored));
    assert!(worker.store().get_inline(&id).is_some());
}

#[test]
fn error_object_round_trips_via_plasma() {
    let mut node = Node::start(1 << 22);
    let id = node.next_id();
    let payload = vec![0u8; INLINE_THRESHOLD_BYTES * 2];
    node.seal_value(
        id,
        Metadata::Error { category: ErrorCategory::TaskException, raw_code: 7 },
        payload.clone(),
    )
    .unwrap();
    assert_eq!(node.worker.store().state_of(&id), RefState::Failed);
    let resolved = node.resolve(id).unwrap().expect("resolved");
    match resolved.metadata {
        Metadata::Error { category, raw_code } => {
            assert_eq!(category, ErrorCategory::TaskException);
            assert_eq!(raw_code, 7);
        }
        _ => panic!("expected Error metadata"),
    }
    assert_eq!(resolved.data, payload);
}

#[test]
fn seal_value_registers_owned_entry_in_ref_counter() {
    let mut worker = CoreWorker::new_local();
    let id = ObjectId::for_return(&worker.next_task_id(), 0);
    worker.seal_value(id, PICKLE, b"x".to_vec());
    let entry = worker.refs().snapshot(id).expect("tracked");
    assert_eq!(entry.local_count, 1);
}

#[test]
fn dec_local_ref_unpins_inline_object_and_clears_store() {
    let mut worker = CoreWorker::new_local();
    let id = ObjectId::for_return(&worker.next_task_id(), 0);
    worker.seal_value(id, PICKLE, b"x".to_vec());
    assert!(worker.store().get_entry(&id).is_some());
    assert_eq!(worker.dec_local_ref(id), FreeStep::Freed { delete_from_plasma: false });
    assert!(worker.store().get_entry(&id).is_none());
    assert!(worker.refs().snapshot(id).is_none());
}

#[test]
fn dec_local_ref_frees_plasma_object() {
    let mut node = Node::start(1 << 22);
    let id = node.next_id();
    let big = vec![0xABu8; INLINE_THRESHOLD_BYTES * 2];
    node.seal_value(id, PICKLE, big).unwrap();

    let mut probe = Client::connect();
    let contains_before = probe.contains(&mut node.store, *id.as_bytes()).unwrap();
    assert!(contains_before.present);

    node.dec_local_ref(id).unwrap();

    let contains_after = probe.contains(&mut node.store, *id.as_bytes()).unwrap();
    assert!(!contains_after.present);
    assert!(node.worker.refs().snapshot(id).is_none());
}

#[test]
fn clone_inc_then_two_decs_to_free() {
    let mut worker = CoreWorker::new_local();
    let id = ObjectId::for_return(&worker.next_task_id(), 0);
    worker.seal_value(id, PICKLE, b"x".to_vec());
    assert_eq!(worker.inc_local_ref(id), 2);
    worker.dec_local_ref(id);
    assert!(worker.store().get_entry(&id).is_some());
    worker.dec_local_ref(id);
    assert!(worker.store().get_entry(&id).is_none());
}

#[test]
fn dec_local_ref_does_not_free_while_borrower_holds() {
    let mut worker = CoreWorker::new_local();
    let id = ObjectId::for_return(&worker.next_task_id(), 0);
    worker.seal_value(id, PICKLE, b"x".to_vec());
    let borrower = WorkerId::random();
    worker.add_borrower_pin(id, borrower);

    worker.dec_local_ref(id);
    assert!(worker.store().get_entry(&id).is_some());
    assert!(worker.refs().snapshot(id).is_some());

    worker.remove_borrower_pin(id, borrower);
    assert!(worker.refs().snapshot(id).is_none());
}

#[test]
fn the_free_callback_is_called_after_a_good_deletion() {
    let mut node = Node::start(1 << 20);
    node.worker.set_free_callback();
    let id = node.next_id();
    node.seal_value(id, PICKLE, b"inline".to_vec()).unwrap();
    assert!(node.dec_local_ref(id).unwrap());
    let failed = node.worker.free_finished(Some(Err(PlasmaError::Io("gone".into()))));
    assert_eq!(failed.unwrap_err().text(), "plasma: plasma I/O: gone");
    let not_found = PlasmaError::Server { kind: ServerErrorKind::NotFound, message: "-".into() };
    assert!(deletion_outcome(Err(not_found)).is_ok());
}

#[test]
fn a_spilled_object_is_read_back() {
    let mut node = Node::start(1 << 22);
    node.worker.set_recoverer();
    let id = node.next_id();
    let big = vec![0x5Au8; INLINE_THRESHOLD_BYTES + 1];
    node.seal_value(id, PICKLE, big.clone()).unwrap();

    node.worker.spill_to_recoverer(id).expect("may spill");
    let reply = node.read(id);
    match node.worker.spill_read(id, reply) {
        SpillRead::Store { metadata, data } => node.spilled.push((id, metadata, data)),
        other => panic!("{other:?}"),
    }
    assert!(node.worker.spill_stored(id, Ok(())).is_ok());
    let reply = node.client.delete(&mut node.store, id.0);
    assert!(node.worker.spill_deleted(id, reply).is_ok());
    assert!(!node.client.contains(&mut node.store, id.0).unwrap().present);

    let resolved = node.resolve(id).unwrap().expect("resolved");
    assert_eq!(resolved.data, big);
    assert!(node.client.contains(&mut node.store, id.0).unwrap().present);
}

#[test]
fn a_lost_object_is_an_error() {
    let mut node = Node::start(1 << 22);
    let id = node.next_id();
    node.seal_value(id, PICKLE, vec![1; INLINE_THRESHOLD_BYTES + 1]).unwrap();
    node.client.delete(&mut node.store, id.0).unwrap();
    assert!(node.resolve(id).is_err());
    node.worker.set_recoverer();
    let e = node.resolve(id).unwrap_err();
    assert_eq!(
        e.text(),
        format!(
            "plasma: plasma server error: NotFound: object {} not in plasma and not held by any \
             recoverer",
            id.hex()
        )
    );
    let failed = node.worker.recover_and_reseal(&id, Err(RecoveryError::Other("disk".into())));
    match failed {
        RecoverStep::Failed(e) => {
            assert_eq!(e.text(), format!("recovery failed for {}: disk", id.hex()));
        }
        other => panic!("{other:?}"),
    }
}

#[test]
fn spilling_goes_on_until_usage_is_low_enough() {
    let mut node = Node::start(1 << 22);
    node.worker.set_recoverer();
    node.worker.set_spill_policy(SpillPolicy { budget_bytes: 1000, threshold_bytes: 300_000 });
    let mut ids = Vec::new();
    for _ in 0..4 {
        let id = node.next_id();
        node.seal_value(id, PICKLE, vec![7; INLINE_THRESHOLD_BYTES + 1]).unwrap();
        ids.push(id);
    }
    let mut run = node.worker.maybe_spill_for_pressure().expect("over the threshold");
    let mut seen = Vec::new();
    while let Some(id) = run.victim() {
        seen.push(id);
        run.report(SpillOutcome::Spilled);
    }
    assert_eq!(run.spilled(), seen.len());
    assert!(!seen.is_empty() && seen.len() < ids.len(), "{}", seen.len());
}

#[test]
fn spilled_data_does_not_count_until_it_is_back() {
    let mut node = Node::start(1 << 22);
    node.worker.set_recoverer();
    node.worker.set_spill_policy(SpillPolicy { budget_bytes: 400_000, threshold_bytes: 150_000 });
    let big = vec![7u8; INLINE_THRESHOLD_BYTES + 1];
    let (a, b) = (node.next_id(), node.next_id());
    node.seal_value(a, PICKLE, big.clone()).unwrap();
    assert!(node.worker.maybe_spill_for_pressure().is_none());
    node.seal_value(b, PICKLE, big.clone()).unwrap();

    let mut run = node.worker.maybe_spill_for_pressure().expect("over the threshold");
    let victim = run.victim().expect("a victim");
    let reply = node.read(victim);
    match node.worker.spill_read(victim, reply) {
        SpillRead::Store { metadata, data } => node.spilled.push((victim, metadata, data)),
        other => panic!("{other:?}"),
    }
    let failed = node.worker.spill_deleted(victim, Err(PlasmaError::Io("gone".into())));
    assert_eq!(failed.unwrap_err().text(), "plasma: plasma I/O: gone");
    assert_eq!(node.worker.store().resident_entries().len(), 2);
    let reply = node.client.delete(&mut node.store, victim.0);
    node.worker.spill_deleted(victim, reply).expect("deleted");
    run.report(SpillOutcome::Spilled);
    assert_eq!((run.victim(), run.spilled()), (None, 1));

    // The pointers to both are kept, but only one counts.
    assert_eq!(node.worker.store().plasma_entries().len(), 2);
    assert_eq!(node.worker.store().resident_entries().len(), 1);
    assert!(node.worker.maybe_spill_for_pressure().is_none());

    // Reading it back seals it again.
    assert_eq!(node.resolve(victim).unwrap().expect("resolved").data, big);
    assert_eq!(node.worker.store().resident_entries().len(), 2);
    let run = node.worker.maybe_spill_for_pressure().expect("over the threshold again");
    assert!(run.victim().is_some());

    // What is gone from shared memory does not count either.
    node.client.delete(&mut node.store, a.0).unwrap();
    let reply = node.read(a);
    assert!(matches!(node.worker.spill_read(a, reply), SpillRead::Gone));
    assert_eq!(node.worker.store().resident_entries().len(), 1);
    node.worker.free(&[a, b]);
    assert!(node.worker.store().resident_entries().is_empty());
}

#[test]
fn only_forced_seals_look_at_pressure() {
    let mut node = Node::start(1 << 22);
    let id = node.next_id();
    let failed = || Err(CoreError::PlasmaUnavailable { object_id: "-".into() });
    let write = node.worker.seal_value_to_plasma(id, PICKLE, b"small".to_vec()).expect("write");
    assert!(write.looks_at_pressure(&Ok(5)));
    assert!(!write.looks_at_pressure(&failed()));
    match node.worker.seal_value(id, PICKLE, vec![0; INLINE_THRESHOLD_BYTES + 1]) {
        SealStep::Write(write) => {
            assert!(!write.looks_at_pressure(&Ok(5)));
            assert!(!write.looks_at_pressure(&failed()));
        }
        other => panic!("{other:?}"),
    }
    let found = RecoveredObject { metadata: PICKLE.encode(), data: vec![1] };
    match node.worker.recover_and_reseal(&id, Ok(Some(found))) {
        RecoverStep::Reseal(write) => assert!(!write.looks_at_pressure(&Ok(1))),
        other => panic!("{other:?}"),
    }
}
