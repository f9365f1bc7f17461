//! The server's side of the protocol: the table of objects and the answer to every
//! request.

use crate::plasma::arena;
use crate::plasma::arena::{out_of_memory_message, Arena, ArenaError, ArenaModel};
use crate::plasma::error::{CodecError, ServerErrorKind};
use crate::plasma::wire;
use crate::plasma::wire::{CreateRequest, Request, RequestModel, Response, ResponseModel, SlotInfo};
use crate::plasma::OBJECT_ALIGN;
use crate::util::prom;
use crate::util::prom::clamp;
use crate::util::table::Table;
use crate::util::text::concat2;
use vstd::prelude::*;

verus! {

/// Where an object is, and whether it is sealed.
#[derive(Debug, Clone, Copy, PartialEq, Eq, Structural)]
pub struct ObjectEntry {
    /// Where the metadata begins.
    pub metadata_offset: u64,
    /// Bytes of metadata.
    pub metadata_size: u64,
    /// Where the data begins.
    pub data_offset: u64,
    /// Bytes of data.
    pub data_size: u64,
    /// Whether the object is immutable.
    pub sealed: bool,
}

impl ObjectEntry {
    /// Where the object's bytes end.
    pub open spec fn end(self) -> int {
        self.data_offset + self.data_size
    }

    /// The entry's place is in order: aligned, the data behind the metadata.
    pub open spec fn placed(self) -> bool {
        &&& self.metadata_offset % OBJECT_ALIGN == 0
        &&& self.data_offset % OBJECT_ALIGN == 0
        &&& self.metadata_offset + self.metadata_size <= self.data_offset
    }
}

/// The mathematical content of a server.
#[verifier::ext_equal]
pub struct ServerModel {
    /// The arena.
    pub arena: ArenaModel,
    /// The objects.
    pub objects: Map<Seq<u8>, ObjectEntry>,
}

impl ServerModel {
    /// Two objects share no byte.
    pub open spec fn apart(a: ObjectEntry, b: ObjectEntry) -> bool {
        a.end() <= b.metadata_offset || b.end() <= a.metadata_offset
    }

    /// Every object lies inside what the arena has handed out, and no two share a byte.
    pub open spec fn wf(self) -> bool {
        &&& self.arena.wf()
        &&& forall|k: Seq<u8>| #[trigger]
            self.objects.contains_key(k) ==> self.objects[k].placed() && self.objects[k].end()
                <= self.arena.bump
        &&& forall|j: Seq<u8>, k: Seq<u8>|
            #![trigger self.objects[j], self.objects[k]]
            self.objects.contains_key(j) && self.objects.contains_key(k) && j != k
                ==> Self::apart(self.objects[j], self.objects[k])
    }

    /// The slot of an entry.
    pub open spec fn slot(self, e: ObjectEntry) -> SlotInfo {
        SlotInfo {
            arena_id: self.arena.id,
            arena_capacity: self.arena.capacity,
            metadata_offset: e.metadata_offset,
            metadata_size: e.metadata_size,
            data_offset: e.data_offset,
            data_size: e.data_size,
            sealed: e.sealed,
        }
    }

    /// The server with another bump pointer.
    pub open spec fn bumped(self, bump: u64) -> ServerModel {
        ServerModel { arena: ArenaModel { bump, ..self.arena }, ..self }
    }
}

/// The answer to a request for a new object, and the server behind it. The metadata and
/// the data are placed one after the other; where only the data does not fit, the room
/// for the metadata stays taken.
pub open spec fn create_step(m: ServerModel, id: Seq<u8>, metadata_size: u64, data_size: u64) -> (
    ServerModel,
    ResponseModel,
) {
    if m.objects.contains_key(id) {
        (m, ResponseModel::Error(ServerErrorKind::AlreadyExists, "object already created"@))
    } else {
        match arena::spec_alloc(m.arena.bump, m.arena.capacity, metadata_size) {
            Err((requested, remaining)) => (
                m,
                ResponseModel::Error(
                    ServerErrorKind::OutOfMemory,
                    arena::out_of_memory_text(requested, remaining),
                ),
            ),
            Ok(metadata_offset) => {
                let m1 = m.bumped((metadata_offset + metadata_size) as u64);
                match arena::spec_alloc(m1.arena.bump, m1.arena.capacity, data_size) {
                    Err((requested, remaining)) => (
                        m1,
                        ResponseModel::Error(
                            ServerErrorKind::OutOfMemory,
                            arena::out_of_memory_text(requested, remaining),
                        ),
                    ),
                    Ok(data_offset) => {
                        let e = ObjectEntry {
                            metadata_offset,
                            metadata_size,
                            data_offset,
                            data_size,
                            sealed: false,
                        };
                        let m2 = m1.bumped((data_offset + data_size) as u64);
                        (
                            ServerModel { objects: m.objects.insert(id, e), ..m2 },
                            ResponseModel::Created(m.slot(e)),
                        )
                    },
                }
            },
        }
    }
}

/// The answer to a request to seal an object, and the server behind it.
pub open spec fn seal_step(m: ServerModel, id: Seq<u8>) -> (ServerModel, ResponseModel) {
    if !m.objects.contains_key(id) {
        (m, ResponseModel::Error(ServerErrorKind::NotFound, "object not present"@))
    } else if m.objects[id].sealed {
        (m, ResponseModel::Error(ServerErrorKind::AlreadySealed, "object already sealed"@))
    } else {
        (
            ServerModel {
                objects: m.objects.insert(id, ObjectEntry { sealed: true, ..m.objects[id] }),
                ..m
            },
            ResponseModel::Done,
        )
    }
}

/// The answer to a request for the place of an object.
pub open spec fn get_answer(m: ServerModel, id: Seq<u8>) -> ResponseModel {
    if !m.objects.contains_key(id) {
        ResponseModel::Error(ServerErrorKind::NotFound, "not found"@)
    } else if !m.objects[id].sealed {
        ResponseModel::Error(ServerErrorKind::NotSealed, "object not yet sealed"@)
    } else {
        ResponseModel::Got(m.slot(m.objects[id]))
    }
}

/// The answer to the question whether an object is present; `memory` is the arena's
/// region. The metadata is told of sealed objects only.
pub open spec fn contains_answer(m: ServerModel, memory: Seq<u8>, id: Seq<u8>) -> ResponseModel {
    if !m.objects.contains_key(id) {
        ResponseModel::Contains(false, None, false)
    } else {
        let e = m.objects[id];
        ResponseModel::Contains(
            true,
            if e.sealed {
                Some(
                    memory.subrange(
                        e.metadata_offset as int,
                        e.metadata_offset + e.metadata_size,
                    ),
                )
            } else {
                None
            },
            e.sealed,
        )
    }
}

/// The server without an object.
pub open spec fn delete_step(m: ServerModel, id: Seq<u8>) -> ServerModel {
    ServerModel { objects: m.objects.remove(id), ..m }
}

/// Whether `r` lists every object once.
pub open spec fn lists(m: ServerModel, r: ResponseModel) -> bool {
    r matches ResponseModel::Listed(ids) && ids.no_duplicates() && ids.to_set() == m.objects.dom()
}

/// Whether a request leads from `m` to `n` with answer `r`; `memory` is the arena's
/// region. A request to close the connection has no answer.
pub open spec fn server_step(
    m: ServerModel,
    memory: Seq<u8>,
    request: RequestModel,
    n: ServerModel,
    r: Option<ResponseModel>,
) -> bool {
    match request {
        RequestModel::Create(c) => (n, r) == (
            create_step(m, c.object_id, c.metadata_size, c.data_size).0,
            Some(create_step(m, c.object_id, c.metadata_size, c.data_size).1),
        ),
        RequestModel::Seal(id) => (n, r) == (seal_step(m, id).0, Some(seal_step(m, id).1)),
        RequestModel::Get(id) => n == m && r == Some(get_answer(m, id)),
        RequestModel::Contains(id) => n == m && r == Some(contains_answer(m, memory, id)),
        RequestModel::Release(id) => n == delete_step(m, id) && r == Some(ResponseModel::Done),
        RequestModel::Delete(id) => n == delete_step(m, id) && r == Some(ResponseModel::Done),
        RequestModel::List => n == m && (r matches Some(l) && lists(m, l)),
        RequestModel::Disconnect => n == m && r is None,
    }
}

/// A counter of the server's metrics.
#[derive(Debug, Clone, Copy, PartialEq, Eq, Structural)]
pub enum Counter {
    /// Requests for new objects.
    Create,
    /// Requests for the place of an object.
    Get,
    /// Requests to remove an object.
    Delete,
}

/// What a request changes in the server's metrics.
#[derive(Debug, Clone, Copy, PartialEq, Eq, Structural)]
pub struct MetricsUpdate {
    /// The counter to increment.
    pub counter: Option<Counter>,
    /// The new number of objects.
    pub objects: Option<i64>,
    /// The new number of bytes handed out.
    pub arena_used: Option<i64>,
}

/// What a request changes in the metrics, from the request, the answer and the server
/// behind it.
pub open spec fn metrics_of(request: RequestModel, n: ServerModel, r: Option<ResponseModel>)
    -> MetricsUpdate {
    let settled = MetricsUpdate {
        counter: None,
        objects: Some(prom::clamped(n.objects.dom().len())),
        arena_used: Some(prom::clamped(n.arena.bump as nat)),
    };
    match request {
        RequestModel::Create(_) => if r matches Some(ResponseModel::Created(_)) {
            MetricsUpdate { counter: Some(Counter::Create), ..settled }
        } else {
            MetricsUpdate { counter: Some(Counter::Create), objects: None, arena_used: None }
        },
        RequestModel::Get(_) => MetricsUpdate {
            counter: Some(Counter::Get),
            objects: None,
            arena_used: None,
        },
        RequestModel::Release(_) => MetricsUpdate { counter: Some(Counter::Delete), ..settled },
        RequestModel::Delete(_) => MetricsUpdate { counter: Some(Counter::Delete), ..settled },
        _ => MetricsUpdate { counter: None, objects: None, arena_used: None },
    }
}

/// Whether the arena's file descriptor goes with an answer.
pub open spec fn attaches_fd(r: ResponseModel) -> bool {
    r is Created || r is Got
}

/// What the server does for a request.
#[derive(Debug)]
pub struct Reply {
    /// The answer; nothing where the connection is to be closed.
    pub response: Option<Response>,
    /// Whether the arena's file descriptor goes with it.
    pub attach_fd: bool,
    /// What changes in the metrics.
    pub metrics: MetricsUpdate,
}

/// An answer's content.
pub open spec fn answer(r: Option<Response>) -> Option<ResponseModel> {
    match r {
        None => None,
        Some(x) => Some(x@),
    }
}

/// The state of a server.
#[derive(Debug)]
pub struct PlasmaServer {
    arena: Arena,
    objects: Table<[u8; 28], ObjectEntry>,
}

impl View for PlasmaServer {
    type V = ServerModel;

    closed spec fn view(&self) -> ServerModel {
        ServerModel { arena: self.arena@, objects: self.objects@ }
    }
}

/// The answer that reports a failure.
pub fn err_response(kind: ServerErrorKind, message: &str) -> (r: Response)
    ensures
        r@ == ResponseModel::Error(kind, message@),
{
    Response::Error { kind, message: message.to_owned() }
}

/// The answer to a frame that holds no request.
pub fn malformed_response(e: &CodecError) -> (r: Response)
    ensures
        r@ == ResponseModel::Error(ServerErrorKind::Internal, "malformed request: "@ + e.spec_text()),
{
    let message = concat2("malformed request: ", e.text().as_str());
    Response::Error { kind: ServerErrorKind::Internal, message }
}

impl PlasmaServer {
    /// The table is well formed and so is the model.
    pub closed spec fn wf(&self) -> bool {
        self.objects.wf() && self@.wf()
    }

    /// A well-formed server has a well-formed model with finitely many objects.
    pub proof fn lemma_model(&self)
        requires
            self.wf(),
        ensures
            self@.wf(),
            self@.objects.dom().finite(),
    {
        self.objects.lemma_model();
    }

    /// A server without objects over the given arena.
    pub fn new(arena: Arena) -> (r: Self)
        requires
            arena@.wf(),
        ensures
            r.wf(),
            r@ == (ServerModel { arena: arena@, objects: Map::empty() }),
    {
        PlasmaServer { arena, objects: Table::new() }
    }

    /// Bytes handed out.
    pub fn used_bytes(&self) -> (r: u64)
        ensures
            r == self@.arena.bump,
    {
        self.arena.used()
    }

    /// Bytes of the arena.
    pub fn capacity(&self) -> (r: u64)
        ensures
            r == self@.arena.capacity,
    {
        self.arena.capacity()
    }

    fn slot_of(&self, e: &ObjectEntry) -> (r: SlotInfo)
        ensures
            r == self@.slot(*e),
    {
        SlotInfo {
            arena_id: self.arena.id(),
            arena_capacity: self.arena.capacity(),
            metadata_offset: e.metadata_offset,
            metadata_size: e.metadata_size,
            data_offset: e.data_offset,
            data_size: e.data_size,
            sealed: e.sealed,
        }
    }

    /// Makes room for a new object.
    pub fn handle_create(&mut self, req: &CreateRequest) -> (r: Response)
        requires
            old(self).wf(),
        ensures
            final(self).wf(),
            (final(self)@, r@) == create_step(
                old(self)@,
                req.object_id@,
                req.metadata_size,
                req.data_size,
            ),
    {
        if self.objects.contains_key(&req.object_id) {
            return err_response(ServerErrorKind::AlreadyExists, "object already created");
        }
        let metadata_size: u64 = req.metadata_size;
        let data_size: u64 = req.data_size;
        let metadata_offset: u64 = match self.arena.allocate(metadata_size) {
            Ok(o) => o,
            Err(e) => return out_of_memory(e),
        };
        let data_offset: u64 = match self.arena.allocate(data_size) {
            Ok(o) => o,
            Err(e) => {
                proof {
                    assert(self@.objects =~= old(self)@.objects);
                }
                return out_of_memory(e);
            },
        };
        let entry = ObjectEntry {
            metadata_offset,
            metadata_size,
            data_offset,
            data_size,
            sealed: false,
        };
        self.objects.insert(req.object_id, entry);
        proof {
            arena::law_alloc_fresh(
                old(self)@.arena.bump,
                old(self)@.arena.capacity,
                metadata_size,
                metadata_offset,
            );
            arena::law_alloc_fresh(
                (metadata_offset + metadata_size) as u64,
                old(self)@.arena.capacity,
                data_size,
                data_offset,
            );
            law_create_keeps_wf(old(self)@, req.object_id@, metadata_size, data_size);
        }
        Response::Created(self.slot_of(&entry))
    }

    /// Makes an object immutable.
    pub fn handle_seal(&mut self, object_id: &[u8; 28]) -> (r: Response)
        requires
            old(self).wf(),
        ensures
            final(self).wf(),
            (final(self)@, r@) == seal_step(old(self)@, object_id@),
    {
        let entry: ObjectEntry = match self.objects.get(object_id) {
            None => return err_response(ServerErrorKind::NotFound, "object not present"),
            Some(e) => *e,
        };
        if entry.sealed {
            return err_response(ServerErrorKind::AlreadySealed, "object already sealed");
        }
        let sealed = ObjectEntry {
            metadata_offset: entry.metadata_offset,
            metadata_size: entry.metadata_size,
            data_offset: entry.data_offset,
            data_size: entry.data_size,
            sealed: true,
        };
        self.objects.insert(*object_id, sealed);
        proof {
            assert(self@ =~= seal_step(old(self)@, object_id@).0);
            law_seal_keeps_wf(old(self)@, object_id@);
        }
        Response::Done
    }

    /// Where a sealed object is.
    pub fn handle_get(&self, object_id: &[u8; 28]) -> (r: Response)
        requires
            self.wf(),
        ensures
            r@ == get_answer(self@, object_id@),
    {
        match self.objects.get(object_id) {
            None => err_response(ServerErrorKind::NotFound, "not found"),
            Some(e) => if !e.sealed {
                err_response(ServerErrorKind::NotSealed, "object not yet sealed")
            } else {
                Response::Got(self.slot_of(e))
            },
        }
    }

    /// Whether an object is present, and its metadata where it is sealed.
    pub fn handle_contains(&self, memory: &[u8], object_id: &[u8; 28]) -> (r: Response)
        requires
            self.wf(),
            memory@.len() == self@.arena.capacity,
        ensures
            r@ == contains_answer(self@, memory@, object_id@),
    {
        match self.objects.get(object_id) {
            None => Response::Contains { present: false, metadata: None, sealed: false },
            Some(e) => {
                let metadata = if e.sealed {
                    Some(self.arena.read_copy(memory, e.metadata_offset, e.metadata_size))
                } else {
                    None
                };
                Response::Contains { present: true, metadata, sealed: e.sealed }
            },
        }
    }

    /// Removes an object; its room is not given back.
    pub fn handle_delete(&mut self, object_id: &[u8; 28]) -> (r: Response)
        requires
            old(self).wf(),
        ensures
            final(self).wf(),
            final(self)@ == delete_step(old(self)@, object_id@),
            r@ == ResponseModel::Done,
    {
        self.objects.remove(object_id);
        proof {
            assert(self@ =~= delete_step(old(self)@, object_id@));
        }
        Response::Done
    }

    /// All objects.
    pub fn handle_list(&self) -> (r: Response)
        requires
            self.wf(),
        ensures
            lists(self@, r@),
    {
        let mut ids: Vec<[u8; 28]> = Vec::new();
        let n: usize = self.objects.len();
        let mut i: usize = 0;
        assert(wire::ids_view(ids@) =~= self.objects.order().take(0));
        while i < n
            invariant
                self.wf(),
                n == self.objects.order().len(),
                i <= n,
                wire::ids_view(ids@) == self.objects.order().take(i as int),
            decreases n - i,
        {
            let id: [u8; 28] = *self.objects.key_at(i);
            let ghost before = ids@;
            ids.push(id);
            proof {
                assert(wire::ids_view(ids@) =~= wire::ids_view(before).push(id@));
                assert(self.objects.order().take(i + 1) =~= self.objects.order().take(
                    i as int,
                ).push(self.objects.order()[i as int]));
            }
            i += 1;
        }
        proof {
            assert(self.objects.order().take(n as int) =~= self.objects.order());
            self.objects.lemma_model();
        }
        Response::Listed { object_ids: ids }
    }

    /// Answers a request; `memory` is the arena's region.
    pub fn handle(&mut self, memory: &[u8], request: &Request) -> (r: Reply)
        requires
            old(self).wf(),
            memory@.len() == old(self)@.arena.capacity,
        ensures
            final(self).wf(),
            server_step(old(self)@, memory@, request@, final(self)@, answer(r.response)),
            r.attach_fd == (r.response matches Some(x) && attaches_fd(x@)),
            r.metrics == metrics_of(request@, final(self)@, answer(r.response)),
    {
        let none = MetricsUpdate { counter: None, objects: None, arena_used: None };
        match request {
            Request::Disconnect => Reply { response: None, attach_fd: false, metrics: none },
            Request::Create(req) => {
                let response = self.handle_create(req);
                let created = matches!(response, Response::Created(_));
                let metrics = if created {
                    MetricsUpdate {
                        counter: Some(Counter::Create),
                        objects: Some(clamp(self.objects.len() as u64)),
                        arena_used: Some(clamp(self.arena.used())),
                    }
                } else {
                    MetricsUpdate {
                        counter: Some(Counter::Create),
                        objects: None,
                        arena_used: None,
                    }
                };
                Reply { response: Some(response), attach_fd: created, metrics }
            },
            Request::Seal { object_id } => {
                let response = self.handle_seal(object_id);
                Reply { response: Some(response), attach_fd: false, metrics: none }
            },
            Request::Get { object_id } => {
                let response = self.handle_get(object_id);
                let attach_fd = matches!(response, Response::Got(_));
                let metrics = MetricsUpdate {
                    counter: Some(Counter::Get),
                    objects: None,
                    arena_used: None,
                };
                Reply { response: Some(response), attach_fd, metrics }
            },
            Request::Contains { object_id } => {
                let response = self.handle_contains(memory, object_id);
                Reply { response: Some(response), attach_fd: false, metrics: none }
            },
            Request::Release { object_id } => self.delete_reply(object_id),
            Request::Delete { object_id } => self.delete_reply(object_id),
            Request::List => {
                let response = self.handle_list();
                Reply { response: Some(response), attach_fd: false, metrics: none }
            },
        }
    }

    fn delete_reply(&mut self, object_id: &[u8; 28]) -> (r: Reply)
        requires
            old(self).wf(),
        ensures
            final(self).wf(),
            final(self)@ == delete_step(old(self)@, object_id@),
            r.response matches Some(x) && x@ == ResponseModel::Done,
            !r.attach_fd,
            r.metrics == metrics_of(
                RequestModel::Delete(object_id@),
                final(self)@,
                Some(ResponseModel::Done),
            ),
    {
        let response = self.handle_delete(object_id);
        let metrics = MetricsUpdate {
            counter: Some(Counter::Delete),
            objects: Some(clamp(self.objects.len() as u64)),
            arena_used: Some(clamp(self.arena.used())),
        };
        Reply { response: Some(response), attach_fd: false, metrics }
    }
}

fn out_of_memory(e: ArenaError) -> (r: Response)
    requires
        e is OutOfMemory,
    ensures
        e matches ArenaError::OutOfMemory { requested, remaining } && r@ == ResponseModel::Error(
            ServerErrorKind::OutOfMemory,
            arena::out_of_memory_text(requested, remaining),
        ),
{
    match e {
        ArenaError::OutOfMemory { requested, remaining } => Response::Error {
            kind: ServerErrorKind::OutOfMemory,
            message: out_of_memory_message(requested, remaining),
        },
        _ => Response::Done,
    }
}

/// A new object is placed behind everything handed out before, so that objects still
/// share no byte.
pub proof fn law_create_keeps_wf(m: ServerModel, id: Seq<u8>, metadata_size: u64, data_size: u64)
    requires
        m.wf(),
    ensures
        create_step(m, id, metadata_size, data_size).0.wf(),
{
    if !m.objects.contains_key(id) {
        if let Ok(metadata_offset) = arena::spec_alloc(
            m.arena.bump,
            m.arena.capacity,
            metadata_size,
        ) {
            arena::law_alloc_fresh(
                m.arena.bump,
                m.arena.capacity,
                metadata_size,
                metadata_offset,
            );
            let b1 = (metadata_offset + metadata_size) as u64;
            if let Ok(data_offset) = arena::spec_alloc(b1, m.arena.capacity, data_size) {
                arena::law_alloc_fresh(b1, m.arena.capacity, data_size, data_offset);
            }
        }
    }
}

/// Sealing moves nothing.
pub proof fn law_seal_keeps_wf(m: ServerModel, id: Seq<u8>)
    requires
        m.wf(),
    ensures
        seal_step(m, id).0.wf(),
{
}

/// No request moves or removes an object but the request to remove it, and no request
/// gives room back.
pub proof fn law_objects_stay(
    m: ServerModel,
    memory: Seq<u8>,
    request: RequestModel,
    n: ServerModel,
    r: Option<ResponseModel>,
    id: Seq<u8>,
)
    requires
        m.wf(),
        server_step(m, memory, request, n, r),
        m.objects.contains_key(id),
        request != RequestModel::Delete(id),
        request != RequestModel::Release(id),
    ensures
        n.objects.contains_key(id),
        n.objects[id] == (ObjectEntry { sealed: n.objects[id].sealed, ..m.objects[id] }),
        m.objects[id].sealed ==> n.objects[id].sealed,
        n.arena.bump >= m.arena.bump,
{
}

/// A created and sealed object is found where it was placed; before it is sealed it is
/// not handed out.
pub proof fn law_create_seal_get(m: ServerModel, id: Seq<u8>, metadata_size: u64, data_size: u64)
    requires
        m.wf(),
        create_step(m, id, metadata_size, data_size).1 is Created,
    ensures
        ({
            let (m1, created) = create_step(m, id, metadata_size, data_size);
            let (m2, sealed) = seal_step(m1, id);
            let slot = created->Created_0;
            &&& get_answer(m1, id) == ResponseModel::Error(
                ServerErrorKind::NotSealed,
                "object not yet sealed"@,
            )
            &&& sealed == ResponseModel::Done
            &&& get_answer(m2, id) == ResponseModel::Got(SlotInfo { sealed: true, ..slot })
            &&& slot.metadata_size == metadata_size
            &&& slot.data_size == data_size
            &&& slot.metadata_offset + slot.metadata_size <= slot.data_offset
            &&& slot.data_offset + slot.data_size <= slot.arena_capacity
        }),
{
    let metadata_offset = arena::spec_alloc(m.arena.bump, m.arena.capacity, metadata_size)->Ok_0;
    arena::law_alloc_fresh(m.arena.bump, m.arena.capacity, metadata_size, metadata_offset);
    let b1 = (metadata_offset + metadata_size) as u64;
    let data_offset = arena::spec_alloc(b1, m.arena.capacity, data_size)->Ok_0;
    arena::law_alloc_fresh(b1, m.arena.capacity, data_size, data_offset);
}

/// A new object succeeds exactly when the id is free and both blocks fit behind what is
/// handed out.
pub proof fn law_create_succeeds(m: ServerModel, id: Seq<u8>, metadata_size: u64, data_size: u64)
    requires
        m.wf(),
    ensures
        create_step(m, id, metadata_size, data_size).1 is Created <==> {
            &&& !m.objects.contains_key(id)
            &&& arena::align_up(arena::align_up(m.arena.bump as int) + metadata_size) + data_size
                <= m.arena.capacity
        },
{
    if arena::align_up(m.arena.bump as int) + metadata_size <= m.arena.capacity {
        assert(arena::spec_alloc(m.arena.bump, m.arena.capacity, metadata_size) is Ok);
    }
}

/// What a client writes into the slot of one object changes no byte of another object.
pub proof fn law_slots_do_not_interfere(
    m: ServerModel,
    memory: Seq<u8>,
    written_id: Seq<u8>,
    other: Seq<u8>,
    metadata: Seq<u8>,
    data: Seq<u8>,
)
    requires
        m.wf(),
        memory.len() == m.arena.capacity,
        m.objects.contains_key(written_id),
        m.objects.contains_key(other),
        written_id != other,
        metadata.len() <= m.objects[written_id].metadata_size,
        data.len() <= m.objects[written_id].data_size,
    ensures
        ({
            let w = m.objects[written_id];
            let o = m.objects[other];
            let after = arena::written(
                arena::written(memory, w.metadata_offset as int, metadata),
                w.data_offset as int,
                data,
            );
            &&& after.subrange(o.metadata_offset as int, o.metadata_offset + o.metadata_size)
                == memory.subrange(o.metadata_offset as int, o.metadata_offset + o.metadata_size)
            &&& after.subrange(o.data_offset as int, o.end()) == memory.subrange(
                o.data_offset as int,
                o.end(),
            )
        }),
{
    let w = m.objects[written_id];
    let o = m.objects[other];
    let mid = arena::written(memory, w.metadata_offset as int, metadata);
    assert(ServerModel::apart(w, o));
    arena::law_write_read(
        memory,
        w.metadata_offset as int,
        metadata,
        o.metadata_offset as int,
        o.metadata_offset + o.metadata_size,
    );
    arena::law_write_read(
        memory,
        w.metadata_offset as int,
        metadata,
        o.data_offset as int,
        o.end(),
    );
    arena::law_write_read(
        mid,
        w.data_offset as int,
        data,
        o.metadata_offset as int,
        o.metadata_offset + o.metadata_size,
    );
    arena::law_write_read(mid, w.data_offset as int, data, o.data_offset as int, o.end());
}

/// What a client writes into a new object's slot is what is read from it: the data from
/// the region, the metadata from the region and from the answer to `Contains`.
pub proof fn law_create_write_seal_read(
    m: ServerModel,
    memory: Seq<u8>,
    id: Seq<u8>,
    metadata: Seq<u8>,
    data: Seq<u8>,
)
    requires
        m.wf(),
        memory.len() == m.arena.capacity,
        create_step(m, id, metadata.len() as u64, data.len() as u64).1 is Created,
        metadata.len() <= u64::MAX,
        data.len() <= u64::MAX,
    ensures
        ({
            let (m1, created) = create_step(m, id, metadata.len() as u64, data.len() as u64);
            let slot = created->Created_0;
            let after = arena::written(
                arena::written(memory, slot.metadata_offset as int, metadata),
                slot.data_offset as int,
                data,
            );
            let m2 = seal_step(m1, id).0;
            &&& get_answer(m2, id) == ResponseModel::Got(SlotInfo { sealed: true, ..slot })
            &&& after.subrange(
                slot.metadata_offset as int,
                slot.metadata_offset + slot.metadata_size,
            ) == metadata
            &&& after.subrange(slot.data_offset as int, slot.data_offset + slot.data_size) == data
            &&& contains_answer(m2, after, id) == ResponseModel::Contains(
                true,
                Some(metadata),
                true,
            )
        }),
{
    let ms = metadata.len() as u64;
    let ds = data.len() as u64;
    law_create_seal_get(m, id, ms, ds);
    let (m1, created) = create_step(m, id, ms, ds);
    let slot = created->Created_0;
    let mid = arena::written(memory, slot.metadata_offset as int, metadata);
    arena::law_write_read(memory, slot.metadata_offset as int, metadata, 0, 0);
    arena::law_write_read(
        mid,
        slot.data_offset as int,
        data,
        slot.metadata_offset as int,
        slot.metadata_offset + slot.metadata_size,
    );
}

/// A slot tells where the parts of its object are and how long they are, and which arena holds
/// them.
pub proof fn law_slot_tells_the_place(m: ServerModel, e: ObjectEntry)
    ensures
        m.slot(e).arena_id == m.arena.id,
        m.slot(e).arena_capacity == m.arena.capacity,
        m.slot(e).metadata_offset == e.metadata_offset,
        m.slot(e).metadata_size == e.metadata_size,
        m.slot(e).data_offset == e.data_offset,
        m.slot(e).data_size == e.data_size,
        m.slot(e).sealed == e.sealed,
{
}

/// A created object is there, not sealed, at the place of the answer, behind everything that
/// was handed out; the other objects are as they were.
pub proof fn law_created_object_is_there(
    m: ServerModel,
    id: Seq<u8>,
    metadata_size: u64,
    data_size: u64,
    other: Seq<u8>,
)
    requires
        m.wf(),
        other != id,
        create_step(m, id, metadata_size, data_size).1 is Created,
    ensures
        ({
            let (n, r) = create_step(m, id, metadata_size, data_size);
            let slot = r->Created_0;
            &&& n.objects.contains_key(id)
            &&& !n.objects[id].sealed
            &&& slot == n.slot(n.objects[id])
            &&& n.objects[id].metadata_size == metadata_size
            &&& n.objects[id].data_size == data_size
            &&& m.arena.bump <= slot.metadata_offset < m.arena.bump + 16
            &&& slot.metadata_offset + metadata_size <= slot.data_offset < slot.metadata_offset
                + metadata_size + 16
            &&& n.arena.bump == slot.data_offset + data_size
            &&& n.arena.id == m.arena.id
            &&& n.arena.capacity == m.arena.capacity
            &&& n.objects.contains_key(other) == m.objects.contains_key(other)
            &&& m.objects.contains_key(other) ==> n.objects[other] == m.objects[other]
        }),
{
    let metadata_offset = arena::spec_alloc(m.arena.bump, m.arena.capacity, metadata_size)->Ok_0;
    arena::law_alloc_fresh(m.arena.bump, m.arena.capacity, metadata_size, metadata_offset);
    let b1 = (metadata_offset + metadata_size) as u64;
    let data_offset = arena::spec_alloc(b1, m.arena.capacity, data_size)->Ok_0;
    arena::law_alloc_fresh(b1, m.arena.capacity, data_size, data_offset);
}

/// A refused object leaves all objects as they were: one that exists is told apart from one
/// that does not fit, and only the latter may take room, for its metadata.
pub proof fn law_refused_object_changes_no_object(
    m: ServerModel,
    id: Seq<u8>,
    metadata_size: u64,
    data_size: u64,
)
    requires
        m.wf(),
        !(create_step(m, id, metadata_size, data_size).1 is Created),
    ensures
        ({
            let (n, r) = create_step(m, id, metadata_size, data_size);
            &&& n.objects == m.objects
            &&& m.objects.contains_key(id) ==> n == m && (r matches ResponseModel::Error(k, _) && k
                == ServerErrorKind::AlreadyExists)
            &&& !m.objects.contains_key(id) ==> (r matches ResponseModel::Error(k, _) && k
                == ServerErrorKind::OutOfMemory)
            &&& !m.objects.contains_key(id) && arena::align_up(m.arena.bump as int) + metadata_size
                > m.arena.capacity ==> n == m
            &&& !m.objects.contains_key(id) && arena::align_up(m.arena.bump as int) + metadata_size
                <= m.arena.capacity ==> n.arena.bump == arena::align_up(m.arena.bump as int)
                + metadata_size
        }),
{
}

/// Sealing an object that is there and not sealed seals it and changes nothing else; any other
/// seal changes nothing, and says whether the object is missing or sealed.
pub proof fn law_seal_is_exact(m: ServerModel, id: Seq<u8>, other: Seq<u8>)
    requires
        other != id,
    ensures
        ({
            let (n, r) = seal_step(m, id);
            &&& n.arena == m.arena
            &&& n.objects.dom() =~= m.objects.dom()
            &&& m.objects.contains_key(other) ==> n.objects[other] == m.objects[other]
            &&& m.objects.contains_key(id) && !m.objects[id].sealed ==> r == ResponseModel::Done
                && n.objects[id].sealed && n.objects[id].metadata_offset
                == m.objects[id].metadata_offset && n.objects[id].metadata_size
                == m.objects[id].metadata_size && n.objects[id].data_offset
                == m.objects[id].data_offset && n.objects[id].data_size == m.objects[id].data_size
            &&& m.objects.contains_key(id) && m.objects[id].sealed ==> n == m && (
            r matches ResponseModel::Error(k, _) && k == ServerErrorKind::AlreadySealed)
            &&& !m.objects.contains_key(id) ==> n == m && (r matches ResponseModel::Error(k, _) && k
                == ServerErrorKind::NotFound)
        }),
{
}

/// An object is handed out exactly where it is there and sealed, at its place.
pub proof fn law_get_is_exact(m: ServerModel, id: Seq<u8>)
    ensures
        get_answer(m, id) is Got <==> m.objects.contains_key(id) && m.objects[id].sealed,
        get_answer(m, id) matches ResponseModel::Got(slot) ==> slot.metadata_offset
            == m.objects[id].metadata_offset && slot.data_offset == m.objects[id].data_offset
            && slot.metadata_size == m.objects[id].metadata_size && slot.data_size
            == m.objects[id].data_size,
        !m.objects.contains_key(id) ==> (get_answer(m, id) matches ResponseModel::Error(k, _) && k
            == ServerErrorKind::NotFound),
        m.objects.contains_key(id) && !m.objects[id].sealed ==> (get_answer(
            m,
            id,
        ) matches ResponseModel::Error(k, _) && k == ServerErrorKind::NotSealed),
{
}

/// Presence is told of every object, the metadata of a sealed one only, as it stands in the
/// region.
pub proof fn law_contains_is_exact(m: ServerModel, memory: Seq<u8>, id: Seq<u8>)
    requires
        m.wf(),
        memory.len() == m.arena.capacity,
    ensures
        contains_answer(m, memory, id) matches ResponseModel::Contains(present, metadata, sealed)
            && present == m.objects.contains_key(id) && sealed == (m.objects.contains_key(id)
            && m.objects[id].sealed) && (metadata is Some <==> sealed) && (metadata matches Some(b)
            ==> b.len() == m.objects[id].metadata_size && (forall|i: int|
            0 <= i < b.len() ==> b[i] == memory[m.objects[id].metadata_offset + i])),
{
}

/// A removed object is gone, so that its identifier is free again; the other objects and the
/// room that was handed out stay.
pub proof fn law_delete_is_exact(m: ServerModel, id: Seq<u8>, other: Seq<u8>)
    requires
        other != id,
    ensures
        !delete_step(m, id).objects.contains_key(id),
        get_answer(delete_step(m, id), id) is Error,
        delete_step(m, id).objects.contains_key(other) == m.objects.contains_key(other),
        m.objects.contains_key(other) ==> delete_step(m, id).objects[other] == m.objects[other],
        delete_step(m, id).arena == m.arena,
        delete_step(delete_step(m, id), id) == delete_step(m, id),
{
    assert(delete_step(delete_step(m, id), id) =~= delete_step(m, id));
}

/// Releasing an object removes it as deleting it does; questions change nothing; and only the
/// end of a connection has no answer.
pub proof fn law_requests_do_what_they_say(
    m: ServerModel,
    memory: Seq<u8>,
    request: RequestModel,
    n: ServerModel,
    r: Option<ResponseModel>,
)
    requires
        server_step(m, memory, request, n, r),
    ensures
        r is None <==> request is Disconnect,
        request is Get || request is Contains || request is List || request is Disconnect ==> n
            == m,
        request matches RequestModel::Delete(id) ==> !n.objects.contains_key(id) && r == Some(
            ResponseModel::Done,
        ) && n.arena == m.arena,
        request matches RequestModel::Release(id) ==> !n.objects.contains_key(id) && r == Some(
            ResponseModel::Done,
        ) && n.arena == m.arena,
        request is List ==> (r matches Some(ResponseModel::Listed(ids)) && ids.no_duplicates()
            && forall|id: Seq<u8>| #[trigger] ids.contains(id) <==> m.objects.contains_key(id)),
        request is Create ==> (r matches Some(x) && (x is Created || x is Error)),
        request is Get ==> (r matches Some(x) && (x is Got || x is Error)),
{
    if let RequestModel::List = request {
        let ids = r->0->Listed_0;
        assert forall|id: Seq<u8>| #[trigger] ids.contains(id) <==> m.objects.contains_key(id) by {
            assert(ids.to_set().contains(id) == m.objects.dom().contains(id));
        }
    }
}

/// What the metrics say after a request: every request for a new object, for the place of one
/// and to remove one counts once, and the numbers of objects and bytes are told where they
/// changed.
pub proof fn law_metrics_follow_requests(
    request: RequestModel,
    n: ServerModel,
    r: Option<ResponseModel>,
)
    requires
        n.objects.dom().len() <= i64::MAX,
        n.arena.bump <= i64::MAX,
    ensures
        ({
            let u = metrics_of(request, n, r);
            &&& u.counter == Some(Counter::Create) <==> request is Create
            &&& u.counter == Some(Counter::Get) <==> request is Get
            &&& u.counter == Some(Counter::Delete) <==> request is Delete || request is Release
            &&& u.objects is Some <==> (request is Create && (r matches Some(
                ResponseModel::Created(_),
            ))) || request is Delete || request is Release
            &&& u.arena_used is Some <==> u.objects is Some
            &&& u.objects matches Some(k) ==> k == n.objects.dom().len()
            &&& u.arena_used matches Some(k) ==> k == n.arena.bump
        }),
{
}

/// The region's descriptor goes with an answer exactly where it tells of a place in it.
pub proof fn law_descriptor_goes_with_places(r: ResponseModel)
    ensures
        attaches_fd(r) <==> (r matches ResponseModel::Created(_)) || (
        r matches ResponseModel::Got(_)),
{
}

} // verus!
