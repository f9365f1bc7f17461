//! The client's side of the protocol: the requests, what their answers mean, and the
//! slots in the mapped arena.

use crate::plasma::arena;
use crate::plasma::arena::write_at;
use crate::plasma::error::PlasmaError;
use crate::plasma::wire;
use crate::plasma::wire::{
    AddressBlob, CreateModel, CreateRequest, Request, RequestModel, Response, ResponseModel,
    SlotInfo,
};
use crate::util::text::concat2;
use std::collections::HashSet;
use vstd::prelude::*;
use vstd::slice::slice_subrange;

verus! {

/// The answer to the question whether an object is present.
#[derive(Debug, PartialEq, Eq)]
pub struct ContainsResult {
    /// Whether it is present.
    pub present: bool,
    /// Whether it is sealed.
    pub sealed: bool,
    /// Its metadata, where it is sealed.
    pub metadata: Option<Vec<u8>>,
}

/// The failure that an answer stands for, where `what` names the expected answer: the
/// server's own failure, or an answer of the wrong kind.
pub open spec fn wrong_answer(r: ResponseModel, what: Seq<char>, e: PlasmaError) -> bool {
    match r {
        ResponseModel::Error(k, m) => e matches PlasmaError::Server { kind, message } && kind == k
            && message@ == m,
        _ => e matches PlasmaError::Protocol(m) && m@ == what + wire::response_text(r),
    }
}

fn reject(reply: Response, what: &str) -> (e: PlasmaError)
    ensures
        wrong_answer(reply@, what@, e),
{
    match reply {
        Response::Error { kind, message } => PlasmaError::Server { kind, message },
        other => PlasmaError::Protocol(concat2(what, other.text().as_str())),
    }
}

/// What has to be done before a slot can be used.
#[derive(Debug, Clone, Copy, PartialEq, Eq, Structural)]
pub enum MapStep {
    /// The arena is mapped already.
    Cached,
    /// Map this many bytes of the file descriptor that came with the answer.
    MapFd {
        /// Bytes to map.
        len: usize,
    },
}

/// The state of a client: which arenas it has mapped.
#[derive(Debug)]
pub struct PlasmaClient {
    mapped: HashSet<u64>,
}

impl View for PlasmaClient {
    type V = Set<u64>;

    closed spec fn view(&self) -> Set<u64> {
        self.mapped@
    }
}

impl PlasmaClient {
    /// A client that has mapped nothing.
    pub fn new() -> (r: Self)
        ensures
            r@ == Set::<u64>::empty(),
    {
        PlasmaClient { mapped: HashSet::new() }
    }

    /// The request for a new object with the given metadata and data.
    pub fn create(
        &self,
        object_id: [u8; 28],
        metadata: &[u8],
        data: &[u8],
        owner: AddressBlob,
    ) -> (r: Request)
        ensures
            r@ == RequestModel::Create(
                CreateModel {
                    object_id: object_id@,
                    metadata_size: metadata@.len() as u64,
                    data_size: data@.len() as u64,
                    owner: owner@,
                },
            ),
    {
        Request::Create(
            CreateRequest {
                object_id,
                metadata_size: metadata.len() as u64,
                data_size: data.len() as u64,
                owner,
            },
        )
    }

    /// The handle for writing a new object, from the answer to its request.
    pub fn created(&self, object_id: [u8; 28], reply: Response) -> (r: Result<
        WriteHandle,
        PlasmaError,
    >)
        ensures
            match r {
                Ok(h) => h.object_id == object_id && reply@ == ResponseModel::Created(h.info),
                Err(e) => !(reply@ is Created) && wrong_answer(
                    reply@,
                    "unexpected reply to Create: "@,
                    e,
                ),
            },
    {
        match reply {
            Response::Created(info) => Ok(WriteHandle { object_id, info }),
            other => Err(reject(other, "unexpected reply to Create: ")),
        }
    }

    /// The request to seal an object.
    pub fn seal(&self, object_id: [u8; 28]) -> (r: Request)
        ensures
            r@ == RequestModel::Seal(object_id@),
    {
        Request::Seal { object_id }
    }

    /// What the answer to a request to seal means.
    pub fn sealed(&self, reply: Response) -> (r: Result<(), PlasmaError>)
        ensures
            match r {
                Ok(_) => reply@ is Done,
                Err(e) => !(reply@ is Done) && wrong_answer(
                    reply@,
                    "unexpected reply to Seal: "@,
                    e,
                ),
            },
    {
        match reply {
            Response::Done => Ok(()),
            other => Err(reject(other, "unexpected reply to Seal: ")),
        }
    }

    /// The request for the place of an object.
    pub fn get(&self, object_id: [u8; 28]) -> (r: Request)
        ensures
            r@ == RequestModel::Get(object_id@),
    {
        Request::Get { object_id }
    }

    /// The handle for reading an object, from the answer to the request for its place.
    pub fn got(&self, object_id: [u8; 28], reply: Response) -> (r: Result<ReadHandle, PlasmaError>)
        ensures
            match r {
                Ok(h) => h.object_id == object_id && reply@ == ResponseModel::Got(h.info),
                Err(e) => !(reply@ is Got) && wrong_answer(
                    reply@,
                    "unexpected reply to Get: "@,
                    e,
                ),
            },
    {
        match reply {
            Response::Got(info) => Ok(ReadHandle { object_id, info }),
            other => Err(reject(other, "unexpected reply to Get: ")),
        }
    }

    /// The question whether an object is present.
    pub fn contains(&self, object_id: [u8; 28]) -> (r: Request)
        ensures
            r@ == RequestModel::Contains(object_id@),
    {
        Request::Contains { object_id }
    }

    /// What the answer to the question whether an object is present means.
    pub fn contained(&self, reply: Response) -> (r: Result<ContainsResult, PlasmaError>)
        ensures
            match r {
                Ok(c) => reply@ == ResponseModel::Contains(
                    c.present,
                    match c.metadata {
                        None => None,
                        Some(m) => Some(m@),
                    },
                    c.sealed,
                ),
                Err(e) => !(reply@ is Contains) && wrong_answer(
                    reply@,
                    "unexpected reply to Contains: "@,
                    e,
                ),
            },
    {
        match reply {
            Response::Contains { present, sealed, metadata } => Ok(
                ContainsResult { present, sealed, metadata },
            ),
            other => Err(reject(other, "unexpected reply to Contains: ")),
        }
    }

    /// The request to give up a reference.
    pub fn release(&self, object_id: [u8; 28]) -> (r: Request)
        ensures
            r@ == RequestModel::Release(object_id@),
    {
        Request::Release { object_id }
    }

    /// The request to remove an object.
    pub fn delete(&self, object_id: [u8; 28]) -> (r: Request)
        ensures
            r@ == RequestModel::Delete(object_id@),
    {
        Request::Delete { object_id }
    }

    /// What the answer to a request to give up or to remove means.
    pub fn simple_command(&self, reply: Response) -> (r: Result<(), PlasmaError>)
        ensures
            match r {
                Ok(_) => reply@ is Done,
                Err(e) => !(reply@ is Done) && wrong_answer(reply@, "unexpected reply: "@, e),
            },
    {
        match reply {
            Response::Done => Ok(()),
            other => Err(reject(other, "unexpected reply: ")),
        }
    }

    /// The request for all objects.
    pub fn list(&self) -> (r: Request)
        ensures
            r@ == RequestModel::List,
    {
        Request::List
    }

    /// The objects, from the answer to the request for all of them.
    pub fn listed(&self, reply: Response) -> (r: Result<Vec<[u8; 28]>, PlasmaError>)
        ensures
            match r {
                Ok(ids) => reply@ == ResponseModel::Listed(wire::ids_view(ids@)),
                Err(e) => !(reply@ is Listed) && wrong_answer(
                    reply@,
                    "unexpected reply to List: "@,
                    e,
                ),
            },
    {
        match reply {
            Response::Listed { object_ids } => Ok(object_ids),
            other => Err(reject(other, "unexpected reply to List: ")),
        }
    }

    /// The request to close the connection.
    pub fn disconnect(&self) -> (r: Request)
        ensures
            r@ == RequestModel::Disconnect,
    {
        Request::Disconnect
    }

    /// What has to be done before the slot can be used; `has_fd` says whether a file
    /// descriptor came with the answer.
    pub fn ensure_arena_mapped(&self, info: &SlotInfo, has_fd: bool) -> (r: Result<
        MapStep,
        PlasmaError,
    >)
        ensures
            match r {
                Ok(MapStep::Cached) => self@.contains(info.arena_id),
                Ok(MapStep::MapFd { len }) => !self@.contains(info.arena_id) && has_fd && len
                    == info.arena_capacity,
                Err(PlasmaError::MissingFd) => !self@.contains(info.arena_id) && !has_fd,
                Err(PlasmaError::Mmap(m)) => !self@.contains(info.arena_id) && has_fd
                    && info.arena_capacity > usize::MAX && m@ == "arena capacity too large"@,
                Err(_) => false,
            },
    {
        broadcast use vstd::std_specs::hash::group_hash_axioms;

        if self.mapped.contains(&info.arena_id) {
            return Ok(MapStep::Cached);
        }
        if !has_fd {
            return Err(PlasmaError::MissingFd);
        }
        if info.arena_capacity > usize::MAX as u64 {
            return Err(PlasmaError::Mmap("arena capacity too large".to_owned()));
        }
        Ok(MapStep::MapFd { len: info.arena_capacity as usize })
    }

    /// Records that an arena is mapped.
    pub fn arena_mapped(&mut self, arena_id: u64)
        ensures
            final(self)@ == old(self)@.insert(arena_id),
    {
        broadcast use vstd::std_specs::hash::group_hash_axioms;

        self.mapped.insert(arena_id);
    }
}

/// Whether the slot lies inside a region of `len` bytes.
pub open spec fn slot_inside(info: SlotInfo, len: nat) -> bool {
    info.metadata_offset + info.metadata_size <= len && info.data_offset + info.data_size <= len
}

/// As many bytes of `b` as fit into `size`.
pub open spec fn fitting(b: Seq<u8>, size: u64) -> Seq<u8> {
    if b.len() <= size {
        b
    } else {
        b.take(size as int)
    }
}

fn write_fitting(memory: &mut [u8], offset: u64, size: u64, b: &[u8])
    requires
        offset + size <= old(memory)@.len(),
    ensures
        final(memory)@ == arena::written(old(memory)@, offset as int, fitting(b@, size)),
{
    assert(memory@.len() == memory.len());
    let n: usize = if b.len() as u64 <= size {
        b.len()
    } else {
        size as usize
    };
    let part = slice_subrange(b, 0, n);
    assert(part@ =~= fitting(b@, size));
    write_at(memory, offset as usize, part);
}

/// A region whose part from `from` to `to` holds `b` instead.
pub open spec fn replaced(memory: Seq<u8>, from: int, to: int, b: Seq<u8>) -> Seq<u8> {
    memory.take(from) + b + memory.skip(to)
}

/// A part of the region, to be filled there.
fn part_mut<'a>(memory: &'a mut [u8], offset: u64, size: u64) -> (r: &'a mut [u8])
    requires
        offset + size <= old(memory)@.len(),
    ensures
        r@ == old(memory)@.subrange(offset as int, offset + size),
        final(memory)@ == replaced(old(memory)@, offset as int, offset + size, final(r)@),
{
    assert(memory@.len() == memory.len());
    let (front, rest) = memory.split_at_mut(offset as usize);
    let (part, back) = rest.split_at_mut(size as usize);
    proof {
        assert(part@ =~= old(memory)@.subrange(offset as int, offset + size));
        assert(front@ =~= old(memory)@.take(offset as int));
        assert(back@ =~= old(memory)@.skip(offset + size));
        assert(front@ + (final(part)@ + back@) =~= front@ + final(part)@ + back@);
    }
    part
}

/// Bytes that were filled in place stand where a write puts them.
pub proof fn law_filled_in_place(memory: Seq<u8>, offset: int, b: Seq<u8>)
    requires
        0 <= offset && offset + b.len() <= memory.len(),
    ensures
        replaced(memory, offset, offset + b.len(), b) == arena::written(memory, offset, b),
{
    assert(replaced(memory, offset, offset + b.len(), b) =~= arena::written(memory, offset, b));
}

/// Whether both parts of a slot lie inside a region of `len` bytes.
pub fn slot_fits(info: &SlotInfo, len: usize) -> (b: bool)
    ensures
        b == slot_inside(*info, len as nat),
{
    let end: u64 = len as u64;
    info.metadata_offset <= end && info.metadata_size <= end - info.metadata_offset
        && info.data_offset <= end && info.data_size <= end - info.data_offset
}

/// Handle for writing a new object.
#[derive(Debug, Clone, Copy)]
pub struct WriteHandle {
    /// The object.
    pub object_id: [u8; 28],
    /// Its slot.
    pub info: SlotInfo,
}

impl WriteHandle {
    /// The object.
    pub fn object_id(&self) -> (r: [u8; 28])
        ensures
            r == self.object_id,
    {
        self.object_id
    }

    /// Its slot.
    pub fn info(&self) -> (r: &SlotInfo)
        ensures
            *r == self.info,
    {
        &self.info
    }

    /// The metadata's place in the arena's region, to be filled there. The rest of the region
    /// stays as it is.
    pub fn metadata_mut_slice<'a>(&self, memory: &'a mut [u8]) -> (r: &'a mut [u8])
        requires
            slot_inside(self.info, old(memory)@.len()),
        ensures
            r@ == old(memory)@.subrange(
                self.info.metadata_offset as int,
                self.info.metadata_offset + self.info.metadata_size,
            ),
            final(memory)@ == replaced(
                old(memory)@,
                self.info.metadata_offset as int,
                self.info.metadata_offset + self.info.metadata_size,
                final(r)@,
            ),
    {
        part_mut(memory, self.info.metadata_offset, self.info.metadata_size)
    }

    /// The data's place in the arena's region, to be filled there. The rest of the region
    /// stays as it is.
    pub fn data_mut_slice<'a>(&self, memory: &'a mut [u8]) -> (r: &'a mut [u8])
        requires
            slot_inside(self.info, old(memory)@.len()),
        ensures
            r@ == old(memory)@.subrange(
                self.info.data_offset as int,
                self.info.data_offset + self.info.data_size,
            ),
            final(memory)@ == replaced(
                old(memory)@,
                self.info.data_offset as int,
                self.info.data_offset + self.info.data_size,
                final(r)@,
            ),
    {
        part_mut(memory, self.info.data_offset, self.info.data_size)
    }

    /// Writes metadata into its place in the arena's region, as much as fits.
    pub fn write_metadata(&self, memory: &mut [u8], b: &[u8])
        requires
            slot_inside(self.info, old(memory)@.len()),
        ensures
            final(memory)@ == arena::written(
                old(memory)@,
                self.info.metadata_offset as int,
                fitting(b@, self.info.metadata_size),
            ),
    {
        write_fitting(memory, self.info.metadata_offset, self.info.metadata_size, b);
    }

    /// Writes data into its place in the arena's region, as much as fits.
    pub fn write_data(&self, memory: &mut [u8], b: &[u8])
        requires
            slot_inside(self.info, old(memory)@.len()),
        ensures
            final(memory)@ == arena::written(
                old(memory)@,
                self.info.data_offset as int,
                fitting(b@, self.info.data_size),
            ),
    {
        write_fitting(memory, self.info.data_offset, self.info.data_size, b);
    }
}

/// Handle for reading a sealed object.
#[derive(Debug, Clone, Copy)]
pub struct ReadHandle {
    /// The object.
    pub object_id: [u8; 28],
    /// Its slot.
    pub info: SlotInfo,
}

impl ReadHandle {
    /// The object.
    pub fn object_id(&self) -> (r: [u8; 28])
        ensures
            r == self.object_id,
    {
        self.object_id
    }

    /// Its slot.
    pub fn info(&self) -> (r: &SlotInfo)
        ensures
            *r == self.info,
    {
        &self.info
    }

    /// The metadata in the arena's region.
    pub fn metadata<'a>(&self, memory: &'a [u8]) -> (r: &'a [u8])
        requires
            slot_inside(self.info, memory@.len()),
        ensures
            r@ == memory@.subrange(
                self.info.metadata_offset as int,
                self.info.metadata_offset + self.info.metadata_size,
            ),
    {
        assert(memory@.len() == memory.len());
        let from: usize = self.info.metadata_offset as usize;
        slice_subrange(memory, from, from + self.info.metadata_size as usize)
    }

    /// The data in the arena's region.
    pub fn data<'a>(&self, memory: &'a [u8]) -> (r: &'a [u8])
        requires
            slot_inside(self.info, memory@.len()),
        ensures
            r@ == memory@.subrange(
                self.info.data_offset as int,
                self.info.data_offset + self.info.data_size,
            ),
    {
        assert(memory@.len() == memory.len());
        let from: usize = self.info.data_offset as usize;
        slice_subrange(memory, from, from + self.info.data_size as usize)
    }
}

/// An answer of the wrong kind is told apart from the server's own failure, which is handed on
/// with its kind and its message.
pub proof fn law_failures_are_handed_on(r: ResponseModel, what: Seq<char>, e: PlasmaError)
    requires
        wrong_answer(r, what, e),
    ensures
        e is Server <==> r is Error,
        e is Protocol <==> !(r is Error),
        r matches ResponseModel::Error(k, m) ==> (e matches PlasmaError::Server { kind, message }
            && kind == k && message@ == m),
        e matches PlasmaError::Protocol(m) ==> what.is_prefix_of(m@) && m@.skip(what.len() as int)
            == wire::response_text(r),
{
    if let PlasmaError::Protocol(m) = e {
        assert(m@.take(what.len() as int) =~= what);
        assert(m@.skip(what.len() as int) =~= wire::response_text(r));
    }
}

/// What is written into a slot is the front of what was to be written, as much as there is
/// room for.
pub proof fn law_writes_fit_the_slot(b: Seq<u8>, size: u64)
    ensures
        fitting(b, size).len() <= size,
        fitting(b, size).is_prefix_of(b),
        b.len() <= size ==> fitting(b, size) == b,
        b.len() > size ==> fitting(b, size).len() == size,
{
    assert(fitting(b, size) =~= b.take(fitting(b, size).len() as int));
}

/// A slot lies inside a region exactly where neither of its parts ends behind it.
pub proof fn law_slot_inside(info: SlotInfo, len: nat)
    ensures
        slot_inside(info, len) <==> info.metadata_offset + info.metadata_size <= len
            && info.data_offset + info.data_size <= len,
{
}

/// What a handle's owner writes into a slot is what a reader of the slot finds, metadata and
/// data each in its place.
pub proof fn law_handles_agree(info: SlotInfo, memory: Seq<u8>, metadata: Seq<u8>, data: Seq<u8>)
    requires
        slot_inside(info, memory.len()),
        info.metadata_offset + info.metadata_size <= info.data_offset,
        metadata.len() == info.metadata_size,
        data.len() == info.data_size,
    ensures
        ({
            let after = arena::written(
                arena::written(
                    memory,
                    info.metadata_offset as int,
                    fitting(metadata, info.metadata_size),
                ),
                info.data_offset as int,
                fitting(data, info.data_size),
            );
            &&& after.subrange(
                info.metadata_offset as int,
                info.metadata_offset + info.metadata_size,
            ) == metadata
            &&& after.subrange(info.data_offset as int, info.data_offset + info.data_size) == data
        }),
{
    let mid = arena::written(memory, info.metadata_offset as int, metadata);
    arena::law_write_read(memory, info.metadata_offset as int, metadata, 0, 0);
    arena::law_write_read(
        mid,
        info.data_offset as int,
        data,
        info.metadata_offset as int,
        info.metadata_offset + info.metadata_size,
    );
}

} // verus!
