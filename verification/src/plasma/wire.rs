//! Messages between clients and the server.

use crate::plasma::error::ServerErrorKind;
use crate::util::text;
use crate::util::text::{push_decimal, quoted};
use vstd::prelude::*;

verus! {

/// Address of a worker in its wire form.
#[derive(Debug, PartialEq, Eq)]
pub struct AddressBlob {
    /// Host name or IP literal.
    pub host: String,
    /// TCP port; zero is a placeholder.
    pub port: u16,
    /// The worker.
    pub worker_id: [u8; 16],
}

/// The mathematical content of an `AddressBlob`.
pub struct AddressBlobModel {
    /// Host name or IP literal.
    pub host: Seq<char>,
    /// TCP port.
    pub port: u16,
    /// The worker.
    pub worker_id: Seq<u8>,
}

impl View for AddressBlob {
    type V = AddressBlobModel;

    open spec fn view(&self) -> AddressBlobModel {
        AddressBlobModel { host: self.host@, port: self.port, worker_id: self.worker_id@ }
    }
}

impl Clone for AddressBlob {
    fn clone(&self) -> (r: Self)
        ensures
            r@ == self@,
    {
        AddressBlob { host: self.host.clone(), port: self.port, worker_id: self.worker_id }
    }
}

impl AddressBlob {
    /// The address with the given parts.
    pub fn new(host: String, port: u16, worker_id: [u8; 16]) -> (r: Self)
        ensures
            r@ == (AddressBlobModel { host: host@, port, worker_id: worker_id@ }),
    {
        AddressBlob { host, port, worker_id }
    }

    /// The placeholder address: no host, port 0, the zero worker.
    pub fn nil() -> (r: Self)
        ensures
            r@.host == Seq::<char>::empty(),
            r@.port == 0,
            r@.worker_id == Seq::new(16, |i: int| 0u8),
    {
        let worker_id = [0u8; 16];
        assert(worker_id@ =~= Seq::new(16, |i: int| 0u8));
        AddressBlob { host: String::new(), port: 0, worker_id }
    }
}

/// What a client asks of the server.
#[derive(Debug)]
pub enum Request {
    /// Make room for a new object.
    Create(CreateRequest),
    /// Make an object immutable.
    Seal {
        /// The object.
        object_id: [u8; 28],
    },
    /// Where an object is.
    Get {
        /// The object.
        object_id: [u8; 28],
    },
    /// Whether an object is present, and its metadata.
    Contains {
        /// The object.
        object_id: [u8; 28],
    },
    /// Give up a reference.
    Release {
        /// The object.
        object_id: [u8; 28],
    },
    /// Remove an object.
    Delete {
        /// The object.
        object_id: [u8; 28],
    },
    /// All objects.
    List,
    /// Close the connection.
    Disconnect,
}

/// The request for a new object.
#[derive(Debug)]
pub struct CreateRequest {
    /// The object.
    pub object_id: [u8; 28],
    /// Bytes of metadata.
    pub metadata_size: u64,
    /// Bytes of data.
    pub data_size: u64,
    /// Owner of the object.
    pub owner: AddressBlob,
}

/// What the server answers. `Created` and `Got` come with the arena's file descriptor.
#[derive(Debug)]
pub enum Response {
    /// The request was carried out.
    Done,
    /// Where the new object is.
    Created(SlotInfo),
    /// Where the object is.
    Got(SlotInfo),
    /// Whether the object is present.
    Contains {
        /// Whether it is present.
        present: bool,
        /// Its metadata, where it is sealed.
        metadata: Option<Vec<u8>>,
        /// Whether it is sealed.
        sealed: bool,
    },
    /// All objects.
    Listed {
        /// Their ids.
        object_ids: Vec<[u8; 28]>,
    },
    /// The request failed.
    Error {
        /// The reason.
        kind: ServerErrorKind,
        /// A message for people.
        message: String,
    },
}

/// Where an object is inside the arena.
#[derive(Debug, Clone, Copy, PartialEq, Eq, Structural)]
pub struct SlotInfo {
    /// The arena.
    pub arena_id: u64,
    /// Bytes of the arena.
    pub arena_capacity: u64,
    /// Where the metadata begins.
    pub metadata_offset: u64,
    /// Bytes of metadata.
    pub metadata_size: u64,
    /// Where the data begins.
    pub data_offset: u64,
    /// Bytes of data.
    pub data_size: u64,
    /// Whether the object is immutable.
    pub sealed: bool,
}

/// The mathematical content of a `CreateRequest`.
pub struct CreateModel {
    /// The object.
    pub object_id: Seq<u8>,
    /// Bytes of metadata.
    pub metadata_size: u64,
    /// Bytes of data.
    pub data_size: u64,
    /// Owner of the object.
    pub owner: AddressBlobModel,
}

impl View for CreateRequest {
    type V = CreateModel;

    open spec fn view(&self) -> CreateModel {
        CreateModel {
            object_id: self.object_id@,
            metadata_size: self.metadata_size,
            data_size: self.data_size,
            owner: self.owner@,
        }
    }
}

/// The mathematical content of a `Request`.
pub enum RequestModel {
    /// Make room for a new object.
    Create(CreateModel),
    /// Make an object immutable.
    Seal(Seq<u8>),
    /// Where an object is.
    Get(Seq<u8>),
    /// Whether an object is present.
    Contains(Seq<u8>),
    /// Give up a reference.
    Release(Seq<u8>),
    /// Remove an object.
    Delete(Seq<u8>),
    /// All objects.
    List,
    /// Close the connection.
    Disconnect,
}

impl View for Request {
    type V = RequestModel;

    open spec fn view(&self) -> RequestModel {
        match self {
            Request::Create(c) => RequestModel::Create(c@),
            Request::Seal { object_id } => RequestModel::Seal(object_id@),
            Request::Get { object_id } => RequestModel::Get(object_id@),
            Request::Contains { object_id } => RequestModel::Contains(object_id@),
            Request::Release { object_id } => RequestModel::Release(object_id@),
            Request::Delete { object_id } => RequestModel::Delete(object_id@),
            Request::List => RequestModel::List,
            Request::Disconnect => RequestModel::Disconnect,
        }
    }
}

/// The mathematical content of a `Response`.
pub enum ResponseModel {
    /// The request was carried out.
    Done,
    /// Where the new object is.
    Created(SlotInfo),
    /// Where the object is.
    Got(SlotInfo),
    /// Whether the object is present, its metadata and whether it is sealed.
    Contains(bool, Option<Seq<u8>>, bool),
    /// All objects.
    Listed(Seq<Seq<u8>>),
    /// The request failed.
    Error(ServerErrorKind, Seq<char>),
}

/// The contents of identifiers.
pub open spec fn ids_view(ids: Seq<[u8; 28]>) -> Seq<Seq<u8>> {
    ids.map_values(|a: [u8; 28]| a@)
}

impl View for Response {
    type V = ResponseModel;

    open spec fn view(&self) -> ResponseModel {
        match self {
            Response::Done => ResponseModel::Done,
            Response::Created(info) => ResponseModel::Created(*info),
            Response::Got(info) => ResponseModel::Got(*info),
            Response::Contains { present, metadata, sealed } => ResponseModel::Contains(
                *present,
                match metadata {
                    None => None,
                    Some(m) => Some(m@),
                },
                *sealed,
            ),
            Response::Listed { object_ids } => ResponseModel::Listed(ids_view(object_ids@)),
            Response::Error { kind, message } => ResponseModel::Error(*kind, message@),
        }
    }
}

/// `true` or `false`.
pub open spec fn bool_text(b: bool) -> Seq<char> {
    if b {
        "true"@
    } else {
        "false"@
    }
}

/// Numbers, separated by commas.
pub open spec fn numbers_text(b: Seq<u8>) -> Seq<char>
    decreases b.len(),
{
    if b.len() == 0 {
        Seq::empty()
    } else if b.len() == 1 {
        text::decimal_text(b[0] as nat)
    } else {
        numbers_text(b.drop_last()) + ", "@ + text::decimal_text(b.last() as nat)
    }
}

/// Bytes as a list of numbers.
pub open spec fn bytes_text(b: Seq<u8>) -> Seq<char> {
    "["@ + numbers_text(b) + "]"@
}

/// Lists of numbers, separated by commas.
pub open spec fn ids_text(ids: Seq<Seq<u8>>) -> Seq<char>
    decreases ids.len(),
{
    if ids.len() == 0 {
        Seq::empty()
    } else if ids.len() == 1 {
        bytes_text(ids[0])
    } else {
        ids_text(ids.drop_last()) + ", "@ + bytes_text(ids.last())
    }
}

/// A slot with its fields.
pub open spec fn slot_text(s: SlotInfo) -> Seq<char> {
    "SlotInfo { arena_id: "@ + text::decimal_text(s.arena_id as nat) + ", arena_capacity: "@
        + text::decimal_text(s.arena_capacity as nat) + ", metadata_offset: "@ + text::decimal_text(
        s.metadata_offset as nat,
    ) + ", metadata_size: "@ + text::decimal_text(s.metadata_size as nat) + ", data_offset: "@
        + text::decimal_text(s.data_offset as nat) + ", data_size: "@ + text::decimal_text(
        s.data_size as nat,
    ) + ", sealed: "@ + bool_text(s.sealed) + " }"@
}

/// A response with its fields, for messages about unexpected ones. The message of a failure
/// is in quotes.
pub open spec fn response_text(r: ResponseModel) -> Seq<char> {
    match r {
        ResponseModel::Done => "Ok"@,
        ResponseModel::Created(s) => "Created("@ + slot_text(s) + ")"@,
        ResponseModel::Got(s) => "Got("@ + slot_text(s) + ")"@,
        ResponseModel::Contains(present, metadata, sealed) => "Contains { present: "@ + bool_text(
            present,
        ) + ", metadata: "@ + (match metadata {
            None => "None"@,
            Some(m) => "Some("@ + bytes_text(m) + ")"@,
        }) + ", sealed: "@ + bool_text(sealed) + " }"@,
        ResponseModel::Listed(ids) => "Listed { object_ids: ["@ + ids_text(ids) + "] }"@,
        ResponseModel::Error(kind, message) => "Error { kind: "@ + kind.spec_name()
            + ", message: "@ + text::quoted_text(message) + " }"@,
    }
}

fn bool_str(b: bool) -> (r: &'static str)
    ensures
        r@ == bool_text(b),
{
    if b {
        "true"
    } else {
        "false"
    }
}

fn push_byte_list(out: &mut String, b: &[u8])
    ensures
        final(out)@ == old(out)@ + bytes_text(b@),
{
    out.append("[");
    let ghost front = out@;
    let mut i: usize = 0;
    assert(b@.take(0) =~= Seq::<u8>::empty());
    assert(out@ =~= front + numbers_text(b@.take(0)));
    while i < b.len()
        invariant
            i <= b@.len(),
            out@ == front + numbers_text(b@.take(i as int)),
        decreases b@.len() - i,
    {
        let ghost before = out@;
        if i > 0 {
            out.append(", ");
        }
        push_decimal(out, b[i] as u64);
        proof {
            assert(b@.take(i + 1).drop_last() =~= b@.take(i as int));
            assert(b@.take(i + 1).last() == b@[i as int]);
            assert(out@ =~= front + numbers_text(b@.take(i + 1)));
        }
        i += 1;
    }
    assert(b@.take(i as int) =~= b@);
    out.append("]");
    assert(out@ =~= old(out)@ + bytes_text(b@));
}

fn push_id_list(out: &mut String, ids: &Vec<[u8; 28]>)
    ensures
        final(out)@ == old(out)@ + ids_text(ids_view(ids@)),
{
    let ghost front = out@;
    let ghost all = ids_view(ids@);
    let mut i: usize = 0;
    assert(all.take(0) =~= Seq::<Seq<u8>>::empty());
    assert(out@ =~= front + ids_text(all.take(0)));
    while i < ids.len()
        invariant
            i <= ids@.len(),
            all == ids_view(ids@),
            out@ == front + ids_text(all.take(i as int)),
        decreases ids@.len() - i,
    {
        if i > 0 {
            out.append(", ");
        }
        push_byte_list(out, &ids[i]);
        proof {
            assert(all.take(i + 1).drop_last() =~= all.take(i as int));
            assert(all.take(i + 1).last() == ids@[i as int]@);
            assert(out@ =~= front + ids_text(all.take(i + 1)));
        }
        i += 1;
    }
    assert(all.take(i as int) =~= all);
}

fn push_slot_text(out: &mut String, s: &SlotInfo)
    ensures
        final(out)@ == old(out)@ + slot_text(*s),
{
    out.append("SlotInfo { arena_id: ");
    push_decimal(out, s.arena_id);
    out.append(", arena_capacity: ");
    push_decimal(out, s.arena_capacity);
    out.append(", metadata_offset: ");
    push_decimal(out, s.metadata_offset);
    out.append(", metadata_size: ");
    push_decimal(out, s.metadata_size);
    out.append(", data_offset: ");
    push_decimal(out, s.data_offset);
    out.append(", data_size: ");
    push_decimal(out, s.data_size);
    out.append(", sealed: ");
    out.append(bool_str(s.sealed));
    out.append(" }");
    assert(out@ =~= old(out)@ + slot_text(*s));
}

impl Response {
    /// The response with its fields, for messages about unexpected ones.
    pub fn text(&self) -> (r: String)
        ensures
            r@ == response_text(self@),
    {
        let mut out = String::new();
        match self {
            Response::Done => {
                out.append("Ok");
            },
            Response::Created(s) => {
                out.append("Created(");
                push_slot_text(&mut out, s);
                out.append(")");
            },
            Response::Got(s) => {
                out.append("Got(");
                push_slot_text(&mut out, s);
                out.append(")");
            },
            Response::Contains { present, metadata, sealed } => {
                out.append("Contains { present: ");
                out.append(bool_str(*present));
                out.append(", metadata: ");
                match metadata {
                    None => {
                        out.append("None");
                    },
                    Some(m) => {
                        out.append("Some(");
                        push_byte_list(&mut out, m.as_slice());
                        out.append(")");
                    },
                }
                out.append(", sealed: ");
                out.append(bool_str(*sealed));
                out.append(" }");
            },
            Response::Listed { object_ids } => {
                out.append("Listed { object_ids: [");
                push_id_list(&mut out, object_ids);
                out.append("] }");
            },
            Response::Error { kind, message } => {
                out.append("Error { kind: ");
                out.append(kind.name());
                out.append(", message: ");
                let shown = quoted(message.as_str());
                out.append(shown.as_str());
                out.append(" }");
            },
        }
        assert(out@ =~= response_text(self@));
        out
    }
}

/// A request is modelled as the request that it is, with its identifier.
pub proof fn law_requests_are_modelled(r: Request)
    ensures
        match r {
            Request::Create(c) => r@ matches RequestModel::Create(m) && m.object_id == c.object_id@
                && m.metadata_size == c.metadata_size && m.data_size == c.data_size && m.owner.host
                == c.owner.host@ && m.owner.port == c.owner.port && m.owner.worker_id
                == c.owner.worker_id@,
            Request::Seal { object_id } => r@ matches RequestModel::Seal(id) && id == object_id@,
            Request::Get { object_id } => r@ matches RequestModel::Get(id) && id == object_id@,
            Request::Contains { object_id } => r@ matches RequestModel::Contains(id) && id
                == object_id@,
            Request::Release { object_id } => r@ matches RequestModel::Release(id) && id
                == object_id@,
            Request::Delete { object_id } => r@ matches RequestModel::Delete(id) && id == object_id@,
            Request::List => r@ is List,
            Request::Disconnect => r@ is Disconnect,
        },
{
}

/// A response is modelled as the response that it is, with all that it holds.
pub proof fn law_responses_are_modelled(r: Response)
    ensures
        match r {
            Response::Done => r@ is Done,
            Response::Created(i) => r@ matches ResponseModel::Created(j) && j == i,
            Response::Got(i) => r@ matches ResponseModel::Got(j) && j == i,
            Response::Contains { present, metadata, sealed } => r@ matches ResponseModel::Contains(
                p,
                m,
                s,
            ) && p == present && s == sealed && (m is Some <==> metadata is Some) && (
            metadata matches Some(b) ==> m->0 == b@),
            Response::Listed { object_ids } => r@ matches ResponseModel::Listed(ids) && ids.len()
                == object_ids@.len() && (forall|i: int|
                0 <= i < ids.len() ==> #[trigger] ids[i] == object_ids@[i]@),
            Response::Error { kind, message } => r@ matches ResponseModel::Error(k, m) && k == kind
                && m == message@,
        },
{
}

} // verus!
