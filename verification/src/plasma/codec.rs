//! Encoding of messages: little-endian integers of fixed width, a `u32` tag in front of
//! every variant, a `u64` length in front of every text and list.
//!
//! Integers and byte strings go through the `bincode` crate.

use crate::plasma::error::{CodecError, ServerErrorKind, TaggedType};
use crate::plasma::wire::{
    AddressBlob, AddressBlobModel, CreateModel, CreateRequest, Request, RequestModel, Response,
    ResponseModel, SlotInfo,
};
use crate::plasma::wire;
use crate::util::bytes;
use crate::util::bytes::{copy_range, push_bytes, to_array};
use crate::util::seqs;
use crate::util::text;
use crate::util::text::string_from_utf8;
use vstd::prelude::*;
use vstd::slice::slice_subrange;
use vstd::utf8;

verus! {

/// Longest body of a frame.
pub const MAX_FRAME_BYTES: u64 = 8_388_608;

/// `bincode::encode_to_vec` of a `u16`, little-endian with fixed width: its two bytes.
#[verifier::external_body]
fn encode_u16(x: u16) -> (r: Vec<u8>)
    ensures
        r@ == bytes::u16_le(x),
{
    let config = bincode::config::standard().with_little_endian().with_fixed_int_encoding();
    bincode::encode_to_vec(x, config).expect("a vector takes any number of bytes")
}

/// `bincode::encode_to_vec` of a `u32`, little-endian with fixed width: its four bytes.
#[verifier::external_body]
fn encode_u32(x: u32) -> (r: Vec<u8>)
    ensures
        r@ == bytes::u32_le(x),
{
    let config = bincode::config::standard().with_little_endian().with_fixed_int_encoding();
    bincode::encode_to_vec(x, config).expect("a vector takes any number of bytes")
}

/// `bincode::encode_to_vec` of a `u64`, little-endian with fixed width: its eight bytes.
#[verifier::external_body]
fn encode_u64(x: u64) -> (r: Vec<u8>)
    ensures
        r@ == bytes::u64_le(x),
{
    let config = bincode::config::standard().with_little_endian().with_fixed_int_encoding();
    bincode::encode_to_vec(x, config).expect("a vector takes any number of bytes")
}

/// `bincode::encode_to_vec` of a byte slice: its length as a `u64`, then the bytes.
#[verifier::external_body]
fn encode_byte_string(b: &[u8]) -> (r: Vec<u8>)
    ensures
        r@ == byte_string(b@),
{
    let config = bincode::config::standard().with_little_endian().with_fixed_int_encoding();
    bincode::encode_to_vec(b, config).expect("a vector takes any number of bytes")
}

/// `bincode::decode_from_slice` of a `u16` from at least two bytes: their value.
#[verifier::external_body]
fn decode_u16(b: &[u8]) -> (r: u16)
    requires
        b@.len() >= 2,
    ensures
        r == bytes::le_u16(b@),
{
    let config = bincode::config::standard().with_little_endian().with_fixed_int_encoding();
    bincode::decode_from_slice::<u16, _>(b, config).expect("two bytes are there").0
}

/// `bincode::decode_from_slice` of a `u32` from at least four bytes: their value.
#[verifier::external_body]
fn decode_u32(b: &[u8]) -> (r: u32)
    requires
        b@.len() >= 4,
    ensures
        r == bytes::le_u32(b@),
{
    let config = bincode::config::standard().with_little_endian().with_fixed_int_encoding();
    bincode::decode_from_slice::<u32, _>(b, config).expect("four bytes are there").0
}

/// `bincode::decode_from_slice` of a `u64` from at least eight bytes: their value.
#[verifier::external_body]
fn decode_u64(b: &[u8]) -> (r: u64)
    requires
        b@.len() >= 8,
    ensures
        r == bytes::le_u64(b@),
{
    let config = bincode::config::standard().with_little_endian().with_fixed_int_encoding();
    bincode::decode_from_slice::<u64, _>(b, config).expect("eight bytes are there").0
}

// ---- the wire forms ----

/// A length and the bytes.
pub open spec fn byte_string(b: Seq<u8>) -> Seq<u8> {
    bytes::u64_le(b.len() as u64) + b
}

/// 1 for `true`, 0 for `false`.
pub open spec fn bool_wire(b: bool) -> Seq<u8> {
    seq![
        if b {
            1u8
        } else {
            0u8
        },
    ]
}

/// The wire form of an address.
pub open spec fn address_wire(a: AddressBlobModel) -> Seq<u8> {
    byte_string(utf8::encode_utf8(a.host)) + bytes::u16_le(a.port) + a.worker_id
}

/// The wire form of a request for a new object, behind the tag.
pub open spec fn create_wire(c: CreateModel) -> Seq<u8> {
    c.object_id + bytes::u64_le(c.metadata_size) + bytes::u64_le(c.data_size) + address_wire(
        c.owner,
    )
}

/// The wire form of a request.
pub open spec fn request_wire(r: RequestModel) -> Seq<u8> {
    match r {
        RequestModel::Create(c) => bytes::u32_le(0) + create_wire(c),
        RequestModel::Seal(id) => bytes::u32_le(1) + id,
        RequestModel::Get(id) => bytes::u32_le(2) + id,
        RequestModel::Contains(id) => bytes::u32_le(3) + id,
        RequestModel::Release(id) => bytes::u32_le(4) + id,
        RequestModel::Delete(id) => bytes::u32_le(5) + id,
        RequestModel::List => bytes::u32_le(6),
        RequestModel::Disconnect => bytes::u32_le(7),
    }
}

/// The wire form of a slot.
pub open spec fn slot_wire(s: SlotInfo) -> Seq<u8> {
    bytes::u64_le(s.arena_id) + bytes::u64_le(s.arena_capacity) + bytes::u64_le(s.metadata_offset)
        + bytes::u64_le(s.metadata_size) + bytes::u64_le(s.data_offset) + bytes::u64_le(s.data_size)
        + bool_wire(s.sealed)
}

/// The wire form of optional bytes.
pub open spec fn optional_wire(b: Option<Seq<u8>>) -> Seq<u8> {
    match b {
        None => seq![0u8],
        Some(x) => seq![1u8] + byte_string(x),
    }
}

/// Identifiers one after the other.
pub open spec fn ids_wire(ids: Seq<Seq<u8>>) -> Seq<u8>
    decreases ids.len(),
{
    if ids.len() == 0 {
        Seq::empty()
    } else {
        ids[0] + ids_wire(ids.skip(1))
    }
}

/// The tag of a kind of server error.
pub open spec fn kind_tag(k: ServerErrorKind) -> u32 {
    match k {
        ServerErrorKind::NotFound => 0,
        ServerErrorKind::AlreadyExists => 1,
        ServerErrorKind::OutOfMemory => 2,
        ServerErrorKind::NotSealed => 3,
        ServerErrorKind::AlreadySealed => 4,
        ServerErrorKind::Internal => 5,
    }
}

/// The wire form of a response.
pub open spec fn response_wire(r: ResponseModel) -> Seq<u8> {
    match r {
        ResponseModel::Done => bytes::u32_le(0),
        ResponseModel::Created(s) => bytes::u32_le(1) + slot_wire(s),
        ResponseModel::Got(s) => bytes::u32_le(2) + slot_wire(s),
        ResponseModel::Contains(present, metadata, sealed) => bytes::u32_le(3) + bool_wire(present)
            + optional_wire(metadata) + bool_wire(sealed),
        ResponseModel::Listed(ids) => bytes::u32_le(4) + bytes::u64_le(ids.len() as u64) + ids_wire(
            ids,
        ),
        ResponseModel::Error(kind, message) => bytes::u32_le(5) + bytes::u32_le(kind_tag(kind))
            + byte_string(utf8::encode_utf8(message)),
    }
}

// ---- parsing ----

/// What a field at a position yields: its value and the position behind it, or an error.
pub type Field<T> = Result<(T, nat), CodecError>;

/// The end of a field of `n` bytes at `pos`: the message may not grow beyond a frame, and
/// the bytes must be there.
pub open spec fn field_end(s: Seq<u8>, pos: nat, n: nat) -> Result<nat, CodecError> {
    if pos + n > MAX_FRAME_BYTES {
        Err(CodecError::LimitExceeded)
    } else if pos + n > s.len() {
        Err(CodecError::UnexpectedEnd { additional: (pos + n - s.len()) as usize })
    } else {
        Ok(pos + n)
    }
}

/// `n` raw bytes.
pub open spec fn field_raw(s: Seq<u8>, pos: nat, n: nat) -> Field<Seq<u8>> {
    match field_end(s, pos, n) {
        Ok(end) => Ok((s.subrange(pos as int, end as int), end)),
        Err(e) => Err(e),
    }
}

/// A byte.
pub open spec fn field_u8(s: Seq<u8>, pos: nat) -> Field<u8> {
    match field_end(s, pos, 1) {
        Ok(end) => Ok((s[pos as int], end)),
        Err(e) => Err(e),
    }
}

/// A `u16`.
pub open spec fn field_u16(s: Seq<u8>, pos: nat) -> Field<u16> {
    match field_end(s, pos, 2) {
        Ok(end) => Ok((bytes::le_u16(s.skip(pos as int)) as u16, end)),
        Err(e) => Err(e),
    }
}

/// A `u32`.
pub open spec fn field_u32(s: Seq<u8>, pos: nat) -> Field<u32> {
    match field_end(s, pos, 4) {
        Ok(end) => Ok((bytes::le_u32(s.skip(pos as int)) as u32, end)),
        Err(e) => Err(e),
    }
}

/// A `u64`.
pub open spec fn field_u64(s: Seq<u8>, pos: nat) -> Field<u64> {
    match field_end(s, pos, 8) {
        Ok(end) => Ok((bytes::le_u64(s.skip(pos as int)) as u64, end)),
        Err(e) => Err(e),
    }
}

/// A boolean.
pub open spec fn field_bool(s: Seq<u8>, pos: nat) -> Field<bool> {
    match field_u8(s, pos) {
        Ok((b, end)) => if b == 0 {
            Ok((false, end))
        } else if b == 1 {
            Ok((true, end))
        } else {
            Err(CodecError::InvalidBooleanValue(b))
        },
        Err(e) => Err(e),
    }
}

/// A length, which must fit the machine.
pub open spec fn field_len(s: Seq<u8>, pos: nat) -> Field<usize> {
    match field_u64(s, pos) {
        Ok((n, end)) => if n > usize::MAX {
            Err(CodecError::OutsideUsizeRange(n))
        } else {
            Ok((n as usize, end))
        },
        Err(e) => Err(e),
    }
}

/// A length and that many bytes.
pub open spec fn field_bytes(s: Seq<u8>, pos: nat) -> Field<Seq<u8>> {
    match field_len(s, pos) {
        Ok((n, p)) => field_raw(s, p, n as nat),
        Err(e) => Err(e),
    }
}

/// A text.
pub open spec fn field_text(s: Seq<u8>, pos: nat) -> Field<Seq<char>> {
    match field_bytes(s, pos) {
        Ok((b, end)) => if utf8::valid_utf8(b) {
            Ok((utf8::decode_utf8(b), end))
        } else {
            Err(
                CodecError::Utf8 {
                    valid_up_to: text::utf8_fault(b).0,
                    error_len: text::utf8_fault(b).1,
                },
            )
        },
        Err(e) => Err(e),
    }
}

/// Optional bytes.
pub open spec fn field_optional(s: Seq<u8>, pos: nat) -> Field<Option<Seq<u8>>> {
    match field_u8(s, pos) {
        Ok((tag, p)) => if tag == 0 {
            Ok((None, p))
        } else if tag == 1 {
            match field_bytes(s, p) {
                Ok((b, end)) => Ok((Some(b), end)),
                Err(e) => Err(e),
            }
        } else {
            Err(
                CodecError::UnexpectedVariant {
                    tagged: TaggedType::OptionalBytes,
                    found: tag as u32,
                },
            )
        },
        Err(e) => Err(e),
    }
}

/// `n` identifiers.
pub open spec fn field_n_ids(s: Seq<u8>, pos: nat, n: nat) -> Field<Seq<Seq<u8>>>
    decreases n,
{
    if n == 0 {
        Ok((Seq::empty(), pos))
    } else {
        match field_n_ids(s, pos, (n - 1) as nat) {
            Ok((ids, p)) => match field_raw(s, p, 28) {
                Ok((id, end)) => Ok((ids.push(id), end)),
                Err(e) => Err(e),
            },
            Err(e) => Err(e),
        }
    }
}

/// A list of identifiers; the room for all of them is claimed first.
pub open spec fn field_ids(s: Seq<u8>, pos: nat) -> Field<Seq<Seq<u8>>> {
    match field_len(s, pos) {
        Ok((n, p)) => if p + 28 * n > MAX_FRAME_BYTES {
            Err(CodecError::LimitExceeded)
        } else {
            field_n_ids(s, p, n as nat)
        },
        Err(e) => Err(e),
    }
}

/// An address.
pub open spec fn field_address(s: Seq<u8>, pos: nat) -> Field<AddressBlobModel> {
    match field_text(s, pos) {
        Ok((host, p)) => match field_u16(s, p) {
            Ok((port, q)) => match field_raw(s, q, 16) {
                Ok((worker_id, end)) => Ok((AddressBlobModel { host, port, worker_id }, end)),
                Err(e) => Err(e),
            },
            Err(e) => Err(e),
        },
        Err(e) => Err(e),
    }
}

/// The body of a request for a new object.
pub open spec fn field_create(s: Seq<u8>, pos: nat) -> Field<CreateModel> {
    match field_raw(s, pos, 28) {
        Ok((object_id, p)) => match field_u64(s, p) {
            Ok((metadata_size, q)) => match field_u64(s, q) {
                Ok((data_size, r)) => match field_address(s, r) {
                    Ok((owner, end)) => Ok(
                        (CreateModel { object_id, metadata_size, data_size, owner }, end),
                    ),
                    Err(e) => Err(e),
                },
                Err(e) => Err(e),
            },
            Err(e) => Err(e),
        },
        Err(e) => Err(e),
    }
}

/// A slot.
pub open spec fn field_slot(s: Seq<u8>, pos: nat) -> Field<SlotInfo> {
    match field_u64(s, pos) {
        Err(e) => Err(e),
        Ok((arena_id, p1)) => match field_u64(s, p1) {
            Err(e) => Err(e),
            Ok((arena_capacity, p2)) => match field_u64(s, p2) {
                Err(e) => Err(e),
                Ok((metadata_offset, p3)) => match field_u64(s, p3) {
                    Err(e) => Err(e),
                    Ok((metadata_size, p4)) => match field_u64(s, p4) {
                        Err(e) => Err(e),
                        Ok((data_offset, p5)) => match field_u64(s, p5) {
                            Err(e) => Err(e),
                            Ok((data_size, p6)) => match field_bool(s, p6) {
                                Err(e) => Err(e),
                                Ok((sealed, end)) => Ok(
                                    (
                                        SlotInfo {
                                            arena_id,
                                            arena_capacity,
                                            metadata_offset,
                                            metadata_size,
                                            data_offset,
                                            data_size,
                                            sealed,
                                        },
                                        end,
                                    ),
                                ),
                            },
                        },
                    },
                },
            },
        },
    }
}

/// The kind of server error with a given tag.
pub open spec fn kind_of_tag(tag: u32) -> Result<ServerErrorKind, CodecError> {
    match tag {
        0 => Ok(ServerErrorKind::NotFound),
        1 => Ok(ServerErrorKind::AlreadyExists),
        2 => Ok(ServerErrorKind::OutOfMemory),
        3 => Ok(ServerErrorKind::NotSealed),
        4 => Ok(ServerErrorKind::AlreadySealed),
        5 => Ok(ServerErrorKind::Internal),
        _ => Err(
            CodecError::UnexpectedVariant { tagged: TaggedType::ServerErrorKind, found: tag },
        ),
    }
}

/// What the body of a frame is as a request. Bytes behind the request are ignored.
pub open spec fn parse_request(s: Seq<u8>) -> Result<RequestModel, CodecError> {
    match field_u32(s, 0) {
        Err(e) => Err(e),
        Ok((tag, p)) => if tag == 0 {
            match field_create(s, p) {
                Ok((c, _)) => Ok(RequestModel::Create(c)),
                Err(e) => Err(e),
            }
        } else if tag <= 5 {
            match field_raw(s, p, 28) {
                Err(e) => Err(e),
                Ok((id, _)) => if tag == 1 {
                    Ok(RequestModel::Seal(id))
                } else if tag == 2 {
                    Ok(RequestModel::Get(id))
                } else if tag == 3 {
                    Ok(RequestModel::Contains(id))
                } else if tag == 4 {
                    Ok(RequestModel::Release(id))
                } else {
                    Ok(RequestModel::Delete(id))
                },
            }
        } else if tag == 6 {
            Ok(RequestModel::List)
        } else if tag == 7 {
            Ok(RequestModel::Disconnect)
        } else {
            Err(CodecError::UnexpectedVariant { tagged: TaggedType::Request, found: tag })
        },
    }
}

/// The body of a `Contains` response.
pub open spec fn field_contains(s: Seq<u8>, pos: nat) -> Field<ResponseModel> {
    match field_bool(s, pos) {
        Err(e) => Err(e),
        Ok((present, p)) => match field_optional(s, p) {
            Err(e) => Err(e),
            Ok((metadata, q)) => match field_bool(s, q) {
                Err(e) => Err(e),
                Ok((sealed, end)) => Ok((ResponseModel::Contains(present, metadata, sealed), end)),
            },
        },
    }
}

/// The body of an `Error` response.
pub open spec fn field_error(s: Seq<u8>, pos: nat) -> Field<ResponseModel> {
    match field_u32(s, pos) {
        Err(e) => Err(e),
        Ok((tag, p)) => match kind_of_tag(tag) {
            Err(e) => Err(e),
            Ok(kind) => match field_text(s, p) {
                Err(e) => Err(e),
                Ok((message, end)) => Ok((ResponseModel::Error(kind, message), end)),
            },
        },
    }
}

/// What the body of a frame is as a response. Bytes behind the response are ignored.
pub open spec fn parse_response(s: Seq<u8>) -> Result<ResponseModel, CodecError> {
    match field_u32(s, 0) {
        Err(e) => Err(e),
        Ok((tag, p)) => if tag == 0 {
            Ok(ResponseModel::Done)
        } else if tag == 1 {
            match field_slot(s, p) {
                Ok((i, _)) => Ok(ResponseModel::Created(i)),
                Err(e) => Err(e),
            }
        } else if tag == 2 {
            match field_slot(s, p) {
                Ok((i, _)) => Ok(ResponseModel::Got(i)),
                Err(e) => Err(e),
            }
        } else if tag == 3 {
            match field_contains(s, p) {
                Ok((r, _)) => Ok(r),
                Err(e) => Err(e),
            }
        } else if tag == 4 {
            match field_ids(s, p) {
                Ok((ids, _)) => Ok(ResponseModel::Listed(ids)),
                Err(e) => Err(e),
            }
        } else if tag == 5 {
            match field_error(s, p) {
                Ok((r, _)) => Ok(r),
                Err(e) => Err(e),
            }
        } else {
            Err(CodecError::UnexpectedVariant { tagged: TaggedType::Response, found: tag })
        },
    }
}

// ---- reading ----

/// A position inside the body of a frame.
struct Reader<'a> {
    bytes: &'a [u8],
    pos: usize,
}

impl<'a> Reader<'a> {
    spec fn wf(&self) -> bool {
        self.pos <= self.bytes@.len() && self.pos <= MAX_FRAME_BYTES
    }

    /// Steps over the next `n` bytes; returns where they begin.
    fn claim(&mut self, n: usize) -> (r: Result<usize, CodecError>)
        requires
            old(self).wf(),
        ensures
            final(self).wf(),
            final(self).bytes == old(self).bytes,
            match r {
                Ok(start) => start == old(self).pos && field_end(
                    old(self).bytes@,
                    old(self).pos as nat,
                    n as nat,
                ) == Ok::<nat, CodecError>(final(self).pos as nat) && final(self).pos == start + n,
                Err(e) => field_end(old(self).bytes@, old(self).pos as nat, n as nat) == Err::<
                    nat,
                    CodecError,
                >(e),
            },
    {
        let start: usize = self.pos;
        if n as u64 > MAX_FRAME_BYTES - start as u64 {
            return Err(CodecError::LimitExceeded);
        }
        let end: usize = start + n;
        if end > self.bytes.len() {
            return Err(CodecError::UnexpectedEnd { additional: end - self.bytes.len() });
        }
        self.pos = end;
        Ok(start)
    }

    /// The next `n` raw bytes.
    fn raw(&mut self, n: usize) -> (r: Result<Vec<u8>, CodecError>)
        requires
            old(self).wf(),
        ensures
            final(self).wf(),
            final(self).bytes == old(self).bytes,
            match r {
                Ok(x) => field_raw(old(self).bytes@, old(self).pos as nat, n as nat) == Ok::<
                    (Seq<u8>, nat),
                    CodecError,
                >((x@, final(self).pos as nat)),
                Err(e) => field_raw(old(self).bytes@, old(self).pos as nat, n as nat) == Err::<
                    (Seq<u8>, nat),
                    CodecError,
                >(e),
            },
    {
        match self.claim(n) {
            Ok(start) => Ok(copy_range(self.bytes, start, self.pos)),
            Err(e) => Err(e),
        }
    }

    /// The next `N` raw bytes.
    fn array<const N: usize>(&mut self) -> (r: Result<[u8; N], CodecError>)
        requires
            old(self).wf(),
        ensures
            final(self).wf(),
            final(self).bytes == old(self).bytes,
            match r {
                Ok(x) => field_raw(old(self).bytes@, old(self).pos as nat, N as nat) == Ok::<
                    (Seq<u8>, nat),
                    CodecError,
                >((x@, final(self).pos as nat)),
                Err(e) => field_raw(old(self).bytes@, old(self).pos as nat, N as nat) == Err::<
                    (Seq<u8>, nat),
                    CodecError,
                >(e),
            },
    {
        match self.raw(N) {
            Ok(v) => Ok(to_array(v.as_slice())),
            Err(e) => Err(e),
        }
    }

    /// The next byte.
    fn u8(&mut self) -> (r: Result<u8, CodecError>)
        requires
            old(self).wf(),
        ensures
            final(self).wf(),
            final(self).bytes == old(self).bytes,
            match r {
                Ok(x) => field_u8(old(self).bytes@, old(self).pos as nat) == Ok::<
                    (u8, nat),
                    CodecError,
                >((x, final(self).pos as nat)),
                Err(e) => field_u8(old(self).bytes@, old(self).pos as nat) == Err::<
                    (u8, nat),
                    CodecError,
                >(e),
            },
    {
        match self.claim(1) {
            Ok(start) => Ok(self.bytes[start]),
            Err(e) => Err(e),
        }
    }

    /// The next `u16`.
    fn u16(&mut self) -> (r: Result<u16, CodecError>)
        requires
            old(self).wf(),
        ensures
            final(self).wf(),
            final(self).bytes == old(self).bytes,
            match r {
                Ok(x) => field_u16(old(self).bytes@, old(self).pos as nat) == Ok::<
                    (u16, nat),
                    CodecError,
                >((x, final(self).pos as nat)),
                Err(e) => field_u16(old(self).bytes@, old(self).pos as nat) == Err::<
                    (u16, nat),
                    CodecError,
                >(e),
            },
    {
        match self.claim(2) {
            Ok(start) => {
                let rest = slice_subrange(self.bytes, start, self.bytes.len());
                assert(rest@ =~= self.bytes@.skip(start as int));
                Ok(decode_u16(rest))
            },
            Err(e) => Err(e),
        }
    }

    /// The next `u32`.
    fn u32(&mut self) -> (r: Result<u32, CodecError>)
        requires
            old(self).wf(),
        ensures
            final(self).wf(),
            final(self).bytes == old(self).bytes,
            match r {
                Ok(x) => field_u32(old(self).bytes@, old(self).pos as nat) == Ok::<
                    (u32, nat),
                    CodecError,
                >((x, final(self).pos as nat)),
                Err(e) => field_u32(old(self).bytes@, old(self).pos as nat) == Err::<
                    (u32, nat),
                    CodecError,
                >(e),
            },
    {
        match self.claim(4) {
            Ok(start) => {
                let rest = slice_subrange(self.bytes, start, self.bytes.len());
                assert(rest@ =~= self.bytes@.skip(start as int));
                Ok(decode_u32(rest))
            },
            Err(e) => Err(e),
        }
    }

    /// The next `u64`.
    fn u64(&mut self) -> (r: Result<u64, CodecError>)
        requires
            old(self).wf(),
        ensures
            final(self).wf(),
            final(self).bytes == old(self).bytes,
            match r {
                Ok(x) => field_u64(old(self).bytes@, old(self).pos as nat) == Ok::<
                    (u64, nat),
                    CodecError,
                >((x, final(self).pos as nat)),
                Err(e) => field_u64(old(self).bytes@, old(self).pos as nat) == Err::<
                    (u64, nat),
                    CodecError,
                >(e),
            },
    {
        match self.claim(8) {
            Ok(start) => {
                let rest = slice_subrange(self.bytes, start, self.bytes.len());
                assert(rest@ =~= self.bytes@.skip(start as int));
                Ok(decode_u64(rest))
            },
            Err(e) => Err(e),
        }
    }

    /// The next boolean.
    fn boolean(&mut self) -> (r: Result<bool, CodecError>)
        requires
            old(self).wf(),
        ensures
            final(self).wf(),
            final(self).bytes == old(self).bytes,
            match r {
                Ok(x) => field_bool(old(self).bytes@, old(self).pos as nat) == Ok::<
                    (bool, nat),
                    CodecError,
                >((x, final(self).pos as nat)),
                Err(e) => field_bool(old(self).bytes@, old(self).pos as nat) == Err::<
                    (bool, nat),
                    CodecError,
                >(e),
            },
    {
        match self.u8() {
            Ok(0) => Ok(false),
            Ok(1) => Ok(true),
            Ok(b) => Err(CodecError::InvalidBooleanValue(b)),
            Err(e) => Err(e),
        }
    }

    /// The next length.
    fn length(&mut self) -> (r: Result<usize, CodecError>)
        requires
            old(self).wf(),
        ensures
            final(self).wf(),
            final(self).bytes == old(self).bytes,
            match r {
                Ok(x) => field_len(old(self).bytes@, old(self).pos as nat) == Ok::<
                    (usize, nat),
                    CodecError,
                >((x, final(self).pos as nat)),
                Err(e) => field_len(old(self).bytes@, old(self).pos as nat) == Err::<
                    (usize, nat),
                    CodecError,
                >(e),
            },
    {
        match self.u64() {
            Ok(n) => if n > usize::MAX as u64 {
                Err(CodecError::OutsideUsizeRange(n))
            } else {
                Ok(n as usize)
            },
            Err(e) => Err(e),
        }
    }

    /// The next length and that many bytes.
    fn byte_string(&mut self) -> (r: Result<Vec<u8>, CodecError>)
        requires
            old(self).wf(),
        ensures
            final(self).wf(),
            final(self).bytes == old(self).bytes,
            match r {
                Ok(x) => field_bytes(old(self).bytes@, old(self).pos as nat) == Ok::<
                    (Seq<u8>, nat),
                    CodecError,
                >((x@, final(self).pos as nat)),
                Err(e) => field_bytes(old(self).bytes@, old(self).pos as nat) == Err::<
                    (Seq<u8>, nat),
                    CodecError,
                >(e),
            },
    {
        match self.length() {
            Ok(n) => self.raw(n),
            Err(e) => Err(e),
        }
    }

    /// The next text.
    fn text(&mut self) -> (r: Result<String, CodecError>)
        requires
            old(self).wf(),
        ensures
            final(self).wf(),
            final(self).bytes == old(self).bytes,
            match r {
                Ok(x) => field_text(old(self).bytes@, old(self).pos as nat) == Ok::<
                    (Seq<char>, nat),
                    CodecError,
                >((x@, final(self).pos as nat)),
                Err(e) => field_text(old(self).bytes@, old(self).pos as nat) == Err::<
                    (Seq<char>, nat),
                    CodecError,
                >(e),
            },
    {
        match self.byte_string() {
            Ok(b) => match string_from_utf8(b) {
                Ok(t) => Ok(t),
                Err((valid_up_to, error_len)) => Err(CodecError::Utf8 { valid_up_to, error_len }),
            },
            Err(e) => Err(e),
        }
    }

    /// The next optional bytes.
    fn optional(&mut self) -> (r: Result<Option<Vec<u8>>, CodecError>)
        requires
            old(self).wf(),
        ensures
            final(self).wf(),
            final(self).bytes == old(self).bytes,
            match r {
                Ok(x) => field_optional(old(self).bytes@, old(self).pos as nat) == Ok::<
                    (Option<Seq<u8>>, nat),
                    CodecError,
                >((match x {
                        None => None,
                        Some(b) => Some(b@),
                    }, final(self).pos as nat)),
                Err(e) => field_optional(old(self).bytes@, old(self).pos as nat) == Err::<
                    (Option<Seq<u8>>, nat),
                    CodecError,
                >(e),
            },
    {
        match self.u8() {
            Ok(0) => Ok(None),
            Ok(1) => match self.byte_string() {
                Ok(b) => Ok(Some(b)),
                Err(e) => Err(e),
            },
            Ok(tag) => Err(
                CodecError::UnexpectedVariant {
                    tagged: TaggedType::OptionalBytes,
                    found: tag as u32,
                },
            ),
            Err(e) => Err(e),
        }
    }

    /// The next list of identifiers.
    fn ids(&mut self) -> (r: Result<Vec<[u8; 28]>, CodecError>)
        requires
            old(self).wf(),
        ensures
            final(self).wf(),
            final(self).bytes == old(self).bytes,
            match r {
                Ok(x) => field_ids(old(self).bytes@, old(self).pos as nat) == Ok::<
                    (Seq<Seq<u8>>, nat),
                    CodecError,
                >((wire::ids_view(x@), final(self).pos as nat)),
                Err(e) => field_ids(old(self).bytes@, old(self).pos as nat) == Err::<
                    (Seq<Seq<u8>>, nat),
                    CodecError,
                >(e),
            },
    {
        let n: usize = match self.length() {
            Ok(n) => n,
            Err(e) => return Err(e),
        };
        let room: u64 = MAX_FRAME_BYTES - self.pos as u64;
        if n as u64 > room / 28 {
            assert(self.pos + 28 * n > MAX_FRAME_BYTES);
            return Err(CodecError::LimitExceeded);
        }
        let ghost s = self.bytes@;
        let ghost start = self.pos as nat;
        let mut ids: Vec<[u8; 28]> = Vec::new();
        let mut i: usize = 0;
        assert(wire::ids_view(ids@) =~= Seq::<Seq<u8>>::empty());
        while i < n
            invariant
                self.wf(),
                self.bytes@ == s,
                self.bytes == old(self).bytes,
                i <= n,
                start + 28 * n <= MAX_FRAME_BYTES,
                field_ids(s, old(self).pos as nat) == field_n_ids(s, start, n as nat),
                field_n_ids(s, start, i as nat) == Ok::<(Seq<Seq<u8>>, nat), CodecError>(
                    (wire::ids_view(ids@), self.pos as nat),
                ),
            decreases n - i,
        {
            let ghost before = ids@;
            match self.array::<28>() {
                Ok(id) => {
                    ids.push(id);
                    assert(wire::ids_view(ids@) =~= wire::ids_view(before).push(id@));
                },
                Err(e) => {
                    proof {
                        lemma_n_ids_error(s, start, (i + 1) as nat, n as nat, e);
                    }
                    return Err(e);
                },
            }
            i += 1;
        }
        Ok(ids)
    }

    /// The next address.
    fn address(&mut self) -> (r: Result<AddressBlob, CodecError>)
        requires
            old(self).wf(),
        ensures
            final(self).wf(),
            final(self).bytes == old(self).bytes,
            match r {
                Ok(x) => field_address(old(self).bytes@, old(self).pos as nat) == Ok::<
                    (AddressBlobModel, nat),
                    CodecError,
                >((x@, final(self).pos as nat)),
                Err(e) => field_address(old(self).bytes@, old(self).pos as nat) == Err::<
                    (AddressBlobModel, nat),
                    CodecError,
                >(e),
            },
    {
        let host = match self.text() {
            Ok(t) => t,
            Err(e) => return Err(e),
        };
        let port: u16 = match self.u16() {
            Ok(p) => p,
            Err(e) => return Err(e),
        };
        match self.array::<16>() {
            Ok(worker_id) => Ok(AddressBlob { host, port, worker_id }),
            Err(e) => Err(e),
        }
    }

    /// The next request for a new object.
    fn create(&mut self) -> (r: Result<CreateRequest, CodecError>)
        requires
            old(self).wf(),
        ensures
            final(self).wf(),
            final(self).bytes == old(self).bytes,
            match r {
                Ok(x) => field_create(old(self).bytes@, old(self).pos as nat) == Ok::<
                    (CreateModel, nat),
                    CodecError,
                >((x@, final(self).pos as nat)),
                Err(e) => field_create(old(self).bytes@, old(self).pos as nat) == Err::<
                    (CreateModel, nat),
                    CodecError,
                >(e),
            },
    {
        let object_id = match self.array::<28>() {
            Ok(id) => id,
            Err(e) => return Err(e),
        };
        let metadata_size: u64 = match self.u64() {
            Ok(n) => n,
            Err(e) => return Err(e),
        };
        let data_size: u64 = match self.u64() {
            Ok(n) => n,
            Err(e) => return Err(e),
        };
        match self.address() {
            Ok(owner) => Ok(CreateRequest { object_id, metadata_size, data_size, owner }),
            Err(e) => Err(e),
        }
    }

    /// The next slot.
    fn slot(&mut self) -> (r: Result<SlotInfo, CodecError>)
        requires
            old(self).wf(),
        ensures
            final(self).wf(),
            final(self).bytes == old(self).bytes,
            match r {
                Ok(x) => field_slot(old(self).bytes@, old(self).pos as nat) == Ok::<
                    (SlotInfo, nat),
                    CodecError,
                >((x, final(self).pos as nat)),
                Err(e) => field_slot(old(self).bytes@, old(self).pos as nat) == Err::<
                    (SlotInfo, nat),
                    CodecError,
                >(e),
            },
    {
        let arena_id: u64 = match self.u64() {
            Ok(n) => n,
            Err(e) => return Err(e),
        };
        let arena_capacity: u64 = match self.u64() {
            Ok(n) => n,
            Err(e) => return Err(e),
        };
        let metadata_offset: u64 = match self.u64() {
            Ok(n) => n,
            Err(e) => return Err(e),
        };
        let metadata_size: u64 = match self.u64() {
            Ok(n) => n,
            Err(e) => return Err(e),
        };
        let data_offset: u64 = match self.u64() {
            Ok(n) => n,
            Err(e) => return Err(e),
        };
        let data_size: u64 = match self.u64() {
            Ok(n) => n,
            Err(e) => return Err(e),
        };
        match self.boolean() {
            Ok(sealed) => Ok(
                SlotInfo {
                    arena_id,
                    arena_capacity,
                    metadata_offset,
                    metadata_size,
                    data_offset,
                    data_size,
                    sealed,
                },
            ),
            Err(e) => Err(e),
        }
    }

    /// The next body of a `Contains` response.
    fn contains(&mut self) -> (r: Result<Response, CodecError>)
        requires
            old(self).wf(),
        ensures
            final(self).wf(),
            final(self).bytes == old(self).bytes,
            match r {
                Ok(x) => field_contains(old(self).bytes@, old(self).pos as nat) == Ok::<
                    (ResponseModel, nat),
                    CodecError,
                >((x@, final(self).pos as nat)),
                Err(e) => field_contains(old(self).bytes@, old(self).pos as nat) == Err::<
                    (ResponseModel, nat),
                    CodecError,
                >(e),
            },
    {
        let present = match self.boolean() {
            Ok(b) => b,
            Err(e) => return Err(e),
        };
        let metadata = match self.optional() {
            Ok(o) => o,
            Err(e) => return Err(e),
        };
        match self.boolean() {
            Ok(sealed) => Ok(Response::Contains { present, metadata, sealed }),
            Err(e) => Err(e),
        }
    }

    /// The next body of an `Error` response.
    fn error(&mut self) -> (r: Result<Response, CodecError>)
        requires
            old(self).wf(),
        ensures
            final(self).wf(),
            final(self).bytes == old(self).bytes,
            match r {
                Ok(x) => field_error(old(self).bytes@, old(self).pos as nat) == Ok::<
                    (ResponseModel, nat),
                    CodecError,
                >((x@, final(self).pos as nat)),
                Err(e) => field_error(old(self).bytes@, old(self).pos as nat) == Err::<
                    (ResponseModel, nat),
                    CodecError,
                >(e),
            },
    {
        let tag: u32 = match self.u32() {
            Ok(t) => t,
            Err(e) => return Err(e),
        };
        let kind = match tag {
            0 => ServerErrorKind::NotFound,
            1 => ServerErrorKind::AlreadyExists,
            2 => ServerErrorKind::OutOfMemory,
            3 => ServerErrorKind::NotSealed,
            4 => ServerErrorKind::AlreadySealed,
            5 => ServerErrorKind::Internal,
            _ => {
                return Err(
                    CodecError::UnexpectedVariant {
                        tagged: TaggedType::ServerErrorKind,
                        found: tag,
                    },
                );
            },
        };
        match self.text() {
            Ok(message) => Ok(Response::Error { kind, message }),
            Err(e) => Err(e),
        }
    }
}

/// Once a list of identifiers has failed, a longer one fails the same way.
proof fn lemma_n_ids_error(s: Seq<u8>, pos: nat, k: nat, n: nat, e: CodecError)
    requires
        k <= n,
        field_n_ids(s, pos, k) == Err::<(Seq<Seq<u8>>, nat), CodecError>(e),
    ensures
        field_n_ids(s, pos, n) == Err::<(Seq<Seq<u8>>, nat), CodecError>(e),
    decreases n - k,
{
    if k < n {
        lemma_n_ids_error(s, pos, k + 1, n, e);
    }
}

/// A message that can be put into a frame.
pub trait WireMessage: View + Sized {
    /// The wire form.
    spec fn wire(m: Self::V) -> Seq<u8>;

    /// What bytes are as such a message.
    spec fn parse(s: Seq<u8>) -> Result<Self::V, CodecError>;

    /// The wire form of the message.
    fn to_wire(&self) -> (r: Vec<u8>)
        ensures
            r@ == Self::wire(self@),
    ;

    /// The message in the given bytes.
    fn from_wire(body: &[u8]) -> (r: Result<Self, CodecError>)
        ensures
            match r {
                Ok(m) => Self::parse(body@) == Ok::<Self::V, CodecError>(m@),
                Err(e) => Self::parse(body@) == Err::<Self::V, CodecError>(e),
            },
    ;
}

fn push_address(out: &mut Vec<u8>, a: &AddressBlob)
    ensures
        final(out)@ == old(out)@ + address_wire(a@),
{
    push_bytes(out, encode_byte_string(a.host.as_str().as_bytes()).as_slice());
    push_bytes(out, encode_u16(a.port).as_slice());
    push_bytes(out, &a.worker_id);
    assert(out@ =~= old(out)@ + address_wire(a@));
}

fn push_slot(out: &mut Vec<u8>, s: &SlotInfo)
    ensures
        final(out)@ == old(out)@ + slot_wire(*s),
{
    push_bytes(out, encode_u64(s.arena_id).as_slice());
    push_bytes(out, encode_u64(s.arena_capacity).as_slice());
    push_bytes(out, encode_u64(s.metadata_offset).as_slice());
    push_bytes(out, encode_u64(s.metadata_size).as_slice());
    push_bytes(out, encode_u64(s.data_offset).as_slice());
    push_bytes(out, encode_u64(s.data_size).as_slice());
    push_bool(out, s.sealed);
    assert(out@ =~= old(out)@ + slot_wire(*s));
}

fn push_bool(out: &mut Vec<u8>, b: bool)
    ensures
        final(out)@ == old(out)@ + bool_wire(b),
{
    out.push(
        if b {
            1
        } else {
            0
        },
    );
    assert(out@ =~= old(out)@ + bool_wire(b));
}

fn push_tagged_id(out: &mut Vec<u8>, tag: u32, id: &[u8; 28])
    ensures
        final(out)@ == old(out)@ + (bytes::u32_le(tag) + id@),
{
    push_bytes(out, encode_u32(tag).as_slice());
    push_bytes(out, id);
    assert(out@ =~= old(out)@ + (bytes::u32_le(tag) + id@));
}

impl WireMessage for Request {
    open spec fn wire(m: RequestModel) -> Seq<u8> {
        request_wire(m)
    }

    open spec fn parse(s: Seq<u8>) -> Result<RequestModel, CodecError> {
        parse_request(s)
    }

    fn to_wire(&self) -> (r: Vec<u8>) {
        let mut out: Vec<u8> = Vec::new();
        match self {
            Request::Create(c) => {
                push_tagged_id(&mut out, 0, &c.object_id);
                push_bytes(&mut out, encode_u64(c.metadata_size).as_slice());
                push_bytes(&mut out, encode_u64(c.data_size).as_slice());
                push_address(&mut out, &c.owner);
            },
            Request::Seal { object_id } => push_tagged_id(&mut out, 1, object_id),
            Request::Get { object_id } => push_tagged_id(&mut out, 2, object_id),
            Request::Contains { object_id } => push_tagged_id(&mut out, 3, object_id),
            Request::Release { object_id } => push_tagged_id(&mut out, 4, object_id),
            Request::Delete { object_id } => push_tagged_id(&mut out, 5, object_id),
            Request::List => push_bytes(&mut out, encode_u32(6).as_slice()),
            Request::Disconnect => push_bytes(&mut out, encode_u32(7).as_slice()),
        }
        assert(out@ =~= request_wire(self@));
        out
    }

    fn from_wire(body: &[u8]) -> (r: Result<Self, CodecError>) {
        let mut reader = Reader { bytes: body, pos: 0 };
        let tag: u32 = match reader.u32() {
            Ok(t) => t,
            Err(e) => return Err(e),
        };
        if tag == 0 {
            return match reader.create() {
                Ok(c) => Ok(Request::Create(c)),
                Err(e) => Err(e),
            };
        }
        if tag <= 5 {
            let object_id = match reader.array::<28>() {
                Ok(id) => id,
                Err(e) => return Err(e),
            };
            return Ok(
                match tag {
                    1 => Request::Seal { object_id },
                    2 => Request::Get { object_id },
                    3 => Request::Contains { object_id },
                    4 => Request::Release { object_id },
                    _ => Request::Delete { object_id },
                },
            );
        }
        match tag {
            6 => Ok(Request::List),
            7 => Ok(Request::Disconnect),
            _ => Err(CodecError::UnexpectedVariant { tagged: TaggedType::Request, found: tag }),
        }
    }
}

fn push_ids(out: &mut Vec<u8>, ids: &Vec<[u8; 28]>)
    ensures
        final(out)@ == old(out)@ + ids_wire(wire::ids_view(ids@)),
{
    let ghost all = wire::ids_view(ids@);
    let mut i: usize = 0;
    assert(all.skip(0) =~= all);
    assert(out@ + ids_wire(all.skip(0)) =~= old(out)@ + ids_wire(all));
    while i < ids.len()
        invariant
            i <= ids@.len(),
            all == wire::ids_view(ids@),
            out@ + ids_wire(all.skip(i as int)) == old(out)@ + ids_wire(all),
        decreases ids@.len() - i,
    {
        let ghost before = out@;
        push_bytes(out, &ids[i]);
        proof {
            let rest = all.skip(i as int);
            assert(rest[0] == ids@[i as int]@);
            assert(rest.skip(1) =~= all.skip(i + 1));
            assert(out@ + ids_wire(all.skip(i + 1)) =~= before + ids_wire(rest));
        }
        i += 1;
    }
    assert(ids_wire(all.skip(i as int)) =~= Seq::<u8>::empty());
    assert(out@ =~= old(out)@ + ids_wire(all));
}

fn tag_of_kind(kind: ServerErrorKind) -> (r: u32)
    ensures
        r == kind_tag(kind),
{
    match kind {
        ServerErrorKind::NotFound => 0,
        ServerErrorKind::AlreadyExists => 1,
        ServerErrorKind::OutOfMemory => 2,
        ServerErrorKind::NotSealed => 3,
        ServerErrorKind::AlreadySealed => 4,
        ServerErrorKind::Internal => 5,
    }
}

impl WireMessage for Response {
    open spec fn wire(m: ResponseModel) -> Seq<u8> {
        response_wire(m)
    }

    open spec fn parse(s: Seq<u8>) -> Result<ResponseModel, CodecError> {
        parse_response(s)
    }

    fn to_wire(&self) -> (r: Vec<u8>) {
        match self {
            Response::Done => encode_u32(0),
            Response::Created(info) => {
                let mut out = encode_u32(1);
                push_slot(&mut out, info);
                out
            },
            Response::Got(info) => {
                let mut out = encode_u32(2);
                push_slot(&mut out, info);
                out
            },
            Response::Contains { present, metadata, sealed } => {
                let mut out = encode_u32(3);
                push_bool(&mut out, *present);
                let ghost front = out@;
                match metadata {
                    None => {
                        out.push(0);
                    },
                    Some(m) => {
                        out.push(1);
                        push_bytes(&mut out, encode_byte_string(m.as_slice()).as_slice());
                    },
                }
                proof {
                    let m = match metadata {
                        None => None::<Seq<u8>>,
                        Some(m) => Some(m@),
                    };
                    assert(out@ =~= front + optional_wire(m));
                }
                push_bool(&mut out, *sealed);
                out
            },
            Response::Listed { object_ids } => {
                let mut out = encode_u32(4);
                push_bytes(&mut out, encode_u64(object_ids.len() as u64).as_slice());
                push_ids(&mut out, object_ids);
                out
            },
            Response::Error { kind, message } => {
                let mut out = encode_u32(5);
                push_bytes(&mut out, encode_u32(tag_of_kind(*kind)).as_slice());
                push_bytes(
                    &mut out,
                    encode_byte_string(message.as_str().as_bytes()).as_slice(),
                );
                out
            },
        }
    }

    fn from_wire(body: &[u8]) -> (r: Result<Self, CodecError>) {
        let mut reader = Reader { bytes: body, pos: 0 };
        let tag: u32 = match reader.u32() {
            Ok(t) => t,
            Err(e) => return Err(e),
        };
        match tag {
            0 => Ok(Response::Done),
            1 => match reader.slot() {
                Ok(info) => Ok(Response::Created(info)),
                Err(e) => Err(e),
            },
            2 => match reader.slot() {
                Ok(info) => Ok(Response::Got(info)),
                Err(e) => Err(e),
            },
            3 => reader.contains(),
            4 => match reader.ids() {
                Ok(object_ids) => Ok(Response::Listed { object_ids }),
                Err(e) => Err(e),
            },
            5 => reader.error(),
            _ => Err(CodecError::UnexpectedVariant { tagged: TaggedType::Response, found: tag }),
        }
    }
}

/// The body of the frame that carries a message.
pub fn encode<T: WireMessage>(value: &T) -> (r: Vec<u8>)
    ensures
        r@ == T::wire(value@),
{
    value.to_wire()
}

/// The message in the body of a frame.
pub fn decode<T: WireMessage>(body: &[u8]) -> (r: Result<T, CodecError>)
    ensures
        match r {
            Ok(m) => T::parse(body@) == Ok::<T::V, CodecError>(m@),
            Err(e) => T::parse(body@) == Err::<T::V, CodecError>(e),
        },
{
    T::from_wire(body)
}

// ---- round trips ----

proof fn lemma_raw(s: Seq<u8>, pos: nat, b: Seq<u8>)
    requires
        seqs::stands_at(s, pos, b),
        pos + b.len() <= MAX_FRAME_BYTES,
    ensures
        field_raw(s, pos, b.len()) == Ok::<(Seq<u8>, nat), CodecError>((b, pos + b.len())),
{
}

proof fn lemma_u8(s: Seq<u8>, pos: nat, x: u8)
    requires
        seqs::stands_at(s, pos, seq![x]),
        pos + seq![x].len() <= MAX_FRAME_BYTES,
    ensures
        field_u8(s, pos) == Ok::<(u8, nat), CodecError>((x, pos + seq![x].len())),
{
    assert(s.subrange(pos as int, (pos + 1) as int)[0] == x);
}

proof fn lemma_u16(s: Seq<u8>, pos: nat, x: u16)
    requires
        seqs::stands_at(s, pos, bytes::u16_le(x)),
        pos + bytes::u16_le(x).len() <= MAX_FRAME_BYTES,
    ensures
        field_u16(s, pos) == Ok::<(u16, nat), CodecError>((x, pos + bytes::u16_le(x).len())),
{
    seqs::lemma_stands_skip(s, pos, bytes::u16_le(x));
    bytes::lemma_u16_round_trip(x, s.skip((pos + 2) as int));
}

proof fn lemma_u32(s: Seq<u8>, pos: nat, x: u32)
    requires
        seqs::stands_at(s, pos, bytes::u32_le(x)),
        pos + bytes::u32_le(x).len() <= MAX_FRAME_BYTES,
    ensures
        field_u32(s, pos) == Ok::<(u32, nat), CodecError>((x, pos + bytes::u32_le(x).len())),
{
    seqs::lemma_stands_skip(s, pos, bytes::u32_le(x));
    bytes::lemma_u32_round_trip(x, s.skip((pos + 4) as int));
}

proof fn lemma_u64(s: Seq<u8>, pos: nat, x: u64)
    requires
        seqs::stands_at(s, pos, bytes::u64_le(x)),
        pos + bytes::u64_le(x).len() <= MAX_FRAME_BYTES,
    ensures
        field_u64(s, pos) == Ok::<(u64, nat), CodecError>((x, pos + bytes::u64_le(x).len())),
{
    seqs::lemma_stands_skip(s, pos, bytes::u64_le(x));
    bytes::lemma_u64_round_trip(x, s.skip((pos + 8) as int));
}

proof fn lemma_bool(s: Seq<u8>, pos: nat, x: bool)
    requires
        seqs::stands_at(s, pos, bool_wire(x)),
        pos + bool_wire(x).len() <= MAX_FRAME_BYTES,
    ensures
        field_bool(s, pos) == Ok::<(bool, nat), CodecError>((x, pos + bool_wire(x).len())),
{
    lemma_u8(
        s,
        pos,
        if x {
            1
        } else {
            0
        },
    );
}

proof fn lemma_bytes(s: Seq<u8>, pos: nat, b: Seq<u8>)
    requires
        seqs::stands_at(s, pos, byte_string(b)),
        pos + byte_string(b).len() <= MAX_FRAME_BYTES,
    ensures
        field_bytes(s, pos) == Ok::<(Seq<u8>, nat), CodecError>((b, pos + byte_string(b).len())),
{
    let n = b.len() as u64;
    seqs::lemma_stands_split(s, pos, bytes::u64_le(n), b);
    lemma_u64(s, pos, n);
    lemma_raw(s, pos + 8, b);
}

proof fn lemma_text(s: Seq<u8>, pos: nat, t: Seq<char>)
    requires
        seqs::stands_at(s, pos, byte_string(utf8::encode_utf8(t))),
        pos + byte_string(utf8::encode_utf8(t)).len() <= MAX_FRAME_BYTES,
    ensures
        field_text(s, pos) == Ok::<(Seq<char>, nat), CodecError>((t, pos + byte_string(utf8::encode_utf8(t)).len())),
{
    broadcast use utf8::encode_utf8_decode_utf8;
    broadcast use utf8::encode_utf8_valid_utf8;

    lemma_bytes(s, pos, utf8::encode_utf8(t));
}

proof fn lemma_optional(s: Seq<u8>, pos: nat, b: Option<Seq<u8>>)
    requires
        seqs::stands_at(s, pos, optional_wire(b)),
        pos + optional_wire(b).len() <= MAX_FRAME_BYTES,
    ensures
        field_optional(s, pos) == Ok::<(Option<Seq<u8>>, nat), CodecError>((b, pos + optional_wire(b).len())),
{
    match b {
        None => lemma_u8(s, pos, 0),
        Some(x) => {
            seqs::lemma_stands_split(s, pos, seq![1u8], byte_string(x));
            lemma_u8(s, pos, 1);
            lemma_bytes(s, pos + 1, x);
        },
    }
}

proof fn lemma_ids_wire_push(ids: Seq<Seq<u8>>, id: Seq<u8>)
    ensures
        ids_wire(ids.push(id)) == ids_wire(ids) + id,
    decreases ids.len(),
{
    let all = ids.push(id);
    if ids.len() == 0 {
        assert(all.skip(1) =~= Seq::<Seq<u8>>::empty());
        assert(ids_wire(all.skip(1)) =~= Seq::<u8>::empty());
        assert(ids_wire(all) =~= id);
        assert(ids_wire(ids) + id =~= id);
    } else {
        lemma_ids_wire_push(ids.skip(1), id);
        assert(all.skip(1) =~= ids.skip(1).push(id));
        assert(ids_wire(all) =~= ids_wire(ids) + id);
    }
}

/// Every identifier has 28 bytes.
pub open spec fn ids_ok(ids: Seq<Seq<u8>>) -> bool {
    forall|i: int| 0 <= i < ids.len() ==> (#[trigger] ids[i]).len() == 28
}

proof fn lemma_n_ids(s: Seq<u8>, pos: nat, ids: Seq<Seq<u8>>)
    requires
        ids_ok(ids),
        seqs::stands_at(s, pos, ids_wire(ids)),
        pos + ids_wire(ids).len() <= MAX_FRAME_BYTES,
    ensures
        ids_wire(ids).len() == 28 * ids.len(),
        field_n_ids(s, pos, ids.len()) == Ok::<(Seq<Seq<u8>>, nat), CodecError>(
            (ids, pos + 28 * ids.len()),
        ),
    decreases ids.len(),
{
    if ids.len() == 0 {
        assert(ids =~= Seq::<Seq<u8>>::empty());
    } else {
        let front = ids.drop_last();
        let id = ids.last();
        assert(ids =~= front.push(id));
        lemma_ids_wire_push(front, id);
        seqs::lemma_stands_split(s, pos, ids_wire(front), id);
        lemma_n_ids(s, pos, front);
        assert(id.len() == 28);
        lemma_raw(s, pos + ids_wire(front).len(), id);
    }
}

proof fn lemma_ids(s: Seq<u8>, pos: nat, ids: Seq<Seq<u8>>)
    requires
        ids_ok(ids),
        ids.len() <= usize::MAX,
        seqs::stands_at(s, pos, bytes::u64_le(ids.len() as u64) + ids_wire(ids)),
        pos + 8 + ids_wire(ids).len() <= MAX_FRAME_BYTES,
    ensures
        field_ids(s, pos) matches Ok((x, _)) && x == ids,
{
    let n = ids.len() as u64;
    seqs::lemma_stands_split(s, pos, bytes::u64_le(n), ids_wire(ids));
    lemma_u64(s, pos, n);
    lemma_n_ids(s, pos + 8, ids);
}

proof fn lemma_address(s: Seq<u8>, pos: nat, a: AddressBlobModel)
    requires
        seqs::stands_at(s, pos, address_wire(a)),
        pos + address_wire(a).len() <= MAX_FRAME_BYTES,
        a.worker_id.len() == 16,
    ensures
        field_address(s, pos) == Ok::<(AddressBlobModel, nat), CodecError>((a, pos + address_wire(a).len())),
{
    let host = byte_string(utf8::encode_utf8(a.host));
    let port = bytes::u16_le(a.port);
    seqs::lemma_stands_split(s, pos, host + port, a.worker_id);
    seqs::lemma_stands_split(s, pos, host, port);
    lemma_text(s, pos, a.host);
    lemma_u16(s, pos + host.len(), a.port);
    lemma_raw(s, pos + host.len() + 2, a.worker_id);
}

proof fn lemma_create(s: Seq<u8>, pos: nat, c: CreateModel)
    requires
        seqs::stands_at(s, pos, create_wire(c)),
        pos + create_wire(c).len() <= MAX_FRAME_BYTES,
        c.object_id.len() == 28,
        c.owner.worker_id.len() == 16,
    ensures
        field_create(s, pos) == Ok::<(CreateModel, nat), CodecError>((c, pos + create_wire(c).len())),
{
    let m = bytes::u64_le(c.metadata_size);
    let d = bytes::u64_le(c.data_size);
    let a = address_wire(c.owner);
    seqs::lemma_stands_split(s, pos, c.object_id + m + d, a);
    seqs::lemma_stands_split(s, pos, c.object_id + m, d);
    seqs::lemma_stands_split(s, pos, c.object_id, m);
    lemma_raw(s, pos, c.object_id);
    lemma_u64(s, pos + 28, c.metadata_size);
    lemma_u64(s, pos + 36, c.data_size);
    lemma_address(s, pos + 44, c.owner);
}

proof fn lemma_slot(s: Seq<u8>, pos: nat, i: SlotInfo)
    requires
        seqs::stands_at(s, pos, slot_wire(i)),
        pos + slot_wire(i).len() <= MAX_FRAME_BYTES,
    ensures
        field_slot(s, pos) == Ok::<(SlotInfo, nat), CodecError>((i, pos + slot_wire(i).len())),
{
    let f1 = bytes::u64_le(i.arena_id);
    let f2 = bytes::u64_le(i.arena_capacity);
    let f3 = bytes::u64_le(i.metadata_offset);
    let f4 = bytes::u64_le(i.metadata_size);
    let f5 = bytes::u64_le(i.data_offset);
    let f6 = bytes::u64_le(i.data_size);
    let f7 = bool_wire(i.sealed);
    seqs::lemma_stands_split(s, pos, f1 + f2 + f3 + f4 + f5 + f6, f7);
    seqs::lemma_stands_split(s, pos, f1 + f2 + f3 + f4 + f5, f6);
    seqs::lemma_stands_split(s, pos, f1 + f2 + f3 + f4, f5);
    seqs::lemma_stands_split(s, pos, f1 + f2 + f3, f4);
    seqs::lemma_stands_split(s, pos, f1 + f2, f3);
    seqs::lemma_stands_split(s, pos, f1, f2);
    lemma_u64(s, pos, i.arena_id);
    lemma_u64(s, pos + 8, i.arena_capacity);
    lemma_u64(s, pos + 16, i.metadata_offset);
    lemma_u64(s, pos + 24, i.metadata_size);
    lemma_u64(s, pos + 32, i.data_offset);
    lemma_u64(s, pos + 40, i.data_size);
    lemma_bool(s, pos + 48, i.sealed);
}

/// Identifiers in a request have their fixed lengths.
pub open spec fn request_ok(r: RequestModel) -> bool {
    match r {
        RequestModel::Create(c) => c.object_id.len() == 28 && c.owner.worker_id.len() == 16,
        RequestModel::Seal(id) => id.len() == 28,
        RequestModel::Get(id) => id.len() == 28,
        RequestModel::Contains(id) => id.len() == 28,
        RequestModel::Release(id) => id.len() == 28,
        RequestModel::Delete(id) => id.len() == 28,
        RequestModel::List => true,
        RequestModel::Disconnect => true,
    }
}

/// Every request has identifiers of the fixed lengths.
pub proof fn law_requests_are_in_order(r: Request)
    ensures
        request_ok(r@),
{
}

/// Decoding the wire form of a request that fits into a frame gives back the request,
/// whatever follows it.
pub proof fn law_request_round_trip(r: RequestModel, rest: Seq<u8>)
    requires
        request_ok(r),
        request_wire(r).len() <= MAX_FRAME_BYTES,
    ensures
        parse_request(request_wire(r) + rest) == Ok::<RequestModel, CodecError>(r),
{
    let s = request_wire(r) + rest;
    seqs::lemma_stands_front(request_wire(r), rest);
    match r {
        RequestModel::Create(c) => {
            seqs::lemma_stands_split(s, 0, bytes::u32_le(0), create_wire(c));
            lemma_u32(s, 0, 0);
            lemma_create(s, 4, c);
        },
        RequestModel::Seal(id) => lemma_tagged_id(s, 1, id),
        RequestModel::Get(id) => lemma_tagged_id(s, 2, id),
        RequestModel::Contains(id) => lemma_tagged_id(s, 3, id),
        RequestModel::Release(id) => lemma_tagged_id(s, 4, id),
        RequestModel::Delete(id) => lemma_tagged_id(s, 5, id),
        RequestModel::List => lemma_u32(s, 0, 6),
        RequestModel::Disconnect => lemma_u32(s, 0, 7),
    }
}

proof fn lemma_tagged_id(s: Seq<u8>, tag: u32, id: Seq<u8>)
    requires
        id.len() == 28,
        seqs::stands_at(s, 0, bytes::u32_le(tag) + id),
    ensures
        field_u32(s, 0) == Ok::<(u32, nat), CodecError>((tag, 4)),
        field_raw(s, 4, 28) == Ok::<(Seq<u8>, nat), CodecError>((id, 32)),
{
    seqs::lemma_stands_split(s, 0, bytes::u32_le(tag), id);
    lemma_u32(s, 0, tag);
    lemma_raw(s, 4, id);
}

/// Identifiers in a response have their fixed length, and their number fits the machine.
pub open spec fn response_ok(r: ResponseModel) -> bool {
    r matches ResponseModel::Listed(ids) ==> ids_ok(ids) && ids.len() <= usize::MAX
}

/// Every response has identifiers of the fixed length.
pub proof fn law_responses_are_in_order(r: Response)
    requires
        r matches Response::Listed { object_ids } ==> object_ids@.len() <= usize::MAX,
    ensures
        response_ok(r@),
{
}

/// Decoding the wire form of a response that fits into a frame gives back the response,
/// whatever follows it.
pub proof fn law_response_round_trip(r: ResponseModel, rest: Seq<u8>)
    requires
        response_ok(r),
        response_wire(r).len() <= MAX_FRAME_BYTES,
    ensures
        parse_response(response_wire(r) + rest) == Ok::<ResponseModel, CodecError>(r),
{
    let s = response_wire(r) + rest;
    seqs::lemma_stands_front(response_wire(r), rest);
    match r {
        ResponseModel::Done => lemma_u32(s, 0, 0),
        ResponseModel::Created(i) => {
            seqs::lemma_stands_split(s, 0, bytes::u32_le(1), slot_wire(i));
            lemma_u32(s, 0, 1);
            lemma_slot(s, 4, i);
        },
        ResponseModel::Got(i) => {
            seqs::lemma_stands_split(s, 0, bytes::u32_le(2), slot_wire(i));
            lemma_u32(s, 0, 2);
            lemma_slot(s, 4, i);
        },
        ResponseModel::Contains(present, metadata, sealed) => {
            lemma_contains(s, present, metadata, sealed);
        },
        ResponseModel::Listed(ids) => {
            lemma_listed(s, ids);
        },
        ResponseModel::Error(kind, message) => {
            lemma_error(s, kind, message);
        },
    }
}

proof fn lemma_contains(s: Seq<u8>, present: bool, metadata: Option<Seq<u8>>, sealed: bool)
    requires
        seqs::stands_at(s, 0, response_wire(ResponseModel::Contains(present, metadata, sealed))),
        response_wire(ResponseModel::Contains(present, metadata, sealed)).len() <= MAX_FRAME_BYTES,
    ensures
        field_u32(s, 0) == Ok::<(u32, nat), CodecError>((3, 4)),
        field_contains(s, 4) matches Ok((x, _)) && x == ResponseModel::Contains(
            present,
            metadata,
            sealed,
        ),
{
    let t = bytes::u32_le(3);
    let a = bool_wire(present);
    let b = optional_wire(metadata);
    seqs::lemma_stands_split(s, 0, t + a + b, bool_wire(sealed));
    seqs::lemma_stands_split(s, 0, t + a, b);
    seqs::lemma_stands_split(s, 0, t, a);
    lemma_u32(s, 0, 3);
    lemma_bool(s, 4, present);
    lemma_optional(s, 5, metadata);
    lemma_bool(s, 5 + b.len(), sealed);
}

proof fn lemma_listed(s: Seq<u8>, ids: Seq<Seq<u8>>)
    requires
        ids_ok(ids),
        ids.len() <= usize::MAX,
        seqs::stands_at(s, 0, response_wire(ResponseModel::Listed(ids))),
        response_wire(ResponseModel::Listed(ids)).len() <= MAX_FRAME_BYTES,
    ensures
        field_u32(s, 0) == Ok::<(u32, nat), CodecError>((4, 4)),
        field_ids(s, 4) matches Ok((x, _)) && x == ids,
{
    let t = bytes::u32_le(4);
    let n = bytes::u64_le(ids.len() as u64);
    seqs::lemma_assoc3(t, n, ids_wire(ids));
    seqs::lemma_stands_split(s, 0, t, n + ids_wire(ids));
    lemma_u32(s, 0, 4);
    lemma_ids(s, 4, ids);
}

proof fn lemma_error(s: Seq<u8>, kind: ServerErrorKind, message: Seq<char>)
    requires
        seqs::stands_at(s, 0, response_wire(ResponseModel::Error(kind, message))),
        response_wire(ResponseModel::Error(kind, message)).len() <= MAX_FRAME_BYTES,
    ensures
        field_u32(s, 0) == Ok::<(u32, nat), CodecError>((5, 4)),
        field_error(s, 4) matches Ok((x, _)) && x == ResponseModel::Error(kind, message),
{
    let t = bytes::u32_le(5);
    let k = bytes::u32_le(kind_tag(kind));
    let m = byte_string(utf8::encode_utf8(message));
    seqs::lemma_stands_split(s, 0, t + k, m);
    seqs::lemma_stands_split(s, 0, t, k);
    lemma_u32(s, 0, 5);
    lemma_u32(s, 4, kind_tag(kind));
    lemma_text(s, 8, message);
}

proof fn lemma_u8_back(s: Seq<u8>, pos: nat)
    requires
        field_u8(s, pos) is Ok,
    ensures
        ({
            let (x, end) = field_u8(s, pos)->Ok_0;
            seqs::stands_at(s, pos, seq![x]) && end == pos + (seq![x]).len() && end <= MAX_FRAME_BYTES
        }),
{
    let x = field_u8(s, pos)->Ok_0.0;
    assert(s.subrange(pos as int, (pos + 1) as int) =~= seq![x]);
}

proof fn lemma_u16_back(s: Seq<u8>, pos: nat)
    requires
        field_u16(s, pos) is Ok,
    ensures
        ({
            let (x, end) = field_u16(s, pos)->Ok_0;
            seqs::stands_at(s, pos, bytes::u16_le(x)) && end == pos + (bytes::u16_le(x)).len() && end <= MAX_FRAME_BYTES
        }),
{
    let x = field_u16(s, pos)->Ok_0.0;
    let t = s.skip(pos as int);
    bytes::law_u16_read_and_write(t);
    assert(s.subrange(pos as int, (pos + 2) as int) =~= t.take(2));
}

proof fn lemma_u32_back(s: Seq<u8>, pos: nat)
    requires
        field_u32(s, pos) is Ok,
    ensures
        ({
            let (x, end) = field_u32(s, pos)->Ok_0;
            seqs::stands_at(s, pos, bytes::u32_le(x)) && end == pos + (bytes::u32_le(x)).len() && end <= MAX_FRAME_BYTES
        }),
{
    let x = field_u32(s, pos)->Ok_0.0;
    let t = s.subrange(pos as int, (pos + 4) as int);
    bytes::lemma_u32_bytes_round_trip(t);
    assert(t.take(4) =~= s.skip(pos as int).take(4));
    bytes::lemma_u32_front(s.skip(pos as int), t);
}

proof fn lemma_u64_back(s: Seq<u8>, pos: nat)
    requires
        field_u64(s, pos) is Ok,
    ensures
        ({
            let (x, end) = field_u64(s, pos)->Ok_0;
            seqs::stands_at(s, pos, bytes::u64_le(x)) && end == pos + (bytes::u64_le(x)).len() && end <= MAX_FRAME_BYTES
        }),
{
    let t = s.skip(pos as int);
    let b = t.take(8);
    assert(b.take(8) =~= t.take(8));
    bytes::lemma_u64_front(t, b);
    bytes::lemma_u64_bytes_round_trip(b);
    assert(s.subrange(pos as int, (pos + 8) as int) =~= b);
}

proof fn lemma_bool_back(s: Seq<u8>, pos: nat)
    requires
        field_bool(s, pos) is Ok,
    ensures
        ({
            let (x, end) = field_bool(s, pos)->Ok_0;
            seqs::stands_at(s, pos, bool_wire(x)) && end == pos + (bool_wire(x)).len() && end <= MAX_FRAME_BYTES
        }),
{
    lemma_u8_back(s, pos);
    let x = field_bool(s, pos)->Ok_0.0;
    assert(bool_wire(x) =~= seq![s[pos as int]]);
}

proof fn lemma_bytes_back(s: Seq<u8>, pos: nat)
    requires
        field_bytes(s, pos) is Ok,
    ensures
        ({
            let (x, end) = field_bytes(s, pos)->Ok_0;
            seqs::stands_at(s, pos, byte_string(x)) && end == pos + (byte_string(x)).len() && end <= MAX_FRAME_BYTES && x.len() <= u64::MAX
        }),
{
    lemma_u64_back(s, pos);
    let (n, p) = field_u64(s, pos)->Ok_0;
    let x = field_bytes(s, pos)->Ok_0.0;
    assert(x.len() == n);
    seqs::lemma_stands_join(s, pos, bytes::u64_le(n), x);
}

proof fn lemma_text_back(s: Seq<u8>, pos: nat)
    requires
        field_text(s, pos) is Ok,
    ensures
        ({
            let (x, end) = field_text(s, pos)->Ok_0;
            seqs::stands_at(s, pos, byte_string(utf8::encode_utf8(x))) && end == pos + (byte_string(utf8::encode_utf8(x))).len() && end <= MAX_FRAME_BYTES
        }),
{
    broadcast use utf8::decode_utf8_encode_utf8;

    lemma_bytes_back(s, pos);
}

proof fn lemma_optional_back(s: Seq<u8>, pos: nat)
    requires
        field_optional(s, pos) is Ok,
    ensures
        ({
            let (x, end) = field_optional(s, pos)->Ok_0;
            seqs::stands_at(s, pos, optional_wire(x)) && end == pos + (optional_wire(x)).len() && end <= MAX_FRAME_BYTES
        }),
{
    lemma_u8_back(s, pos);
    let x = field_optional(s, pos)->Ok_0.0;
    if let Some(b) = x {
        lemma_bytes_back(s, pos + 1);
        assert(seq![s[pos as int]] =~= seq![1u8]);
        seqs::lemma_stands_join(s, pos, seq![1u8], byte_string(b));
    } else {
        assert(seq![s[pos as int]] =~= seq![0u8]);
    }
}

proof fn lemma_address_back(s: Seq<u8>, pos: nat)
    requires
        field_address(s, pos) is Ok,
    ensures
        ({
            let (x, end) = field_address(s, pos)->Ok_0;
            seqs::stands_at(s, pos, address_wire(x)) && end == pos + (address_wire(x)).len() && end <= MAX_FRAME_BYTES && x.worker_id.len() == 16
        }),
{
    lemma_text_back(s, pos);
    let (host, p) = field_text(s, pos)->Ok_0;
    lemma_u16_back(s, p);
    let (port, q) = field_u16(s, p)->Ok_0;
    let x = field_address(s, pos)->Ok_0.0;
    let h = byte_string(utf8::encode_utf8(host));
    seqs::lemma_stands_join(s, pos, h, bytes::u16_le(port));
    seqs::lemma_stands_join(s, pos, h + bytes::u16_le(port), x.worker_id);
}

proof fn lemma_create_back(s: Seq<u8>, pos: nat)
    requires
        field_create(s, pos) is Ok,
    ensures
        ({
            let (x, end) = field_create(s, pos)->Ok_0;
            seqs::stands_at(s, pos, create_wire(x)) && end == pos + (create_wire(x)).len() && end <= MAX_FRAME_BYTES && x.object_id.len() == 28 && x.owner.worker_id.len() == 16
        }),
{
    let x = field_create(s, pos)->Ok_0.0;
    lemma_u64_back(s, pos + 28);
    lemma_u64_back(s, pos + 36);
    lemma_address_back(s, pos + 44);
    let m = bytes::u64_le(x.metadata_size);
    let d = bytes::u64_le(x.data_size);
    seqs::lemma_stands_join(s, pos, x.object_id, m);
    seqs::lemma_stands_join(s, pos, x.object_id + m, d);
    seqs::lemma_stands_join(s, pos, x.object_id + m + d, address_wire(x.owner));
}

proof fn lemma_slot_back(s: Seq<u8>, pos: nat)
    requires
        field_slot(s, pos) is Ok,
    ensures
        ({
            let (x, end) = field_slot(s, pos)->Ok_0;
            seqs::stands_at(s, pos, slot_wire(x)) && end == pos + (slot_wire(x)).len() && end <= MAX_FRAME_BYTES
        }),
{
    let i = field_slot(s, pos)->Ok_0.0;
    lemma_u64_back(s, pos);
    lemma_u64_back(s, pos + 8);
    lemma_u64_back(s, pos + 16);
    lemma_u64_back(s, pos + 24);
    lemma_u64_back(s, pos + 32);
    lemma_u64_back(s, pos + 40);
    lemma_bool_back(s, pos + 48);
    let f1 = bytes::u64_le(i.arena_id);
    let f2 = bytes::u64_le(i.arena_capacity);
    let f3 = bytes::u64_le(i.metadata_offset);
    let f4 = bytes::u64_le(i.metadata_size);
    let f5 = bytes::u64_le(i.data_offset);
    let f6 = bytes::u64_le(i.data_size);
    let f7 = bool_wire(i.sealed);
    seqs::lemma_stands_join(s, pos, f1, f2);
    seqs::lemma_stands_join(s, pos, f1 + f2, f3);
    seqs::lemma_stands_join(s, pos, f1 + f2 + f3, f4);
    seqs::lemma_stands_join(s, pos, f1 + f2 + f3 + f4, f5);
    seqs::lemma_stands_join(s, pos, f1 + f2 + f3 + f4 + f5, f6);
    seqs::lemma_stands_join(s, pos, f1 + f2 + f3 + f4 + f5 + f6, f7);
}

proof fn lemma_n_ids_back(s: Seq<u8>, pos: nat, n: nat)
    requires
        field_n_ids(s, pos, n) is Ok,
        pos <= s.len(),
        pos <= MAX_FRAME_BYTES,
    ensures
        ({
            let (ids, end) = field_n_ids(s, pos, n)->Ok_0;
            seqs::stands_at(s, pos, ids_wire(ids)) && end == pos + ids_wire(ids).len() && ids.len()
                == n && ids_ok(ids) && end <= MAX_FRAME_BYTES
        }),
    decreases n,
{
    let (ids, end) = field_n_ids(s, pos, n)->Ok_0;
    if n == 0 {
        assert(s.subrange(pos as int, pos as int) =~= Seq::<u8>::empty());
    } else {
        lemma_n_ids_back(s, pos, (n - 1) as nat);
        let (front, p) = field_n_ids(s, pos, (n - 1) as nat)->Ok_0;
        let id = field_raw(s, p, 28)->Ok_0.0;
        lemma_ids_wire_push(front, id);
        seqs::lemma_stands_join(s, pos, ids_wire(front), id);
        assert forall|i: int| 0 <= i < ids.len() implies (#[trigger] ids[i]).len() == 28 by {
            if i < front.len() {
                assert(ids[i] == front[i]);
            }
        }
    }
}

/// Bytes that decode to a request are those that the request encodes to, whatever follows
/// them: nothing is taken for a request that is none.
pub proof fn law_decoded_request_encodes_back(s: Seq<u8>, r: RequestModel)
    requires
        parse_request(s) == Ok::<RequestModel, CodecError>(r),
    ensures
        request_ok(r),
        request_wire(r).len() <= MAX_FRAME_BYTES,
        seqs::stands_at(s, 0, request_wire(r)),
{
    lemma_u32_back(s, 0);
    let tag = field_u32(s, 0)->Ok_0.0;
    match r {
        RequestModel::Create(c) => {
            lemma_create_back(s, 4);
            seqs::lemma_stands_join(s, 0, bytes::u32_le(0), create_wire(c));
        },
        RequestModel::Seal(id) => seqs::lemma_stands_join(s, 0, bytes::u32_le(tag), id),
        RequestModel::Get(id) => seqs::lemma_stands_join(s, 0, bytes::u32_le(tag), id),
        RequestModel::Contains(id) => seqs::lemma_stands_join(s, 0, bytes::u32_le(tag), id),
        RequestModel::Release(id) => seqs::lemma_stands_join(s, 0, bytes::u32_le(tag), id),
        RequestModel::Delete(id) => seqs::lemma_stands_join(s, 0, bytes::u32_le(tag), id),
        RequestModel::List => {},
        RequestModel::Disconnect => {},
    }
}

/// Bytes that decode to a response are those that the response encodes to, whatever follows
/// them.
pub proof fn law_decoded_response_encodes_back(s: Seq<u8>, r: ResponseModel)
    requires
        parse_response(s) == Ok::<ResponseModel, CodecError>(r),
    ensures
        response_ok(r),
        response_wire(r).len() <= MAX_FRAME_BYTES,
        seqs::stands_at(s, 0, response_wire(r)),
{
    lemma_u32_back(s, 0);
    match r {
        ResponseModel::Done => {},
        ResponseModel::Created(i) => {
            lemma_slot_back(s, 4);
            seqs::lemma_stands_join(s, 0, bytes::u32_le(1), slot_wire(i));
        },
        ResponseModel::Got(i) => {
            lemma_slot_back(s, 4);
            seqs::lemma_stands_join(s, 0, bytes::u32_le(2), slot_wire(i));
        },
        ResponseModel::Contains(present, metadata, sealed) => {
            lemma_bool_back(s, 4);
            lemma_optional_back(s, 5);
            lemma_bool_back(s, 5 + optional_wire(metadata).len());
            let t = bytes::u32_le(3);
            let a = bool_wire(present);
            let b = optional_wire(metadata);
            seqs::lemma_stands_join(s, 0, t, a);
            seqs::lemma_stands_join(s, 0, t + a, b);
            seqs::lemma_stands_join(s, 0, t + a + b, bool_wire(sealed));
        },
        ResponseModel::Listed(ids) => {
            lemma_u64_back(s, 4);
            let (n, p) = field_u64(s, 4)->Ok_0;
            lemma_n_ids_back(s, 12, n as nat);
            seqs::lemma_stands_join(s, 0, bytes::u32_le(4), bytes::u64_le(n));
            seqs::lemma_stands_join(s, 0, bytes::u32_le(4) + bytes::u64_le(n), ids_wire(ids));
        },
        ResponseModel::Error(kind, message) => {
            lemma_u32_back(s, 4);
            lemma_text_back(s, 8);
            let t = bytes::u32_le(5);
            let k = bytes::u32_le(kind_tag(kind));
            seqs::lemma_stands_join(s, 0, t, k);
            seqs::lemma_stands_join(s, 0, t + k, byte_string(utf8::encode_utf8(message)));
        },
    }
}

/// A message that was cut short does not decode, to whatever.
pub proof fn law_cut_message_is_refused(q: RequestModel, r: ResponseModel, i: int, j: int)
    requires
        request_ok(q),
        request_wire(q).len() <= MAX_FRAME_BYTES,
        0 <= i < request_wire(q).len(),
        response_ok(r),
        response_wire(r).len() <= MAX_FRAME_BYTES,
        0 <= j < response_wire(r).len(),
    ensures
        parse_request(request_wire(q).take(i)) is Err,
        parse_response(response_wire(r).take(j)) is Err,
{
    let none = Seq::<u8>::empty();
    let w = request_wire(q);
    if let Ok(x) = parse_request(w.take(i)) {
        law_decoded_request_encodes_back(w.take(i), x);
        let n = request_wire(x).len() as int;
        assert(w.take(i).subrange(0, n) =~= w.take(n));
        assert(w =~= request_wire(x) + w.skip(n));
        law_request_round_trip(x, w.skip(n));
        assert(w + none =~= w);
        law_request_round_trip(q, none);
    }
    let v = response_wire(r);
    if let Ok(x) = parse_response(v.take(j)) {
        law_decoded_response_encodes_back(v.take(j), x);
        let n = response_wire(x).len() as int;
        assert(v.take(j).subrange(0, n) =~= v.take(n));
        assert(v =~= response_wire(x) + v.skip(n));
        law_response_round_trip(x, v.skip(n));
        assert(v + none =~= v);
        law_response_round_trip(r, none);
    }
}

/// Where the parts of a request for a new object stand: its number, the identifier, the two
/// sizes and the owner's host behind its length, port and worker.
pub proof fn law_create_layout(c: CreateModel)
    requires
        c.object_id.len() == 28,
        c.owner.worker_id.len() == 16,
    ensures
        ({
            let w = request_wire(RequestModel::Create(c));
            let h = utf8::encode_utf8(c.owner.host);
            &&& seqs::stands_at(w, 0, bytes::u32_le(0))
            &&& seqs::stands_at(w, 4, c.object_id)
            &&& seqs::stands_at(w, 32, bytes::u64_le(c.metadata_size))
            &&& seqs::stands_at(w, 40, bytes::u64_le(c.data_size))
            &&& seqs::stands_at(w, 48, bytes::u64_le(h.len() as u64))
            &&& seqs::stands_at(w, 56, h)
            &&& seqs::stands_at(w, 56 + h.len(), bytes::u16_le(c.owner.port))
            &&& seqs::stands_at(w, 58 + h.len(), c.owner.worker_id)
            &&& w.len() == 74 + h.len()
        }),
{
    let w = request_wire(RequestModel::Create(c));
    let h = utf8::encode_utf8(c.owner.host);
    let m = bytes::u64_le(c.metadata_size);
    let d = bytes::u64_le(c.data_size);
    let a = address_wire(c.owner);
    let p = bytes::u16_le(c.owner.port);
    assert(w.subrange(0, w.len() as int) =~= w);
    seqs::lemma_stands_split(w, 0, bytes::u32_le(0), create_wire(c));
    seqs::lemma_stands_split(w, 4, c.object_id + m + d, a);
    seqs::lemma_stands_split(w, 4, c.object_id + m, d);
    seqs::lemma_stands_split(w, 4, c.object_id, m);
    seqs::lemma_stands_split(w, 48, byte_string(h) + p, c.owner.worker_id);
    seqs::lemma_stands_split(w, 48, byte_string(h), p);
    seqs::lemma_stands_split(w, 48, bytes::u64_le(h.len() as u64), h);
}

/// Where the parts of another request stand: its number, counted in the order of declaration,
/// and the identifier behind it.
pub proof fn law_request_layout(id: Seq<u8>)
    ensures
        request_wire(RequestModel::Seal(id)).take(4) == bytes::u32_le(1),
        request_wire(RequestModel::Seal(id)).skip(4) == id,
        request_wire(RequestModel::Get(id)).take(4) == bytes::u32_le(2),
        request_wire(RequestModel::Get(id)).skip(4) == id,
        request_wire(RequestModel::Contains(id)).take(4) == bytes::u32_le(3),
        request_wire(RequestModel::Contains(id)).skip(4) == id,
        request_wire(RequestModel::Release(id)).take(4) == bytes::u32_le(4),
        request_wire(RequestModel::Release(id)).skip(4) == id,
        request_wire(RequestModel::Delete(id)).take(4) == bytes::u32_le(5),
        request_wire(RequestModel::Delete(id)).skip(4) == id,
        request_wire(RequestModel::List) == bytes::u32_le(6),
        request_wire(RequestModel::Disconnect) == bytes::u32_le(7),
{
    lemma_tag_and_rest(1, id);
    lemma_tag_and_rest(2, id);
    lemma_tag_and_rest(3, id);
    lemma_tag_and_rest(4, id);
    lemma_tag_and_rest(5, id);
}

proof fn lemma_tag_and_rest(tag: u32, rest: Seq<u8>)
    ensures
        (bytes::u32_le(tag) + rest).take(4) == bytes::u32_le(tag),
        (bytes::u32_le(tag) + rest).skip(4) == rest,
{
    assert((bytes::u32_le(tag) + rest).take(4) =~= bytes::u32_le(tag));
    assert((bytes::u32_le(tag) + rest).skip(4) =~= rest);
}

/// Where the parts of a slot stand: six numbers of eight bytes, and a byte that says whether
/// the object is sealed.
pub proof fn law_slot_layout(i: SlotInfo)
    ensures
        ({
            let w = slot_wire(i);
            &&& w.len() == 49
            &&& seqs::stands_at(w, 0, bytes::u64_le(i.arena_id))
            &&& seqs::stands_at(w, 8, bytes::u64_le(i.arena_capacity))
            &&& seqs::stands_at(w, 16, bytes::u64_le(i.metadata_offset))
            &&& seqs::stands_at(w, 24, bytes::u64_le(i.metadata_size))
            &&& seqs::stands_at(w, 32, bytes::u64_le(i.data_offset))
            &&& seqs::stands_at(w, 40, bytes::u64_le(i.data_size))
            &&& w[48] == (if i.sealed {
                1u8
            } else {
                0u8
            })
        }),
{
    let w = slot_wire(i);
    let f1 = bytes::u64_le(i.arena_id);
    let f2 = bytes::u64_le(i.arena_capacity);
    let f3 = bytes::u64_le(i.metadata_offset);
    let f4 = bytes::u64_le(i.metadata_size);
    let f5 = bytes::u64_le(i.data_offset);
    let f6 = bytes::u64_le(i.data_size);
    let f7 = bool_wire(i.sealed);
    assert(w.subrange(0, w.len() as int) =~= w);
    seqs::lemma_stands_split(w, 0, f1 + f2 + f3 + f4 + f5 + f6, f7);
    seqs::lemma_stands_split(w, 0, f1 + f2 + f3 + f4 + f5, f6);
    seqs::lemma_stands_split(w, 0, f1 + f2 + f3 + f4, f5);
    seqs::lemma_stands_split(w, 0, f1 + f2 + f3, f4);
    seqs::lemma_stands_split(w, 0, f1 + f2, f3);
    seqs::lemma_stands_split(w, 0, f1, f2);
}

/// Where the parts of a response stand: its number, counted in the order of declaration, and
/// behind it a slot, the answer about a presence, the identifiers behind their number, or the
/// kind of a failure and its message behind its length.
pub proof fn law_response_layout(r: ResponseModel)
    requires
        response_ok(r),
    ensures
        ({
            let w = response_wire(r);
            match r {
                ResponseModel::Done => w == bytes::u32_le(0),
                ResponseModel::Created(i) => w == bytes::u32_le(1) + slot_wire(i),
                ResponseModel::Got(i) => w == bytes::u32_le(2) + slot_wire(i),
                ResponseModel::Contains(present, metadata, sealed) => {
                    &&& seqs::stands_at(w, 0, bytes::u32_le(3))
                    &&& w[4] == (if present {
                        1u8
                    } else {
                        0u8
                    })
                    &&& w[5] == (if metadata is Some {
                        1u8
                    } else {
                        0u8
                    })
                    &&& metadata is None ==> w.len() == 7
                    &&& metadata matches Some(b) ==> w.len() == 15 + b.len() && seqs::stands_at(
                        w,
                        6,
                        bytes::u64_le(b.len() as u64),
                    ) && seqs::stands_at(w, 14, b)
                    &&& w.last() == (if sealed {
                        1u8
                    } else {
                        0u8
                    })
                },
                ResponseModel::Listed(ids) => {
                    &&& seqs::stands_at(w, 0, bytes::u32_le(4))
                    &&& seqs::stands_at(w, 4, bytes::u64_le(ids.len() as u64))
                    &&& w.len() == 12 + 28 * ids.len()
                    &&& forall|k: int|
                        0 <= k < ids.len() ==> seqs::stands_at(
                            w,
                            (12 + 28 * k) as nat,
                            #[trigger] ids[k],
                        )
                },
                ResponseModel::Error(kind, message) => {
                    let m = utf8::encode_utf8(message);
                    &&& seqs::stands_at(w, 0, bytes::u32_le(5))
                    &&& seqs::stands_at(w, 4, bytes::u32_le(kind_tag(kind)))
                    &&& seqs::stands_at(w, 8, bytes::u64_le(m.len() as u64))
                    &&& seqs::stands_at(w, 16, m)
                    &&& w.len() == 16 + m.len()
                },
            }
        }),
{
    let w = response_wire(r);
    assert(w.subrange(0, w.len() as int) =~= w);
    match r {
        ResponseModel::Contains(present, metadata, sealed) => {
            let t = bytes::u32_le(3);
            let a = bool_wire(present);
            let b = optional_wire(metadata);
            seqs::lemma_stands_split(w, 0, t + a + b, bool_wire(sealed));
            seqs::lemma_stands_split(w, 0, t + a, b);
            seqs::lemma_stands_split(w, 0, t, a);
            if let Some(x) = metadata {
                seqs::lemma_stands_split(w, 5, seq![1u8], byte_string(x));
                seqs::lemma_stands_split(w, 6, bytes::u64_le(x.len() as u64), x);
            }
        },
        ResponseModel::Listed(ids) => {
            let t = bytes::u32_le(4);
            let n = bytes::u64_le(ids.len() as u64);
            seqs::lemma_stands_split(w, 0, t + n, ids_wire(ids));
            seqs::lemma_stands_split(w, 0, t, n);
            lemma_ids_layout(w, 12, ids);
        },
        ResponseModel::Error(kind, message) => {
            let t = bytes::u32_le(5);
            let k = bytes::u32_le(kind_tag(kind));
            let m = utf8::encode_utf8(message);
            seqs::lemma_stands_split(w, 0, t + k, byte_string(m));
            seqs::lemma_stands_split(w, 0, t, k);
            seqs::lemma_stands_split(w, 8, bytes::u64_le(m.len() as u64), m);
        },
        _ => {},
    }
}

proof fn lemma_ids_layout(w: Seq<u8>, pos: nat, ids: Seq<Seq<u8>>)
    requires
        ids_ok(ids),
        seqs::stands_at(w, pos, ids_wire(ids)),
    ensures
        ids_wire(ids).len() == 28 * ids.len(),
        forall|k: int|
            0 <= k < ids.len() ==> seqs::stands_at(w, (pos + 28 * k) as nat, #[trigger] ids[k]),
    decreases ids.len(),
{
    if ids.len() > 0 {
        let front = ids.drop_last();
        let id = ids.last();
        assert(ids =~= front.push(id));
        lemma_ids_wire_push(front, id);
        seqs::lemma_stands_split(w, pos, ids_wire(front), id);
        lemma_ids_layout(w, pos, front);
        assert forall|k: int| 0 <= k < ids.len() implies seqs::stands_at(
            w,
            (pos + 28 * k) as nat,
            #[trigger] ids[k],
        ) by {
            if k < front.len() {
                assert(ids[k] == front[k]);
            }
        }
    }
}

/// The kinds of failures are numbered in the order of declaration, and a number beyond them
/// stands for none.
pub proof fn law_kind_tags(k: ServerErrorKind, tag: u32)
    ensures
        kind_of_tag(kind_tag(k)) == Ok::<ServerErrorKind, CodecError>(k),
        kind_of_tag(tag) is Ok <==> tag <= 5,
        kind_of_tag(tag) matches Ok(x) ==> kind_tag(x) == tag,
        kind_tag(ServerErrorKind::NotFound) == 0,
        kind_tag(ServerErrorKind::AlreadyExists) == 1,
        kind_tag(ServerErrorKind::OutOfMemory) == 2,
        kind_tag(ServerErrorKind::NotSealed) == 3,
        kind_tag(ServerErrorKind::AlreadySealed) == 4,
        kind_tag(ServerErrorKind::Internal) == 5,
{
}

/// A field is read exactly where it lies within the first 8 MiB and within the bytes that are
/// there; that it is beyond the former is told apart from that bytes are missing, whose number
/// is told.
pub proof fn law_fields_are_limited(s: Seq<u8>, pos: nat, n: nat)
    requires
        pos <= s.len(),
        n <= usize::MAX,
    ensures
        field_end(s, pos, n) is Ok <==> pos + n <= 8 * 1024 * 1024 && pos + n <= s.len(),
        field_end(s, pos, n) matches Ok(end) ==> end == pos + n,
        field_end(s, pos, n) == Err::<nat, CodecError>(CodecError::LimitExceeded) <==> pos + n > 8
            * 1024 * 1024,
        field_end(s, pos, n) matches Err(CodecError::UnexpectedEnd { additional }) ==> s.len()
            + additional == pos + n,
{
}

/// A number that stands for no message is told, with the kind of message that was expected.
pub proof fn law_unknown_messages_are_told(s: Seq<u8>)
    requires
        s.len() >= 4,
    ensures
        bytes::le_u32(s) > 7 ==> parse_request(s) == Err::<RequestModel, CodecError>(
            CodecError::UnexpectedVariant {
                tagged: TaggedType::Request,
                found: bytes::le_u32(s) as u32,
            },
        ),
        bytes::le_u32(s) > 5 ==> parse_response(s) == Err::<ResponseModel, CodecError>(
            CodecError::UnexpectedVariant {
                tagged: TaggedType::Response,
                found: bytes::le_u32(s) as u32,
            },
        ),
{
    let front = s.take(4);
    assert(front.take(4) =~= s.take(4));
    bytes::lemma_u32_front(s, front);
    bytes::lemma_u32_bytes_round_trip(front);
    assert(s.skip(0) =~= s);
}

} // verus!
