//! Strongly typed identifiers.
//!
//! Each identifier is a fixed-width byte array: `JobId`, `WorkerId` and `ActorId` have
//! 16 bytes, `TaskId` 24 (16 of the job, 8 of a counter) and `ObjectId` 28 (24 of the
//! task, 4 of a return index).

use crate::util::bytes;
use crate::util::bytes::{arrays_equal, get_u32_le, to_array};
use crate::util::hexadecimal;
use crate::util::hexadecimal::{hex_decode, hex_encode, HexError};
use crate::util::table::TableKey;
use crate::util::text;
use crate::util::text::{push_decimal, with_number};
use vstd::prelude::*;
use vstd::utf8;

verus! {

/// Why the hexadecimal form of an identifier was rejected.
#[derive(Debug, Clone, Copy, PartialEq, Eq, Structural)]
pub enum IdParseError {
    /// The decoded byte length is not that of the identifier.
    WrongLength {
        /// Number of bytes of this kind of identifier.
        expected: usize,
        /// Number of bytes decoded.
        got: usize,
    },
    /// The text is not hexadecimal.
    Hex(HexError),
}

impl IdParseError {
    /// The error as a text.
    pub open spec fn spec_text(&self) -> Seq<char> {
        match *self {
            IdParseError::WrongLength { expected, got } => "expected "@ + text::decimal_text(
                expected as nat,
            ) + " bytes, got "@ + text::decimal_text(got as nat),
            IdParseError::Hex(e) => e.spec_text(),
        }
    }

    /// The error as a text.
    pub fn text(&self) -> (r: String)
        ensures
            r@ == self.spec_text(),
    {
        match self {
            IdParseError::WrongLength { expected, got } => {
                let mut r = with_number("expected ", *expected as u64, " bytes, got ");
                push_decimal(&mut r, *got as u64);
                r
            },
            IdParseError::Hex(e) => e.text(),
        }
    }
}

/// What decoding the text `s` into an identifier of `size` bytes yields: the bytes, or
/// the error of the first fault.
pub open spec fn parse_id_text(s: Seq<char>, size: nat, r: Result<Seq<u8>, IdParseError>) -> bool {
    let raw = utf8::encode_utf8(s);
    match r {
        Ok(b) => raw.len() == 2 * size && hexadecimal::all_hex(raw) && b == hexadecimal::unhex(raw),
        Err(IdParseError::WrongLength { expected, got }) => raw.len() % 2 == 0
            && hexadecimal::all_hex(raw) && raw.len() != 2 * size && expected == size && 2 * got
            == raw.len(),
        Err(IdParseError::Hex(HexError::OddLength)) => raw.len() % 2 == 1,
        Err(IdParseError::Hex(HexError::InvalidHexCharacter { c, index })) => {
            &&& raw.len() % 2 == 0
            &&& index < raw.len()
            &&& hexadecimal::hex_value(raw[index as int]) is None
            &&& c == raw[index as int] as char
            &&& hexadecimal::all_hex(raw.take(index as int))
        },
        Err(IdParseError::Hex(HexError::InvalidStringLength)) => false,
    }
}

/// Decodes a hexadecimal text into exactly `N` bytes.
fn decode_id<const N: usize>(s: &str) -> (r: Result<[u8; N], IdParseError>)
    ensures
        parse_id_text(
            s@,
            N as nat,
            match r {
                Ok(b) => Ok(b@),
                Err(e) => Err(e),
            },
        ),
{
    match hex_decode(s) {
        Ok(v) => {
            if v.len() != N {
                Err(IdParseError::WrongLength { expected: N, got: v.len() })
            } else {
                Ok(to_array(v.as_slice()))
            }
        },
        Err(e) => Err(IdParseError::Hex(e)),
    }
}

/// `rand::rng` and its `fill_bytes`: `N` bytes from the thread's random generator.
/// Nothing is claimed of their values.
#[verifier::external_body]
pub(crate) fn random_bytes<const N: usize>() -> (r: [u8; N]) {
    let mut bytes = [0u8; N];
    rand::RngCore::fill_bytes(&mut rand::rng(), &mut bytes);
    bytes
}

/// The array of `N` zero bytes.
fn zero_bytes<const N: usize>() -> (r: [u8; N])
    ensures
        r@ == Seq::new(N as nat, |i: int| 0u8),
{
    let r = [0u8; N];
    assert(r@ =~= Seq::new(N as nat, |i: int| 0u8));
    r
}

/// Identifier of a job (one driver is one job).
#[derive(Clone, Copy, Debug, Eq, Hash, PartialOrd, Ord)]
pub struct JobId(pub [u8; 16]);

impl PartialEq for JobId {
    fn eq(&self, other: &Self) -> (r: bool) {
        arrays_equal(&self.0, &other.0)
    }
}

impl vstd::std_specs::cmp::PartialEqSpecImpl for JobId {
    open spec fn obeys_eq_spec() -> bool {
        true
    }

    open spec fn eq_spec(&self, other: &Self) -> bool {
        *self == *other
    }
}

impl View for JobId {
    type V = JobId;

    open spec fn view(&self) -> JobId {
        *self
    }
}

impl TableKey for JobId {
    fn same_key(&self, other: &Self) -> (r: bool) {
        arrays_equal(&self.0, &other.0)
    }
}

impl JobId {
    /// The byte length of a `JobId`.
    pub const SIZE: usize = 16;

    /// The identifier with the given bytes.
    pub fn from_bytes(bytes: [u8; 16]) -> (r: Self)
        ensures
            r.0 == bytes,
    {
        JobId(bytes)
    }

    /// The bytes of the identifier.
    pub fn as_bytes(&self) -> (r: &[u8; 16])
        ensures
            *r == self.0,
    {
        &self.0
    }

    /// The identifier as lower-case hexadecimal text.
    pub fn hex(&self) -> (r: String)
        ensures
            r@ == hexadecimal::hex_text(self.0@),
    {
        hex_encode(&self.0)
    }

    /// Parses the hexadecimal text of an identifier.
    pub fn from_hex(s: &str) -> (r: Result<Self, IdParseError>)
        ensures
            parse_id_text(
                s@,
                16,
                match r {
                    Ok(id) => Ok(id.0@),
                    Err(e) => Err(e),
                },
            ),
    {
        match decode_id::<16>(s) {
            Ok(b) => Ok(JobId(b)),
            Err(e) => Err(e),
        }
    }

    /// A fresh random identifier.
    pub fn random() -> (r: Self) {
        JobId(random_bytes())
    }

    /// The all-zero identifier, which stands for "unset".
    pub fn nil() -> (r: Self)
        ensures
            r.is_zero(),
    {
        JobId(zero_bytes())
    }

    /// Whether every byte is zero.
    pub open spec fn is_zero(&self) -> bool {
        self.0@ == Seq::new(16, |i: int| 0u8)
    }

    /// Whether this is the all-zero identifier.
    pub fn is_nil(&self) -> (b: bool)
        ensures
            b == self.is_zero(),
    {
        arrays_equal(&self.0, &zero_bytes())
    }
}

/// Identifier of one task submission.
#[derive(Clone, Copy, Debug, Eq, Hash, PartialOrd, Ord)]
pub struct TaskId(pub [u8; 24]);

impl PartialEq for TaskId {
    fn eq(&self, other: &Self) -> (r: bool) {
        arrays_equal(&self.0, &other.0)
    }
}

impl vstd::std_specs::cmp::PartialEqSpecImpl for TaskId {
    open spec fn obeys_eq_spec() -> bool {
        true
    }

    open spec fn eq_spec(&self, other: &Self) -> bool {
        *self == *other
    }
}

impl View for TaskId {
    type V = TaskId;

    open spec fn view(&self) -> TaskId {
        *self
    }
}

impl TableKey for TaskId {
    fn same_key(&self, other: &Self) -> (r: bool) {
        arrays_equal(&self.0, &other.0)
    }
}

impl TaskId {
    /// The byte length of a `TaskId`.
    pub const SIZE: usize = 24;

    /// The identifier with the given bytes.
    pub fn from_bytes(bytes: [u8; 24]) -> (r: Self)
        ensures
            r.0 == bytes,
    {
        TaskId(bytes)
    }

    /// The bytes of the identifier.
    pub fn as_bytes(&self) -> (r: &[u8; 24])
        ensures
            *r == self.0,
    {
        &self.0
    }

    /// The identifier as lower-case hexadecimal text.
    pub fn hex(&self) -> (r: String)
        ensures
            r@ == hexadecimal::hex_text(self.0@),
    {
        hex_encode(&self.0)
    }

    /// Parses the hexadecimal text of an identifier.
    pub fn from_hex(s: &str) -> (r: Result<Self, IdParseError>)
        ensures
            parse_id_text(
                s@,
                24,
                match r {
                    Ok(id) => Ok(id.0@),
                    Err(e) => Err(e),
                },
            ),
    {
        match decode_id::<24>(s) {
            Ok(b) => Ok(TaskId(b)),
            Err(e) => Err(e),
        }
    }

    /// A fresh random identifier.
    pub fn random() -> (r: Self) {
        TaskId(random_bytes())
    }

    /// The all-zero identifier, which stands for "unset".
    pub fn nil() -> (r: Self)
        ensures
            r.is_zero(),
    {
        TaskId(zero_bytes())
    }

    /// Whether every byte is zero.
    pub open spec fn is_zero(&self) -> bool {
        self.0@ == Seq::new(24, |i: int| 0u8)
    }

    /// Whether this is the all-zero identifier.
    pub fn is_nil(&self) -> (b: bool)
        ensures
            b == self.is_zero(),
    {
        arrays_equal(&self.0, &zero_bytes())
    }
}

/// Identifier of a worker process.
#[derive(Clone, Copy, Debug, Eq, Hash, PartialOrd, Ord)]
pub struct WorkerId(pub [u8; 16]);

impl PartialEq for WorkerId {
    fn eq(&self, other: &Self) -> (r: bool) {
        arrays_equal(&self.0, &other.0)
    }
}

impl vstd::std_specs::cmp::PartialEqSpecImpl for WorkerId {
    open spec fn obeys_eq_spec() -> bool {
        true
    }

    open spec fn eq_spec(&self, other: &Self) -> bool {
        *self == *other
    }
}

impl View for WorkerId {
    type V = WorkerId;

    open spec fn view(&self) -> WorkerId {
        *self
    }
}

impl TableKey for WorkerId {
    fn same_key(&self, other: &Self) -> (r: bool) {
        arrays_equal(&self.0, &other.0)
    }
}

impl WorkerId {
    /// The byte length of a `WorkerId`.
    pub const SIZE: usize = 16;

    /// The identifier with the given bytes.
    pub fn from_bytes(bytes: [u8; 16]) -> (r: Self)
        ensures
            r.0 == bytes,
    {
        WorkerId(bytes)
    }

    /// The bytes of the identifier.
    pub fn as_bytes(&self) -> (r: &[u8; 16])
        ensures
            *r == self.0,
    {
        &self.0
    }

    /// The identifier as lower-case hexadecimal text.
    pub fn hex(&self) -> (r: String)
        ensures
            r@ == hexadecimal::hex_text(self.0@),
    {
        hex_encode(&self.0)
    }

    /// Parses the hexadecimal text of an identifier.
    pub fn from_hex(s: &str) -> (r: Result<Self, IdParseError>)
        ensures
            parse_id_text(
                s@,
                16,
                match r {
                    Ok(id) => Ok(id.0@),
                    Err(e) => Err(e),
                },
            ),
    {
        match decode_id::<16>(s) {
            Ok(b) => Ok(WorkerId(b)),
            Err(e) => Err(e),
        }
    }

    /// A fresh random identifier.
    pub fn random() -> (r: Self) {
        WorkerId(random_bytes())
    }

    /// The all-zero identifier, which stands for "unset".
    pub fn nil() -> (r: Self)
        ensures
            r.is_zero(),
    {
        WorkerId(zero_bytes())
    }

    /// Whether every byte is zero.
    pub open spec fn is_zero(&self) -> bool {
        self.0@ == Seq::new(16, |i: int| 0u8)
    }

    /// Whether this is the all-zero identifier.
    pub fn is_nil(&self) -> (b: bool)
        ensures
            b == self.is_zero(),
    {
        arrays_equal(&self.0, &zero_bytes())
    }
}

/// Identifier of a stateful actor.
#[derive(Clone, Copy, Debug, Eq, Hash, PartialOrd, Ord)]
pub struct ActorId(pub [u8; 16]);

impl PartialEq for ActorId {
    fn eq(&self, other: &Self) -> (r: bool) {
        arrays_equal(&self.0, &other.0)
    }
}

impl vstd::std_specs::cmp::PartialEqSpecImpl for ActorId {
    open spec fn obeys_eq_spec() -> bool {
        true
    }

    open spec fn eq_spec(&self, other: &Self) -> bool {
        *self == *other
    }
}

impl View for ActorId {
    type V = ActorId;

    open spec fn view(&self) -> ActorId {
        *self
    }
}

impl TableKey for ActorId {
    fn same_key(&self, other: &Self) -> (r: bool) {
        arrays_equal(&self.0, &other.0)
    }
}

impl ActorId {
    /// The byte length of an `ActorId`.
    pub const SIZE: usize = 16;

    /// The identifier with the given bytes.
    pub fn from_bytes(bytes: [u8; 16]) -> (r: Self)
        ensures
            r.0 == bytes,
    {
        ActorId(bytes)
    }

    /// The bytes of the identifier.
    pub fn as_bytes(&self) -> (r: &[u8; 16])
        ensures
            *r == self.0,
    {
        &self.0
    }

    /// The identifier as lower-case hexadecimal text.
    pub fn hex(&self) -> (r: String)
        ensures
            r@ == hexadecimal::hex_text(self.0@),
    {
        hex_encode(&self.0)
    }

    /// Parses the hexadecimal text of an identifier.
    pub fn from_hex(s: &str) -> (r: Result<Self, IdParseError>)
        ensures
            parse_id_text(
                s@,
                16,
                match r {
                    Ok(id) => Ok(id.0@),
                    Err(e) => Err(e),
                },
            ),
    {
        match decode_id::<16>(s) {
            Ok(b) => Ok(ActorId(b)),
            Err(e) => Err(e),
        }
    }

    /// A fresh random identifier.
    pub fn random() -> (r: Self) {
        ActorId(random_bytes())
    }

    /// The all-zero identifier, which stands for "unset".
    pub fn nil() -> (r: Self)
        ensures
            r.is_zero(),
    {
        ActorId(zero_bytes())
    }

    /// Whether every byte is zero.
    pub open spec fn is_zero(&self) -> bool {
        self.0@ == Seq::new(16, |i: int| 0u8)
    }

    /// Whether this is the all-zero identifier.
    pub fn is_nil(&self) -> (b: bool)
        ensures
            b == self.is_zero(),
    {
        arrays_equal(&self.0, &zero_bytes())
    }
}

/// Identifier of a stored object, derived from the task that produces it and a
/// return index, so that it is known before the task has run.
#[derive(Clone, Copy, Debug, Eq, Hash, PartialOrd, Ord)]
pub struct ObjectId(pub [u8; 28]);

impl PartialEq for ObjectId {
    fn eq(&self, other: &Self) -> (r: bool) {
        arrays_equal(&self.0, &other.0)
    }
}

impl vstd::std_specs::cmp::PartialEqSpecImpl for ObjectId {
    open spec fn obeys_eq_spec() -> bool {
        true
    }

    open spec fn eq_spec(&self, other: &Self) -> bool {
        *self == *other
    }
}

impl View for ObjectId {
    type V = ObjectId;

    open spec fn view(&self) -> ObjectId {
        *self
    }
}

impl TableKey for ObjectId {
    fn same_key(&self, other: &Self) -> (r: bool) {
        arrays_equal(&self.0, &other.0)
    }
}

impl ObjectId {
    /// The byte length of an `ObjectId`.
    pub const SIZE: usize = 28;

    /// The identifier with the given bytes.
    pub fn from_bytes(bytes: [u8; 28]) -> (r: Self)
        ensures
            r.0 == bytes,
    {
        ObjectId(bytes)
    }

    /// The bytes of the identifier.
    pub fn as_bytes(&self) -> (r: &[u8; 28])
        ensures
            *r == self.0,
    {
        &self.0
    }

    /// The identifier as lower-case hexadecimal text.
    pub fn hex(&self) -> (r: String)
        ensures
            r@ == hexadecimal::hex_text(self.0@),
    {
        hex_encode(&self.0)
    }

    /// Parses the hexadecimal text of an identifier.
    pub fn from_hex(s: &str) -> (r: Result<Self, IdParseError>)
        ensures
            parse_id_text(
                s@,
                28,
                match r {
                    Ok(id) => Ok(id.0@),
                    Err(e) => Err(e),
                },
            ),
    {
        match decode_id::<28>(s) {
            Ok(b) => Ok(ObjectId(b)),
            Err(e) => Err(e),
        }
    }

    /// The all-zero identifier, which stands for "unset".
    pub fn nil() -> (r: Self)
        ensures
            r.is_zero(),
    {
        ObjectId(zero_bytes())
    }

    /// Whether every byte is zero.
    pub open spec fn is_zero(&self) -> bool {
        self.0@ == Seq::new(28, |i: int| 0u8)
    }

    /// Whether this is the all-zero identifier.
    pub fn is_nil(&self) -> (b: bool)
        ensures
            b == self.is_zero(),
    {
        arrays_equal(&self.0, &zero_bytes())
    }

    /// The bytes of the object that is return number `index` of `task`.
    pub open spec fn of_return(task: TaskId, index: u32) -> Seq<u8> {
        task.0@ + bytes::u32_le(index)
    }

    /// The identifier of return number `return_index` of `task`.
    pub fn for_return(task: &TaskId, return_index: u32) -> (r: Self)
        ensures
            r.0@ == Self::of_return(*task, return_index),
    {
        let mut v: Vec<u8> = Vec::new();
        bytes::push_bytes(&mut v, &task.0);
        bytes::push_u32_le(&mut v, return_index);
        assert(v@ =~= task.0@ + bytes::u32_le(return_index));
        ObjectId(to_array(v.as_slice()))
    }

    /// The task that produces the object.
    pub fn task_id(&self) -> (r: TaskId)
        ensures
            r.0@ == self.0@.subrange(0, 24),
    {
        let b = bytes::copy_range(&self.0, 0, 24);
        TaskId(to_array(b.as_slice()))
    }

    /// The job of the task that produces the object.
    pub fn job_id(&self) -> (r: JobId)
        ensures
            r.0@ == self.0@.subrange(0, 16),
    {
        let b = bytes::copy_range(&self.0, 0, 16);
        JobId(to_array(b.as_slice()))
    }

    /// The return index held in the last four bytes.
    pub fn return_index(&self) -> (r: u32)
        ensures
            r == bytes::le_u32(self.0@.skip(24)),
    {
        get_u32_le(&self.0, 24)
    }
}

/// Two task identifiers with the same bytes are the same identifier.
pub proof fn lemma_task_id_ext(a: TaskId, b: TaskId)
    requires
        a.0@ == b.0@,
    ensures
        a == b,
{
    assert(a.0 =~= b.0);
}

/// An object identifier gives back the task, the job and the return index from which
/// it was derived.
pub proof fn law_return_id_parts(task: TaskId, index: u32, id: ObjectId)
    requires
        id.0@ == ObjectId::of_return(task, index),
    ensures
        id.0@.subrange(0, 24) == task.0@,
        id.0@.subrange(0, 16) == task.0@.subrange(0, 16),
        bytes::le_u32(id.0@.skip(24)) == index,
{
    assert(id.0@.subrange(0, 24) =~= task.0@);
    assert(id.0@.subrange(0, 16) =~= task.0@.subrange(0, 16));
    assert(id.0@.skip(24) =~= bytes::u32_le(index) + Seq::<u8>::empty());
    bytes::lemma_u32_round_trip(index, Seq::<u8>::empty());
}

/// Distinct (task, return index) pairs have distinct object identifiers.
pub proof fn law_return_id_injective(t1: TaskId, i1: u32, t2: TaskId, i2: u32)
    requires
        ObjectId::of_return(t1, i1) == ObjectId::of_return(t2, i2),
    ensures
        t1 == t2,
        i1 == i2,
{
    let s = ObjectId::of_return(t1, i1);
    assert(s.subrange(0, 24) =~= t1.0@);
    assert(s.subrange(0, 24) =~= t2.0@);
    lemma_task_id_ext(t1, t2);
    assert(s.skip(24) =~= bytes::u32_le(i1) + Seq::<u8>::empty());
    assert(s.skip(24) =~= bytes::u32_le(i2) + Seq::<u8>::empty());
    bytes::lemma_u32_round_trip(i1, Seq::<u8>::empty());
    bytes::lemma_u32_round_trip(i2, Seq::<u8>::empty());
}

/// Every object identifier is the one derived from its own task and return index.
pub proof fn law_return_id_surjective(id: ObjectId, task: TaskId)
    requires
        task.0@ == id.0@.subrange(0, 24),
    ensures
        0 <= bytes::le_u32(id.0@.skip(24)) <= u32::MAX,
        ObjectId::of_return(task, bytes::le_u32(id.0@.skip(24)) as u32) == id.0@,
{
    bytes::lemma_u32_bytes_round_trip(id.0@.skip(24));
    assert(id.0@.subrange(0, 24) + id.0@.skip(24) =~= id.0@);
}

/// Parsing the hexadecimal text of an identifier of `size` bytes gives back its bytes,
/// and nothing else.
pub proof fn law_hex_round_trip(id: Seq<u8>, r: Result<Seq<u8>, IdParseError>)
    requires
        parse_id_text(hexadecimal::hex_text(id), id.len(), r),
    ensures
        r == Ok::<Seq<u8>, IdParseError>(id),
{
    hexadecimal::lemma_hex_text_bytes(id);
    hexadecimal::lemma_hex_round_trip(id);
}

/// A text is taken for an identifier exactly where it has two hexadecimal digits for every
/// byte, and the bytes are those of the digits, the high one first.
pub proof fn law_hex_is_read_exactly(s: Seq<char>, size: nat, r: Result<Seq<u8>, IdParseError>)
    requires
        parse_id_text(s, size, r),
    ensures
        ({
            let raw = utf8::encode_utf8(s);
            &&& r is Ok <==> raw.len() == 2 * size && hexadecimal::all_hex(raw)
            &&& r matches Ok(b) ==> b.len() == size && (forall|j: int|
                0 <= j < size ==> #[trigger] b[j] == 16 * hexadecimal::hex_value(raw[2 * j])->0
                    + hexadecimal::hex_value(raw[2 * j + 1])->0)
            &&& r matches Err(IdParseError::WrongLength { expected, got }) ==> expected == size
                && 2 * got == raw.len() && got != size
        }),
{
    let raw = utf8::encode_utf8(s);
    match r {
        Ok(b) => {
            assert forall|j: int| 0 <= j < size implies #[trigger] b[j] == 16
                * hexadecimal::hex_value(raw[2 * j])->0 + hexadecimal::hex_value(
                raw[2 * j + 1],
            )->0 by {
                assert(hexadecimal::hex_value(raw[2 * j]) is Some);
                assert(hexadecimal::hex_value(raw[2 * j + 1]) is Some);
            }
        },
        Err(IdParseError::Hex(HexError::InvalidHexCharacter { c, index })) => {
            if hexadecimal::all_hex(raw) {
                assert(hexadecimal::hex_value(raw[index as int]) is Some);
            }
        },
        _ => {},
    }
}

/// The identifier of a result is its task's bytes and then the number of the result, low byte
/// first.
pub proof fn law_return_id_layout(task: TaskId, index: u32)
    ensures
        ({
            let b = ObjectId::of_return(task, index);
            &&& b.len() == 28
            &&& b.take(24) == task.0@
            &&& b[24] + 256 * (b[25] + 256 * (b[26] + 256 * b[27])) == index
        }),
{
    let b = ObjectId::of_return(task, index);
    bytes::law_u32_bytes(index);
    assert(b.take(24) =~= task.0@);
    assert(b.skip(24) =~= bytes::u32_le(index));
    assert(b[24] == b.skip(24)[0] && b[25] == b.skip(24)[1] && b[26] == b.skip(24)[2] && b[27]
        == b.skip(24)[3]);
}

/// An identifier is the unset one exactly where every byte of it is zero.
pub proof fn law_unset_job(id: JobId)
    ensures
        id.is_zero() <==> forall|i: int| 0 <= i < 16 ==> #[trigger] id.0@[i] == 0,
{
    if forall|i: int| 0 <= i < 16 ==> #[trigger] id.0@[i] == 0 {
        assert(id.0@ =~= Seq::new(16, |i: int| 0u8));
    }
}

/// An identifier is the unset one exactly where every byte of it is zero.
pub proof fn law_unset_worker(id: WorkerId)
    ensures
        id.is_zero() <==> forall|i: int| 0 <= i < 16 ==> #[trigger] id.0@[i] == 0,
{
    if forall|i: int| 0 <= i < 16 ==> #[trigger] id.0@[i] == 0 {
        assert(id.0@ =~= Seq::new(16, |i: int| 0u8));
    }
}

/// An identifier is the unset one exactly where every byte of it is zero.
pub proof fn law_unset_actor(id: ActorId)
    ensures
        id.is_zero() <==> forall|i: int| 0 <= i < 16 ==> #[trigger] id.0@[i] == 0,
{
    if forall|i: int| 0 <= i < 16 ==> #[trigger] id.0@[i] == 0 {
        assert(id.0@ =~= Seq::new(16, |i: int| 0u8));
    }
}

/// An identifier is the unset one exactly where every byte of it is zero.
pub proof fn law_unset_task(id: TaskId)
    ensures
        id.is_zero() <==> forall|i: int| 0 <= i < 24 ==> #[trigger] id.0@[i] == 0,
{
    if forall|i: int| 0 <= i < 24 ==> #[trigger] id.0@[i] == 0 {
        assert(id.0@ =~= Seq::new(24, |i: int| 0u8));
    }
}

/// An identifier is the unset one exactly where every byte of it is zero.
pub proof fn law_unset_object(id: ObjectId)
    ensures
        id.is_zero() <==> forall|i: int| 0 <= i < 28 ==> #[trigger] id.0@[i] == 0,
{
    if forall|i: int| 0 <= i < 28 ==> #[trigger] id.0@[i] == 0 {
        assert(id.0@ =~= Seq::new(28, |i: int| 0u8));
    }
}

} // verus!
