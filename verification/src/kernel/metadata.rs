//! Typed metadata of stored values, and the states and error categories it encodes.

use crate::util::bytes;
use crate::util::bytes::get_u16_le;
use crate::util::text;
use crate::util::text::{push_decimal, with_number};
use vstd::prelude::*;

verus! {

/// State of an object reference as seen by its holder.
#[derive(Clone, Copy, Debug, PartialEq, Eq, Hash, PartialOrd, Ord, Structural)]
pub enum RefState {
    /// The value is in no store that we know of.
    Pending,
    /// The value is on the local node.
    ReadyLocal,
    /// The value is on another node.
    ReadyRemote,
    /// The value is an error.
    Failed,
}

impl RefState {
    /// Whether the state is final for a reader: any state but `Pending`.
    pub open spec fn spec_ready(self) -> bool {
        self != RefState::Pending
    }

    /// Whether the state is one of `ReadyLocal`, `ReadyRemote` and `Failed`.
    pub fn is_ready(self) -> (b: bool)
        ensures
            b == self.spec_ready(),
    {
        matches!(self, RefState::ReadyLocal | RefState::ReadyRemote | RefState::Failed)
    }

    /// Whether the state is `Failed`.
    pub fn is_failed(self) -> (b: bool)
        ensures
            b == (self == RefState::Failed),
    {
        matches!(self, RefState::Failed)
    }
}

/// Coarse, user-facing category of an error.
#[derive(Clone, Copy, Debug, PartialEq, Eq, Hash, PartialOrd, Ord, Structural)]
pub enum ErrorCategory {
    /// User code raised an exception.
    TaskException,
    /// The worker process died.
    WorkerDied,
    /// The actor died and could not be restarted.
    ActorDied,
    /// The owning worker died.
    OwnerDied,
    /// The task was cancelled.
    TaskCancelled,
    /// The object was lost from the store.
    ObjectLost,
    /// The object was lost and could not be rebuilt.
    ObjectUnreconstructable,
    /// The object could not be pulled in time.
    FetchTimeout,
    /// The worker's environment could not be set up.
    RuntimeEnvFailed,
    /// The task could not be scheduled.
    Unschedulable,
    /// Out of memory or disk.
    OutOfMemory,
}

impl ErrorCategory {
    /// The name of the category.
    pub open spec fn spec_name(self) -> Seq<char> {
        match self {
            ErrorCategory::TaskException => "TaskException"@,
            ErrorCategory::WorkerDied => "WorkerDied"@,
            ErrorCategory::ActorDied => "ActorDied"@,
            ErrorCategory::OwnerDied => "OwnerDied"@,
            ErrorCategory::TaskCancelled => "TaskCancelled"@,
            ErrorCategory::ObjectLost => "ObjectLost"@,
            ErrorCategory::ObjectUnreconstructable => "ObjectUnreconstructable"@,
            ErrorCategory::FetchTimeout => "FetchTimeout"@,
            ErrorCategory::RuntimeEnvFailed => "RuntimeEnvFailed"@,
            ErrorCategory::Unschedulable => "Unschedulable"@,
            ErrorCategory::OutOfMemory => "OutOfMemory"@,
        }
    }

    /// The name of the category.
    pub fn name(self) -> (r: &'static str)
        ensures
            r@ == self.spec_name(),
    {
        match self {
            ErrorCategory::TaskException => "TaskException",
            ErrorCategory::WorkerDied => "WorkerDied",
            ErrorCategory::ActorDied => "ActorDied",
            ErrorCategory::OwnerDied => "OwnerDied",
            ErrorCategory::TaskCancelled => "TaskCancelled",
            ErrorCategory::ObjectLost => "ObjectLost",
            ErrorCategory::ObjectUnreconstructable => "ObjectUnreconstructable",
            ErrorCategory::FetchTimeout => "FetchTimeout",
            ErrorCategory::RuntimeEnvFailed => "RuntimeEnvFailed",
            ErrorCategory::Unschedulable => "Unschedulable",
            ErrorCategory::OutOfMemory => "OutOfMemory",
        }
    }

    /// The byte that stands for the category on the wire.
    pub open spec fn byte(self) -> u8 {
        match self {
            ErrorCategory::TaskException => 1,
            ErrorCategory::WorkerDied => 2,
            ErrorCategory::ActorDied => 3,
            ErrorCategory::OwnerDied => 4,
            ErrorCategory::TaskCancelled => 5,
            ErrorCategory::ObjectLost => 6,
            ErrorCategory::ObjectUnreconstructable => 7,
            ErrorCategory::FetchTimeout => 8,
            ErrorCategory::RuntimeEnvFailed => 9,
            ErrorCategory::Unschedulable => 10,
            ErrorCategory::OutOfMemory => 11,
        }
    }

    /// The wire byte of the category.
    pub fn as_byte(self) -> (b: u8)
        ensures
            b == self.byte(),
            1 <= b <= 11,
    {
        match self {
            ErrorCategory::TaskException => 1,
            ErrorCategory::WorkerDied => 2,
            ErrorCategory::ActorDied => 3,
            ErrorCategory::OwnerDied => 4,
            ErrorCategory::TaskCancelled => 5,
            ErrorCategory::ObjectLost => 6,
            ErrorCategory::ObjectUnreconstructable => 7,
            ErrorCategory::FetchTimeout => 8,
            ErrorCategory::RuntimeEnvFailed => 9,
            ErrorCategory::Unschedulable => 10,
            ErrorCategory::OutOfMemory => 11,
        }
    }

    /// The category whose wire byte is `b`.
    pub fn from_byte(b: u8) -> (r: Result<Self, MetadataDecodeError>)
        ensures
            match r {
                Ok(c) => c.byte() == b,
                Err(e) => !(1 <= b <= 11) && e == MetadataDecodeError::UnknownErrorCategory(b),
            },
    {
        Ok(
            match b {
                1 => ErrorCategory::TaskException,
                2 => ErrorCategory::WorkerDied,
                3 => ErrorCategory::ActorDied,
                4 => ErrorCategory::OwnerDied,
                5 => ErrorCategory::TaskCancelled,
                6 => ErrorCategory::ObjectLost,
                7 => ErrorCategory::ObjectUnreconstructable,
                8 => ErrorCategory::FetchTimeout,
                9 => ErrorCategory::RuntimeEnvFailed,
                10 => ErrorCategory::Unschedulable,
                11 => ErrorCategory::OutOfMemory,
                other => {
                    return Err(MetadataDecodeError::UnknownErrorCategory(other));
                },
            },
        )
    }
}

/// Header in front of every stored value.
///
/// On the wire: `[1, flag]` for `Pickle5`, `[2]` for `Raw`, `[3]` for `ActorHandle` and
/// `[16, category, raw_code low, raw_code high]` for `Error`.
#[derive(Clone, Copy, Debug, PartialEq, Eq, Hash, Structural)]
pub enum Metadata {
    /// A pickled Python object.
    Pickle5 {
        /// Whether the data holds nested object references.
        has_nested_refs: bool,
    },
    /// Raw bytes.
    Raw,
    /// A pickled actor handle.
    ActorHandle,
    /// An error in place of a value.
    Error {
        /// Coarse category.
        category: ErrorCategory,
        /// Granular code.
        raw_code: u16,
    },
}

/// Why a metadata header was rejected.
#[derive(Debug, Clone, Copy, PartialEq, Eq, Structural)]
pub enum MetadataDecodeError {
    /// There are no bytes.
    Empty,
    /// The first byte stands for no variant.
    UnknownDiscriminator(u8),
    /// The bytes end before the variant does.
    Truncated {
        /// Bytes that the variant needs.
        expected: usize,
        /// Bytes present.
        got: usize,
    },
    /// The category byte stands for no category.
    UnknownErrorCategory(u8),
}

impl MetadataDecodeError {
    /// The text of the error.
    pub open spec fn spec_text(&self) -> Seq<char> {
        match *self {
            MetadataDecodeError::Empty => "metadata buffer is empty"@,
            MetadataDecodeError::UnknownDiscriminator(b) => "unknown metadata discriminator: "@
                + text::decimal_text(b as nat) + ""@,
            MetadataDecodeError::Truncated { expected, got }
                => "metadata buffer truncated: needed "@ + text::decimal_text(expected as nat)
                + " bytes, got "@ + text::decimal_text(got as nat),
            MetadataDecodeError::UnknownErrorCategory(b) => "unknown error category byte: "@
                + text::decimal_text(b as nat) + ""@,
        }
    }

    /// The text of the error.
    pub fn text(&self) -> (r: String)
        ensures
            r@ == self.spec_text(),
    {
        match self {
            MetadataDecodeError::Empty => "metadata buffer is empty".to_owned(),
            MetadataDecodeError::UnknownDiscriminator(b) => with_number(
                "unknown metadata discriminator: ",
                *b as u64,
                "",
            ),
            MetadataDecodeError::Truncated { expected, got } => {
                let mut r = with_number(
                    "metadata buffer truncated: needed ",
                    *expected as u64,
                    " bytes, got ",
                );
                push_decimal(&mut r, *got as u64);
                r
            },
            MetadataDecodeError::UnknownErrorCategory(b) => with_number(
                "unknown error category byte: ",
                *b as u64,
                "",
            ),
        }
    }
}

impl Metadata {
    /// The wire form of the header.
    pub open spec fn wire(&self) -> Seq<u8> {
        match *self {
            Metadata::Pickle5 { has_nested_refs } => seq![
                1u8,
                if has_nested_refs {
                    1u8
                } else {
                    0u8
                },
            ],
            Metadata::Raw => seq![2u8],
            Metadata::ActorHandle => seq![3u8],
            Metadata::Error { category, raw_code } => seq![16u8, category.byte()] + bytes::u16_le(
                raw_code,
            ),
        }
    }

    /// What the bytes `buf` decode to: the first byte picks the variant, and bytes
    /// behind the variant's own are ignored.
    pub open spec fn parses(buf: Seq<u8>, r: Result<Metadata, MetadataDecodeError>) -> bool {
        if buf.len() == 0 {
            r == Err::<Metadata, MetadataDecodeError>(MetadataDecodeError::Empty)
        } else if buf[0] == 1 {
            if buf.len() < 2 {
                r == Err::<Metadata, MetadataDecodeError>(
                    MetadataDecodeError::Truncated { expected: 2, got: buf.len() as usize },
                )
            } else {
                r == Ok::<Metadata, MetadataDecodeError>(
                    Metadata::Pickle5 { has_nested_refs: buf[1] != 0 },
                )
            }
        } else if buf[0] == 2 {
            r == Ok::<Metadata, MetadataDecodeError>(Metadata::Raw)
        } else if buf[0] == 3 {
            r == Ok::<Metadata, MetadataDecodeError>(Metadata::ActorHandle)
        } else if buf[0] == 16 {
            if buf.len() < 4 {
                r == Err::<Metadata, MetadataDecodeError>(
                    MetadataDecodeError::Truncated { expected: 4, got: buf.len() as usize },
                )
            } else if !(1 <= buf[1] <= 11) {
                r == Err::<Metadata, MetadataDecodeError>(
                    MetadataDecodeError::UnknownErrorCategory(buf[1]),
                )
            } else {
                r matches Ok(Metadata::Error { category, raw_code }) && category.byte() == buf[1]
                    && raw_code == bytes::le_u16(buf.skip(2))
            }
        } else {
            r == Err::<Metadata, MetadataDecodeError>(
                MetadataDecodeError::UnknownDiscriminator(buf[0]),
            )
        }
    }

    /// The wire form of the header, in a fresh vector.
    pub fn encode(&self) -> (r: Vec<u8>)
        ensures
            r@ == self.wire(),
    {
        let mut r: Vec<u8> = Vec::new();
        match *self {
            Metadata::Pickle5 { has_nested_refs } => {
                r.push(1);
                r.push(
                    if has_nested_refs {
                        1
                    } else {
                        0
                    },
                );
            },
            Metadata::Raw => {
                r.push(2);
            },
            Metadata::ActorHandle => {
                r.push(3);
            },
            Metadata::Error { category, raw_code } => {
                r.push(16);
                r.push(category.as_byte());
                bytes::push_u16_le(&mut r, raw_code);
            },
        }
        assert(r@ =~= self.wire());
        r
    }

    /// Decodes a header.
    pub fn decode(buf: &[u8]) -> (r: Result<Self, MetadataDecodeError>)
        ensures
            Self::parses(buf@, r),
    {
        if buf.len() == 0 {
            return Err(MetadataDecodeError::Empty);
        }
        match buf[0] {
            1 => {
                if buf.len() < 2 {
                    return Err(MetadataDecodeError::Truncated { expected: 2, got: buf.len() });
                }
                Ok(Metadata::Pickle5 { has_nested_refs: buf[1] != 0 })
            },
            2 => Ok(Metadata::Raw),
            3 => Ok(Metadata::ActorHandle),
            16 => {
                if buf.len() < 4 {
                    return Err(MetadataDecodeError::Truncated { expected: 4, got: buf.len() });
                }
                match ErrorCategory::from_byte(buf[1]) {
                    Ok(category) => Ok(
                        Metadata::Error { category, raw_code: get_u16_le(buf, 2) },
                    ),
                    Err(e) => Err(e),
                }
            },
            other => Err(MetadataDecodeError::UnknownDiscriminator(other)),
        }
    }

    /// Whether this is the `Error` variant.
    pub open spec fn spec_is_error(&self) -> bool {
        self is Error
    }

    /// Whether this is the `Error` variant.
    pub fn is_error(&self) -> (b: bool)
        ensures
            b == self.spec_is_error(),
    {
        matches!(self, Metadata::Error { .. })
    }

    /// The category of the `Error` variant; nothing for the others.
    pub fn error_category(&self) -> (r: Option<ErrorCategory>)
        ensures
            match *self {
                Metadata::Error { category, raw_code } => r == Some(category),
                _ => r is None,
            },
    {
        match self {
            Metadata::Error { category, .. } => Some(*category),
            _ => None,
        }
    }
}

/// Decoding the wire form of a header gives back the header, whatever follows it.
pub proof fn law_metadata_round_trip(
    m: Metadata,
    rest: Seq<u8>,
    r: Result<Metadata, MetadataDecodeError>,
)
    requires
        Metadata::parses(m.wire() + rest, r),
    ensures
        r == Ok::<Metadata, MetadataDecodeError>(m),
{
    let buf = m.wire() + rest;
    match m {
        Metadata::Error { category, raw_code } => {
            assert(buf[0] == 16 && buf[1] == category.byte());
            assert(buf.skip(2) =~= bytes::u16_le(raw_code) + rest);
            bytes::lemma_u16_round_trip(raw_code, rest);
        },
        _ => {},
    }
}

/// Distinct categories have distinct wire bytes.
pub proof fn law_category_byte_injective(a: ErrorCategory, b: ErrorCategory)
    requires
        a.byte() == b.byte(),
    ensures
        a == b,
{
}

/// The first byte tells the variant, and an error's code stands in two bytes behind its
/// category, the low one first.
pub proof fn law_header_layout(m: Metadata)
    ensures
        match m {
            Metadata::Pickle5 { has_nested_refs } => m.wire().len() == 2 && m.wire()[0] == 1 && (
            m.wire()[1] == 0 <==> !has_nested_refs),
            Metadata::Raw => m.wire().len() == 1 && m.wire()[0] == 2,
            Metadata::ActorHandle => m.wire().len() == 1 && m.wire()[0] == 3,
            Metadata::Error { category, raw_code } => m.wire().len() == 4 && m.wire()[0] == 16
                && m.wire()[1] == category.byte() && m.wire()[2] + 256 * m.wire()[3] == raw_code,
        },
{
    match m {
        Metadata::Error { category, raw_code } => {
            bytes::law_u16_bytes(raw_code);
        },
        _ => {},
    }
}

/// Bytes decode in one way only.
pub proof fn law_decoding_is_unique(
    b: Seq<u8>,
    r: Result<Metadata, MetadataDecodeError>,
    s: Result<Metadata, MetadataDecodeError>,
)
    requires
        Metadata::parses(b, r),
        Metadata::parses(b, s),
    ensures
        r == s,
{
}

/// What decodes is the header that encodes to the bytes in front, but for a flag that any
/// byte but 0 sets.
pub proof fn law_decoded_header_encodes_back(b: Seq<u8>, m: Metadata)
    requires
        Metadata::parses(b, Ok::<Metadata, MetadataDecodeError>(m)),
    ensures
        b.len() >= m.wire().len(),
        !(m is Pickle5) ==> b.take(m.wire().len() as int) == m.wire(),
        m is Pickle5 ==> b[0] == m.wire()[0] && (b[1] == 0 <==> m.wire()[1] == 0),
{
    match m {
        Metadata::Error { category, raw_code } => {
            let tail = b.skip(2);
            bytes::law_u16_bytes(raw_code);
            bytes::law_le_u16_value(tail);
            assert(b.take(4) =~= m.wire());
        },
        Metadata::Pickle5 { .. } => {},
        _ => {
            assert(b.take(1) =~= m.wire());
        },
    }
}

/// A header that was cut short is refused: with no byte as empty, else with the number of
/// bytes that are needed and there.
pub proof fn law_cut_header_is_refused(
    m: Metadata,
    k: int,
    r: Result<Metadata, MetadataDecodeError>,
)
    requires
        0 <= k < m.wire().len(),
        Metadata::parses(m.wire().take(k), r),
    ensures
        k == 0 ==> r == Err::<Metadata, MetadataDecodeError>(MetadataDecodeError::Empty),
        k > 0 ==> r == Err::<Metadata, MetadataDecodeError>(
            MetadataDecodeError::Truncated {
                expected: m.wire().len() as usize,
                got: k as usize,
            },
        ),
{
}

/// Categories are numbered from 1 to 11.
pub proof fn law_category_bytes(c: ErrorCategory)
    ensures
        1 <= c.byte() <= 11,
        ErrorCategory::TaskException.byte() == 1,
        ErrorCategory::WorkerDied.byte() == 2,
        ErrorCategory::ActorDied.byte() == 3,
        ErrorCategory::OwnerDied.byte() == 4,
        ErrorCategory::TaskCancelled.byte() == 5,
        ErrorCategory::ObjectLost.byte() == 6,
        ErrorCategory::ObjectUnreconstructable.byte() == 7,
        ErrorCategory::FetchTimeout.byte() == 8,
        ErrorCategory::RuntimeEnvFailed.byte() == 9,
        ErrorCategory::Unschedulable.byte() == 10,
        ErrorCategory::OutOfMemory.byte() == 11,
{
}

/// A reader has to wait exactly while the state is pending.
pub proof fn law_ready_states(s: RefState)
    ensures
        !s.spec_ready() <==> s == RefState::Pending,
{
}

} // verus!
