//! Errors of the shared-memory store.

use crate::util::text;
use crate::util::text::{concat2, concat3, push_decimal, with_number};
use vstd::prelude::*;

verus! {

/// Reason of a server-side failure, as reported over the wire.
#[derive(Clone, Copy, Debug, PartialEq, Eq, Structural)]
pub enum ServerErrorKind {
    /// The object is not present.
    NotFound,
    /// The object already exists.
    AlreadyExists,
    /// The arena has no room.
    OutOfMemory,
    /// The object is not sealed yet.
    NotSealed,
    /// The object is sealed already.
    AlreadySealed,
    /// Any other failure.
    Internal,
}

impl ServerErrorKind {
    /// The name of the kind.
    pub open spec fn spec_name(self) -> Seq<char> {
        match self {
            ServerErrorKind::NotFound => "NotFound"@,
            ServerErrorKind::AlreadyExists => "AlreadyExists"@,
            ServerErrorKind::OutOfMemory => "OutOfMemory"@,
            ServerErrorKind::NotSealed => "NotSealed"@,
            ServerErrorKind::AlreadySealed => "AlreadySealed"@,
            ServerErrorKind::Internal => "Internal"@,
        }
    }

    /// The name of the kind.
    pub fn name(self) -> (r: &'static str)
        ensures
            r@ == self.spec_name(),
    {
        match self {
            ServerErrorKind::NotFound => "NotFound",
            ServerErrorKind::AlreadyExists => "AlreadyExists",
            ServerErrorKind::OutOfMemory => "OutOfMemory",
            ServerErrorKind::NotSealed => "NotSealed",
            ServerErrorKind::AlreadySealed => "AlreadySealed",
            ServerErrorKind::Internal => "Internal",
        }
    }
}

/// The enumerations that a message holds.
#[derive(Clone, Copy, Debug, PartialEq, Eq, Structural)]
pub enum TaggedType {
    /// A request.
    Request,
    /// A response.
    Response,
    /// The kind of a server error.
    ServerErrorKind,
    /// An optional metadata header.
    OptionalBytes,
}

impl TaggedType {
    /// The name of the type.
    pub open spec fn spec_name(self) -> Seq<char> {
        match self {
            TaggedType::Request => "Request"@,
            TaggedType::Response => "Response"@,
            TaggedType::ServerErrorKind => "ServerErrorKind"@,
            TaggedType::OptionalBytes => "core::option::Option<alloc::vec::Vec<u8>>"@,
        }
    }

    /// The largest tag of the type.
    pub open spec fn spec_max(self) -> u32 {
        match self {
            TaggedType::Request => 7,
            TaggedType::Response => 5,
            TaggedType::ServerErrorKind => 5,
            TaggedType::OptionalBytes => 1,
        }
    }

    fn name(self) -> (r: &'static str)
        ensures
            r@ == self.spec_name(),
    {
        match self {
            TaggedType::Request => "Request",
            TaggedType::Response => "Response",
            TaggedType::ServerErrorKind => "ServerErrorKind",
            TaggedType::OptionalBytes => "core::option::Option<alloc::vec::Vec<u8>>",
        }
    }

    fn max(self) -> (r: u32)
        ensures
            r == self.spec_max(),
    {
        match self {
            TaggedType::Request => 7,
            TaggedType::Response => 5,
            TaggedType::ServerErrorKind => 5,
            TaggedType::OptionalBytes => 1,
        }
    }
}

/// `Some(n)` or `None`.
pub open spec fn optional_number_text(n: Option<usize>) -> Seq<char> {
    match n {
        Some(x) => "Some("@ + text::decimal_text(x as nat) + ")"@,
        None => "None"@,
    }
}

/// Why the body of a frame was rejected.
#[derive(Clone, Copy, Debug, PartialEq, Eq, Structural)]
pub enum CodecError {
    /// The bytes end too early.
    UnexpectedEnd {
        /// How many more the current field needs.
        additional: usize,
    },
    /// The message is longer than a frame may be.
    LimitExceeded,
    /// A tag stands for no variant.
    UnexpectedVariant {
        /// The enumeration.
        tagged: TaggedType,
        /// The tag.
        found: u32,
    },
    /// A text is not UTF-8.
    Utf8 {
        /// How many bytes in front are valid.
        valid_up_to: usize,
        /// Length of the faulty sequence; nothing where the text ends inside a character.
        error_len: Option<usize>,
    },
    /// A boolean is neither 0 nor 1.
    InvalidBooleanValue(u8),
    /// A length does not fit the machine.
    OutsideUsizeRange(u64),
}

impl CodecError {
    /// The text of the error.
    pub open spec fn spec_text(&self) -> Seq<char> {
        match *self {
            CodecError::UnexpectedEnd { additional } => "UnexpectedEnd { additional: "@
                + text::decimal_text(additional as nat) + " }"@,
            CodecError::LimitExceeded => "LimitExceeded"@,
            CodecError::UnexpectedVariant { tagged, found } => "UnexpectedVariant { type_name: \""@
                + tagged.spec_name() + "\", allowed: Range { min: 0, max: "@ + text::decimal_text(
                tagged.spec_max() as nat,
            ) + " }, found: "@ + text::decimal_text(found as nat) + " }"@,
            CodecError::Utf8 { valid_up_to, error_len }
                => "Utf8 { inner: Utf8Error { valid_up_to: "@ + text::decimal_text(
                valid_up_to as nat,
            ) + ", error_len: "@ + optional_number_text(error_len) + " } }"@,
            CodecError::InvalidBooleanValue(b) => "InvalidBooleanValue("@ + text::decimal_text(
                b as nat,
            ) + ")"@,
            CodecError::OutsideUsizeRange(n) => "OutsideUsizeRange("@ + text::decimal_text(n as nat)
                + ")"@,
        }
    }

    /// The text of the error.
    pub fn text(&self) -> (r: String)
        ensures
            r@ == self.spec_text(),
    {
        match self {
            CodecError::UnexpectedEnd { additional } => with_number(
                "UnexpectedEnd { additional: ",
                *additional as u64,
                " }",
            ),
            CodecError::LimitExceeded => "LimitExceeded".to_owned(),
            CodecError::UnexpectedVariant { tagged, found } => {
                let mut r = concat3(
                    "UnexpectedVariant { type_name: \"",
                    tagged.name(),
                    "\", allowed: Range { min: 0, max: ",
                );
                push_decimal(&mut r, tagged.max() as u64);
                r.append(" }, found: ");
                push_decimal(&mut r, *found as u64);
                r.append(" }");
                r
            },
            CodecError::Utf8 { valid_up_to, error_len } => {
                let mut r = with_number(
                    "Utf8 { inner: Utf8Error { valid_up_to: ",
                    *valid_up_to as u64,
                    ", error_len: ",
                );
                match error_len {
                    Some(n) => {
                        r.append(with_number("Some(", *n as u64, ")").as_str());
                    },
                    None => {
                        r.append("None");
                    },
                }
                r.append(" } }");
                r
            },
            CodecError::InvalidBooleanValue(b) => with_number(
                "InvalidBooleanValue(",
                *b as u64,
                ")",
            ),
            CodecError::OutsideUsizeRange(n) => with_number("OutsideUsizeRange(", *n, ")"),
        }
    }
}

/// A failure of a store operation, on either side of the connection.
#[derive(Debug)]
pub enum PlasmaError {
    /// The connection or a mapping failed.
    Io(String),
    /// A message could not be decoded.
    Decode(CodecError),
    /// A system call failed.
    Nix(String),
    /// The server reported a failure.
    Server {
        /// The reason.
        kind: ServerErrorKind,
        /// The server's message.
        message: String,
    },
    /// A message of the wrong kind or form.
    Protocol(String),
    /// The arena could not be mapped.
    Mmap(String),
    /// A reply came without the arena's file descriptor.
    MissingFd,
    /// The metrics endpoint could not be started.
    Metrics(String),
}

impl PlasmaError {
    /// The text of the error.
    pub open spec fn spec_text(&self) -> Seq<char> {
        match self {
            PlasmaError::Io(e) => "plasma I/O: "@ + e@,
            PlasmaError::Decode(e) => "plasma codec: "@ + e.spec_text(),
            PlasmaError::Nix(e) => "plasma syscall: "@ + e@,
            PlasmaError::Server { kind, message } => "plasma server error: "@ + kind.spec_name()
                + ": "@ + message@,
            PlasmaError::Protocol(e) => "plasma protocol mismatch: "@ + e@,
            PlasmaError::Mmap(e) => "plasma mmap: "@ + e@,
            PlasmaError::MissingFd => "plasma: missing file descriptor in server reply"@,
            PlasmaError::Metrics(e) => "plasma metrics: "@ + e@,
        }
    }

    /// The text of the error.
    pub fn text(&self) -> (r: String)
        ensures
            r@ == self.spec_text(),
    {
        match self {
            PlasmaError::Io(e) => concat2("plasma I/O: ", e.as_str()),
            PlasmaError::Decode(e) => concat2("plasma codec: ", e.text().as_str()),
            PlasmaError::Nix(e) => concat2("plasma syscall: ", e.as_str()),
            PlasmaError::Server { kind, message } => {
                let mut r = concat3("plasma server error: ", kind.name(), ": ");
                r.append(message.as_str());
                r
            },
            PlasmaError::Protocol(e) => concat2("plasma protocol mismatch: ", e.as_str()),
            PlasmaError::Mmap(e) => concat2("plasma mmap: ", e.as_str()),
            PlasmaError::MissingFd => "plasma: missing file descriptor in server reply".to_owned(),
            PlasmaError::Metrics(e) => concat2("plasma metrics: ", e.as_str()),
        }
    }

    /// Whether this is a server failure of the given kind.
    pub open spec fn spec_is(&self, k: ServerErrorKind) -> bool {
        self matches PlasmaError::Server { kind, .. } && kind == k
    }

    /// Whether this is a server failure of the given kind.
    pub fn is(&self, k: ServerErrorKind) -> (b: bool)
        ensures
            b == self.spec_is(k),
    {
        match self {
            PlasmaError::Server { kind, .. } => *kind == k,
            _ => false,
        }
    }
}

/// A failure is of one kind at most: that of the server's answer.
pub proof fn law_one_kind(e: PlasmaError, a: ServerErrorKind, b: ServerErrorKind)
    ensures
        e.spec_is(a) && e.spec_is(b) ==> a == b,
        e.spec_is(a) ==> e is Server,
        e matches PlasmaError::Server { kind, message } ==> e.spec_is(kind),
{
}

/// A tag is out of range exactly beyond the last variant of its type.
pub proof fn law_tag_ranges()
    ensures
        TaggedType::Request.spec_max() == 7,
        TaggedType::Response.spec_max() == 5,
        TaggedType::ServerErrorKind.spec_max() == 5,
        TaggedType::OptionalBytes.spec_max() == 1,
{
}

} // verus!
