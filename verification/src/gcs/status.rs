//! Outcomes of remote calls.

use crate::util::bytes::to_array;
use crate::util::hexadecimal;
use crate::util::hexadecimal::hex_encode;
use crate::util::text;
use crate::util::text::with_number;
use vstd::prelude::*;
use vstd::slice::slice_subrange;

verus! {

/// Kind of a failed call.
#[derive(Debug, Clone, Copy, PartialEq, Eq, Structural)]
pub enum RpcCode {
    /// The request is not in order.
    InvalidArgument,
    /// What the request speaks of is not there.
    NotFound,
    /// What the request wants to add is there.
    AlreadyExists,
    /// The state does not allow the request.
    FailedPrecondition,
    /// The requested position is gone.
    OutOfRange,
    /// The server failed.
    Internal,
    /// The server cannot be reached.
    Unavailable,
    /// Any other failure.
    Unknown,
}

/// A failed call: its kind and a message.
#[derive(Debug, PartialEq, Eq)]
pub struct Status {
    /// The kind.
    pub code: RpcCode,
    /// The message.
    pub message: String,
}

impl View for Status {
    type V = (RpcCode, Seq<char>);

    open spec fn view(&self) -> (RpcCode, Seq<char>) {
        (self.code, self.message@)
    }
}

impl Status {
    /// A failure of the given kind.
    pub fn new(code: RpcCode, message: String) -> (r: Self)
        ensures
            r@ == (code, message@),
    {
        Status { code, message }
    }

    /// A request that is not in order.
    pub fn invalid_argument(message: &str) -> (r: Self)
        ensures
            r@ == (RpcCode::InvalidArgument, message@),
    {
        Status { code: RpcCode::InvalidArgument, message: message.to_owned() }
    }

    /// Something that is not there.
    pub fn not_found(message: &str) -> (r: Self)
        ensures
            r@ == (RpcCode::NotFound, message@),
    {
        Status { code: RpcCode::NotFound, message: message.to_owned() }
    }
}

/// The message about an identifier of the wrong length.
pub open spec fn wrong_id_length(name: Seq<char>, size: nat, got: nat) -> Seq<char> {
    name + " must be "@ + text::decimal_text(size) + " bytes, got "@ + text::decimal_text(got)
}

/// The message about an identifier of the wrong length.
pub fn wrong_id_message(name: &str, size: usize, got: usize) -> (r: String)
    ensures
        r@ == wrong_id_length(name@, size as nat, got as nat),
{
    let mut r = name.to_owned();
    r.append(with_number(" must be ", size as u64, " bytes, got ").as_str());
    text::push_decimal(&mut r, got as u64);
    assert(r@ =~= wrong_id_length(name@, size as nat, got as nat));
    r
}

/// Takes an identifier of 16 bytes out of a message field called `name`.
pub fn parse_id(b: &[u8], name: &str) -> (r: Result<[u8; 16], Status>)
    ensures
        match r {
            Ok(id) => id@ == b@,
            Err(e) => b@.len() != 16 && e@ == (
                RpcCode::InvalidArgument,
                wrong_id_length(name@, 16, b@.len()),
            ),
        },
{
    if b.len() != 16 {
        return Err(Status::new(RpcCode::InvalidArgument, wrong_id_message(name, 16, b.len())));
    }
    Ok(to_array(b))
}

/// The message about an identifier that may be left out and has the wrong length.
pub open spec fn wrong_optional_id_length(name: Seq<char>, got: nat) -> Seq<char> {
    name + " must be 16 bytes (or empty), got "@ + text::decimal_text(got)
}

/// Checks an identifier of 16 bytes that may be left out, in a message field called `name`.
pub fn check_optional_id(b: &[u8], name: &str) -> (r: Result<(), Status>)
    ensures
        match r {
            Ok(()) => b@.len() == 0 || b@.len() == 16,
            Err(e) => b@.len() != 0 && b@.len() != 16 && e@ == (
                RpcCode::InvalidArgument,
                wrong_optional_id_length(name@, b@.len()),
            ),
        },
{
    if b.len() != 0 && b.len() != 16 {
        let mut message = name.to_owned();
        message.append(" must be 16 bytes (or empty), got ");
        text::push_decimal(&mut message, b.len() as u64);
        return Err(Status::new(RpcCode::InvalidArgument, message));
    }
    Ok(())
}

/// The first four bytes in hexadecimal, for log lines.
pub fn hex_short(b: &[u8; 16]) -> (r: String)
    ensures
        r@ == hexadecimal::hex_text(b@.take(4)),
{
    let head = slice_subrange(b, 0, 4);
    assert(head@ =~= b@.take(4));
    hex_encode(head)
}

/// A message about an identifier begins with the field's name and ends with the number of bytes
/// that came.
pub proof fn law_length_messages(name: Seq<char>, size: nat, got: nat)
    ensures
        ({
            let m = wrong_id_length(name, size, got);
            let n = text::decimal_text(got).len();
            &&& name.is_prefix_of(m)
            &&& m.len() >= n && m.skip(m.len() - n) == text::decimal_text(got)
            &&& m.take(m.len() - n) == name + " must be "@ + text::decimal_text(size)
                + " bytes, got "@
        }),
{
    let m = wrong_id_length(name, size, got);
    let n = text::decimal_text(got).len();
    assert(m.take(name.len() as int) =~= name);
    assert(m.skip(m.len() - n) =~= text::decimal_text(got));
    assert(m.take(m.len() - n) =~= name + " must be "@ + text::decimal_text(size)
        + " bytes, got "@);
}

} // verus!
