//! Frames between the driver and its workers: the length of the body (4 bytes,
//! little-endian), then the body.

use crate::util::bytes;
use crate::util::bytes::{get_u32_le, push_bytes, push_u32_le};
use crate::util::text;
use crate::util::text::with_number;
use vstd::prelude::*;

verus! {

/// Most bytes in a body that is taken in.
pub const MAX_FRAME_BYTES: usize = 67_108_864;

/// The message about a body that is too large.
pub open spec fn too_large(len: nat) -> Seq<char> {
    "dispatch frame too large: "@ + text::decimal_text(len) + " bytes"@
}

/// The bytes of a frame.
pub open spec fn frame_of(body: Seq<u8>) -> Seq<u8> {
    bytes::u32_le(body.len() as u32) + body
}

/// The bytes of a frame with the given body.
pub fn send_frame(body: &[u8]) -> (r: Result<Vec<u8>, String>)
    ensures
        match r {
            Ok(b) => body@.len() <= u32::MAX && b@ == frame_of(body@),
            Err(e) => body@.len() > u32::MAX && e@ == too_large(body@.len()),
        },
{
    assert(body@.len() == body.len());
    if body.len() as u64 > u32::MAX as u64 {
        return Err(with_number("dispatch frame too large: ", body.len() as u64, " bytes"));
    }
    let mut b: Vec<u8> = Vec::new();
    push_u32_le(&mut b, body.len() as u32);
    push_bytes(&mut b, body);
    assert(b@ =~= frame_of(body@));
    Ok(b)
}

/// The length of the body behind a header.
pub fn recv_length(header: &[u8; 4]) -> (r: Result<usize, String>)
    ensures
        match r {
            Ok(n) => n <= MAX_FRAME_BYTES && n == bytes::le_u32(header@),
            Err(e) => bytes::le_u32(header@) > MAX_FRAME_BYTES && e@ == too_large(
                bytes::le_u32(header@) as nat,
            ),
        },
{
    assert(header@.skip(0) =~= header@);
    let len: u32 = get_u32_le(header, 0);
    if len > MAX_FRAME_BYTES as u32 {
        return Err(with_number("dispatch frame too large: ", len as u64, " bytes"));
    }
    Ok(len as usize)
}

/// The header of a frame tells the length of its body, and the body follows it.
pub proof fn law_frame_round_trip(body: Seq<u8>)
    requires
        body.len() <= u32::MAX,
    ensures
        frame_of(body).take(4) == bytes::u32_le(body.len() as u32),
        bytes::le_u32(frame_of(body).take(4)) == body.len(),
        frame_of(body).skip(4) == body,
{
    let f = frame_of(body);
    bytes::lemma_u32_round_trip(body.len() as u32, Seq::empty());
    assert(f.take(4) =~= bytes::u32_le(body.len() as u32));
    assert(bytes::u32_le(body.len() as u32) + Seq::<u8>::empty() =~= f.take(4));
    assert(f.skip(4) =~= body);
}

/// A body of more than 64 MiB is not taken in.
pub proof fn law_limit()
    ensures
        MAX_FRAME_BYTES == 64 * 1024 * 1024,
{
}

} // verus!
