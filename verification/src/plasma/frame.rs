//! Frames on the connection: a `u32` length, then the body.

use crate::plasma::codec::MAX_FRAME_BYTES;
use crate::plasma::error::PlasmaError;
use crate::util::bytes;
use crate::util::bytes::{get_u32_le, push_bytes, push_u32_le};
use crate::util::text;
use crate::util::text::{push_decimal, with_number};
use vstd::prelude::*;

verus! {

/// Bytes of the length in front of a body.
pub const HEADER_SIZE: usize = 4;

/// Most file descriptors that one frame can carry.
pub const MAX_FDS_PER_FRAME: usize = 4;

/// The header of a body of `len` bytes.
pub fn frame_header(len: usize) -> (r: Result<Vec<u8>, PlasmaError>)
    ensures
        match r {
            Ok(h) => len <= u32::MAX && h@ == bytes::u32_le(len as u32),
            Err(PlasmaError::Protocol(m)) => len > u32::MAX && m@ == "frame too large: "@
                + text::decimal_text(len as nat) + " bytes"@,
            Err(_) => false,
        },
{
    if len > u32::MAX as usize {
        return Err(
            PlasmaError::Protocol(with_number("frame too large: ", len as u64, " bytes")),
        );
    }
    let mut h: Vec<u8> = Vec::new();
    push_u32_le(&mut h, len as u32);
    assert(h@ =~= bytes::u32_le(len as u32));
    Ok(h)
}

/// Checks that `sent` bytes of a header were sent in one go.
pub fn header_sent(sent: usize) -> (r: Result<(), PlasmaError>)
    ensures
        match r {
            Ok(()) => sent == 4,
            Err(PlasmaError::Protocol(m)) => sent != 4 && m@ == "short header send: wrote "@
                + text::decimal_text(sent as nat) + " bytes, expected "@ + text::decimal_text(4),
            Err(_) => false,
        },
{
    if sent != HEADER_SIZE {
        let mut m = with_number("short header send: wrote ", sent as u64, " bytes, expected ");
        push_decimal(&mut m, HEADER_SIZE as u64);
        return Err(PlasmaError::Protocol(m));
    }
    Ok(())
}

/// The frame that carries a body.
pub fn frame(body: &[u8]) -> (r: Result<Vec<u8>, PlasmaError>)
    ensures
        match r {
            Ok(f) => body@.len() <= u32::MAX && f@ == bytes::u32_le(body@.len() as u32) + body@,
            Err(PlasmaError::Protocol(m)) => body@.len() > u32::MAX && m@ == "frame too large: "@
                + text::decimal_text(body@.len()) + " bytes"@,
            Err(_) => false,
        },
{
    let mut f = match frame_header(body.len()) {
        Ok(h) => h,
        Err(e) => return Err(e),
    };
    push_bytes(&mut f, body);
    Ok(f)
}

/// The length of the body behind a received header. `received` bytes of the header came.
pub fn parse_header(header: &[u8], received: usize) -> (r: Result<usize, PlasmaError>)
    requires
        received == 4 ==> header@.len() == 4,
    ensures
        match r {
            Ok(n) => received == 4 && n == bytes::le_u32(header@) && n <= MAX_FRAME_BYTES,
            Err(PlasmaError::Protocol(m)) => if received != 4 {
                m@ == "short header recv: read "@ + text::decimal_text(received as nat)
                    + " bytes, expected "@ + text::decimal_text(4)
            } else {
                &&& bytes::le_u32(header@) > MAX_FRAME_BYTES
                &&& m@ == "frame too large: "@ + text::decimal_text(bytes::le_u32(header@) as nat)
                    + " bytes (max "@ + text::decimal_text(MAX_FRAME_BYTES as nat) + ")"@
            },
            Err(_) => false,
        },
{
    if received != HEADER_SIZE {
        let mut m = with_number("short header recv: read ", received as u64, " bytes, expected ");
        push_decimal(&mut m, HEADER_SIZE as u64);
        return Err(PlasmaError::Protocol(m));
    }
    let len: u32 = get_u32_le(header, 0);
    assert(header@.skip(0) =~= header@);
    if len as u64 > MAX_FRAME_BYTES {
        let mut m = with_number("frame too large: ", len as u64, " bytes (max ");
        push_decimal(&mut m, MAX_FRAME_BYTES);
        m.append(")");
        return Err(PlasmaError::Protocol(m));
    }
    Ok(len as usize)
}

/// What a transfer of a body does next.
#[derive(Debug)]
pub enum Transfer {
    /// Go on from this many transferred bytes.
    Continue(usize),
    /// The body is complete.
    Complete,
    /// The other side closed the connection in the middle.
    Closed(PlasmaError),
}

/// The direction of a transfer.
#[derive(Debug, Clone, Copy, PartialEq, Eq, Structural)]
pub enum Direction {
    /// Sending.
    Send,
    /// Receiving.
    Recv,
}

/// The next step of a transfer of `len` bytes of which `done` are transferred, when the
/// last attempt moved `moved` more; nothing where no attempt was made yet.
pub fn transfer_step(direction: Direction, len: usize, done: usize, moved: Option<usize>) -> (r:
    Transfer)
    requires
        done <= len,
        moved matches Some(n) ==> done < len && n <= len - done,
    ensures
        match (moved, r) {
            (None, Transfer::Continue(d)) => d == done && done < len,
            (None, Transfer::Complete) => done == len,
            (Some(n), Transfer::Continue(d)) => n > 0 && d == done + n && d < len,
            (Some(n), Transfer::Complete) => n > 0 && done + n == len,
            (Some(n), Transfer::Closed(PlasmaError::Protocol(m))) => n == 0 && m@ == (
            if direction == Direction::Send {
                "EOF mid-body during send"@
            } else {
                "EOF mid-body during recv"@
            }),
            _ => false,
        },
{
    let n: usize = match moved {
        None => 0,
        Some(0) => {
            return Transfer::Closed(
                PlasmaError::Protocol(
                    match direction {
                        Direction::Send => "EOF mid-body during send".to_owned(),
                        Direction::Recv => "EOF mid-body during recv".to_owned(),
                    },
                ),
            );
        },
        Some(n) => n,
    };
    if done + n == len {
        Transfer::Complete
    } else {
        Transfer::Continue(done + n)
    }
}

/// The header of a framed body gives back the body's length.
pub proof fn law_frame_round_trip(body: Seq<u8>, f: Seq<u8>)
    requires
        body.len() <= u32::MAX,
        f == bytes::u32_le(body.len() as u32) + body,
    ensures
        bytes::le_u32(f.take(4)) == body.len(),
        f.skip(4) == body,
{
    bytes::lemma_u32_round_trip(body.len() as u32, Seq::<u8>::empty());
    assert(f.take(4) =~= bytes::u32_le(body.len() as u32) + Seq::<u8>::empty());
    assert(f.skip(4) =~= body);
}

/// A frame has four bytes of length in front and carries at most four descriptors.
pub proof fn law_limits()
    ensures
        HEADER_SIZE == 4,
        MAX_FDS_PER_FRAME == 4,
        MAX_FRAME_BYTES == 8 * 1024 * 1024,
{
}

} // verus!
