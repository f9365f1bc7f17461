//! Wire format of the data buffer of failed objects.
//!
//! ```text
//! [u32 LE: message length][message, UTF-8]
//! [u8: traceback present?] if 1: [u32 LE: length][traceback, UTF-8]
//! [u16 LE: raw code]
//! [u8: pickled exception present?] if 1: [u32 LE: length][bytes]
//! ```

use crate::util::bytes;
use crate::util::bytes::{copy_bytes, get_u16_le, get_u32_le, push_bytes, push_u16_le, push_u32_le};
use crate::util::seqs;
use crate::util::text;
use crate::util::text::{push_decimal, string_from_utf8, with_number};
use vstd::prelude::*;
use vstd::slice::slice_subrange;
use vstd::utf8;

verus! {

/// Why an error payload was rejected.
#[derive(Debug, Clone, Copy, PartialEq, Eq, Structural)]
pub enum ErrorPayloadCodecError {
    /// The bytes end too early.
    Truncated {
        /// How many more bytes are needed.
        needed: usize,
    },
    /// A length prefix exceeds what is left.
    LengthOverflow {
        /// The length that the prefix claims.
        claimed: u64,
        /// Bytes left.
        remaining: usize,
    },
    /// A text section is not UTF-8.
    InvalidUtf8,
    /// A flag byte is neither 0 nor 1.
    InvalidFlag(u8),
}

impl ErrorPayloadCodecError {
    /// The error as a text.
    pub open spec fn spec_text(&self) -> Seq<char> {
        match *self {
            ErrorPayloadCodecError::Truncated { needed } => "error payload truncated: needed "@
                + text::decimal_text(needed as nat) + " more bytes"@,
            ErrorPayloadCodecError::LengthOverflow { claimed, remaining } =>
            "error payload length prefix "@ + text::decimal_text(claimed as nat)
                + " exceeds remaining "@ + text::decimal_text(remaining as nat),
            ErrorPayloadCodecError::InvalidUtf8 =>
            "error payload string section was not valid UTF-8"@,
            ErrorPayloadCodecError::InvalidFlag(b) => "error payload flag byte was "@
                + text::decimal_text(b as nat) + ", expected 0 or 1"@,
        }
    }

    /// The error as a text.
    pub fn text(&self) -> (r: String)
        ensures
            r@ == self.spec_text(),
    {
        match self {
            ErrorPayloadCodecError::Truncated { needed } => with_number(
                "error payload truncated: needed ",
                *needed as u64,
                " more bytes",
            ),
            ErrorPayloadCodecError::LengthOverflow { claimed, remaining } => {
                let mut r = with_number(
                    "error payload length prefix ",
                    *claimed,
                    " exceeds remaining ",
                );
                push_decimal(&mut r, *remaining as u64);
                r
            },
            ErrorPayloadCodecError::InvalidUtf8 =>
            "error payload string section was not valid UTF-8".to_owned(),
            ErrorPayloadCodecError::InvalidFlag(b) => with_number(
                "error payload flag byte was ",
                *b as u64,
                ", expected 0 or 1",
            ),
        }
    }
}

/// An error as stored in an object's data buffer.
#[derive(Debug, Clone, PartialEq, Eq)]
pub struct ErrorPayload {
    /// Human-readable message.
    pub message: String,
    /// Formatted traceback.
    pub traceback: Option<String>,
    /// Granular error code.
    pub raw_code: u16,
    /// Pickled Python exception.
    pub pickled_python_exception: Option<Vec<u8>>,
}

/// The mathematical content of an error payload.
#[verifier::ext_equal]
pub struct PayloadModel {
    /// Human-readable message.
    pub message: Seq<char>,
    /// Formatted traceback.
    pub traceback: Option<Seq<char>>,
    /// Granular error code.
    pub raw_code: u16,
    /// Pickled Python exception.
    pub pickled: Option<Seq<u8>>,
}

/// What a parser yields: a value and the bytes behind it, or an error.
pub type Parsed<T> = Result<(T, Seq<u8>), ErrorPayloadCodecError>;

/// The first `n` bytes must be there.
pub open spec fn truncated(s: Seq<u8>, n: nat) -> ErrorPayloadCodecError {
    ErrorPayloadCodecError::Truncated { needed: (n - s.len()) as usize }
}

/// Parses a flag byte.
pub open spec fn parse_flag(s: Seq<u8>) -> Parsed<bool> {
    if s.len() < 1 {
        Err(truncated(s, 1))
    } else if s[0] == 0 {
        Ok((false, s.skip(1)))
    } else if s[0] == 1 {
        Ok((true, s.skip(1)))
    } else {
        Err(ErrorPayloadCodecError::InvalidFlag(s[0]))
    }
}

/// Parses a `u16`.
pub open spec fn parse_u16(s: Seq<u8>) -> Parsed<u16> {
    if s.len() < 2 {
        Err(truncated(s, 2))
    } else {
        Ok((bytes::le_u16(s) as u16, s.skip(2)))
    }
}

/// Parses a `u32`.
pub open spec fn parse_u32(s: Seq<u8>) -> Parsed<u32> {
    if s.len() < 4 {
        Err(truncated(s, 4))
    } else {
        Ok((bytes::le_u32(s) as u32, s.skip(4)))
    }
}

/// Parses a `u32` length and that many bytes.
pub open spec fn parse_prefixed(s: Seq<u8>) -> Parsed<Seq<u8>> {
    match parse_u32(s) {
        Err(e) => Err(e),
        Ok((n, t)) => if t.len() < n {
            Err(ErrorPayloadCodecError::LengthOverflow { claimed: n as u64, remaining: t.len() as usize })
        } else {
            Ok((t.take(n as int), t.skip(n as int)))
        },
    }
}

/// Parses a length-prefixed UTF-8 text.
pub open spec fn parse_text(s: Seq<u8>) -> Parsed<Seq<char>> {
    match parse_prefixed(s) {
        Err(e) => Err(e),
        Ok((b, t)) => if utf8::valid_utf8(b) {
            Ok((utf8::decode_utf8(b), t))
        } else {
            Err(ErrorPayloadCodecError::InvalidUtf8)
        },
    }
}

/// Parses a flag and, behind a flag of 1, a text.
pub open spec fn parse_optional_text(s: Seq<u8>) -> Parsed<Option<Seq<char>>> {
    match parse_flag(s) {
        Err(e) => Err(e),
        Ok((false, t)) => Ok((None, t)),
        Ok((true, t)) => match parse_text(t) {
            Err(e) => Err(e),
            Ok((x, u)) => Ok((Some(x), u)),
        },
    }
}

/// Parses a flag and, behind a flag of 1, length-prefixed bytes.
pub open spec fn parse_optional_bytes(s: Seq<u8>) -> Parsed<Option<Seq<u8>>> {
    match parse_flag(s) {
        Err(e) => Err(e),
        Ok((false, t)) => Ok((None, t)),
        Ok((true, t)) => match parse_prefixed(t) {
            Err(e) => Err(e),
            Ok((x, u)) => Ok((Some(x), u)),
        },
    }
}

/// Parses a payload. Bytes behind it are ignored.
pub open spec fn parse_payload(s: Seq<u8>) -> Result<PayloadModel, ErrorPayloadCodecError> {
    match parse_text(s) {
        Err(e) => Err(e),
        Ok((message, t)) => match parse_optional_text(t) {
            Err(e) => Err(e),
            Ok((traceback, u)) => match parse_u16(u) {
                Err(e) => Err(e),
                Ok((raw_code, v)) => match parse_optional_bytes(v) {
                    Err(e) => Err(e),
                    Ok((pickled, w)) => Ok(PayloadModel { message, traceback, raw_code, pickled }),
                },
            },
        },
    }
}

/// A length prefix and the bytes.
pub open spec fn prefixed(b: Seq<u8>) -> Seq<u8> {
    bytes::u32_le(b.len() as u32) + b
}

/// A flag and, where there are bytes, a length prefix and the bytes.
pub open spec fn optional_wire(b: Option<Seq<u8>>) -> Seq<u8> {
    match b {
        None => seq![0u8],
        Some(x) => seq![1u8] + prefixed(x),
    }
}

/// The UTF-8 bytes of an optional text.
pub open spec fn optional_utf8(t: Option<Seq<char>>) -> Option<Seq<u8>> {
    match t {
        None => None,
        Some(x) => Some(utf8::encode_utf8(x)),
    }
}

impl PayloadModel {
    /// Whether every section's length fits its prefix.
    pub open spec fn fits(self) -> bool {
        &&& utf8::encode_utf8(self.message).len() <= u32::MAX
        &&& self.traceback matches Some(t) ==> utf8::encode_utf8(t).len() <= u32::MAX
        &&& self.pickled matches Some(b) ==> b.len() <= u32::MAX
    }

    /// The wire form.
    pub open spec fn wire(self) -> Seq<u8> {
        prefixed(utf8::encode_utf8(self.message)) + optional_wire(optional_utf8(self.traceback))
            + bytes::u16_le(self.raw_code) + optional_wire(self.pickled)
    }
}

impl View for ErrorPayload {
    type V = PayloadModel;

    open spec fn view(&self) -> PayloadModel {
        PayloadModel {
            message: self.message@,
            traceback: match self.traceback {
                None => None,
                Some(t) => Some(t@),
            },
            raw_code: self.raw_code,
            pickled: match self.pickled_python_exception {
                None => None,
                Some(b) => Some(b@),
            },
        }
    }
}

fn push_prefixed(out: &mut Vec<u8>, b: &[u8])
    requires
        b@.len() <= u32::MAX,
    ensures
        final(out)@ == old(out)@ + prefixed(b@),
{
    push_u32_le(out, b.len() as u32);
    push_bytes(out, b);
    assert(out@ =~= old(out)@ + prefixed(b@));
}

impl ErrorPayload {
    /// A payload with a message only.
    pub fn new(message: &str) -> (r: Self)
        ensures
            r@ == (PayloadModel { message: message@, traceback: None, raw_code: 0, pickled: None }),
    {
        ErrorPayload {
            message: message.to_owned(),
            traceback: None,
            raw_code: 0,
            pickled_python_exception: None,
        }
    }

    /// The payload with its traceback set.
    pub fn with_traceback(self, tb: &str) -> (r: Self)
        ensures
            r@ == (PayloadModel { traceback: Some(tb@), ..self@ }),
    {
        let mut this = self;
        this.traceback = Some(tb.to_owned());
        this
    }

    /// The payload with its code set.
    pub fn with_raw_code(self, raw_code: u16) -> (r: Self)
        ensures
            r@ == (PayloadModel { raw_code, ..self@ }),
    {
        let mut this = self;
        this.raw_code = raw_code;
        this
    }

    /// The payload with its pickled exception set.
    pub fn with_pickled_exception(self, pickled: Vec<u8>) -> (r: Self)
        ensures
            r@ == (PayloadModel { pickled: Some(pickled@), ..self@ }),
    {
        let mut this = self;
        this.pickled_python_exception = Some(pickled);
        this
    }

    /// The wire form of the payload.
    pub fn encode(&self) -> (r: Vec<u8>)
        requires
            self@.fits(),
        ensures
            r@ == self@.wire(),
    {
        let mut buf: Vec<u8> = Vec::new();
        push_prefixed(&mut buf, self.message.as_str().as_bytes());
        let ghost a = buf@;
        assert(a =~= prefixed(utf8::encode_utf8(self@.message)));
        match &self.traceback {
            None => {
                buf.push(0);
            },
            Some(tb) => {
                buf.push(1);
                push_prefixed(&mut buf, tb.as_str().as_bytes());
            },
        }
        assert(buf@ =~= a + optional_wire(optional_utf8(self@.traceback)));
        push_u16_le(&mut buf, self.raw_code);
        let ghost b = buf@;
        match &self.pickled_python_exception {
            None => {
                buf.push(0);
            },
            Some(blob) => {
                buf.push(1);
                push_prefixed(&mut buf, blob.as_slice());
            },
        }
        assert(buf@ =~= b + optional_wire(self@.pickled));
        buf
    }

    /// Decodes a payload.
    pub fn decode(input: &[u8]) -> (r: Result<Self, ErrorPayloadCodecError>)
        ensures
            match r {
                Ok(p) => parse_payload(input@) == Ok::<PayloadModel, ErrorPayloadCodecError>(p@),
                Err(e) => parse_payload(input@) == Err::<PayloadModel, ErrorPayloadCodecError>(e),
            },
    {
        let mut buf: &[u8] = input;
        let message = match read_string(&mut buf) {
            Ok(m) => m,
            Err(e) => return Err(e),
        };
        let traceback = match read_flag(&mut buf) {
            Ok(true) => match read_string(&mut buf) {
                Ok(t) => Some(t),
                Err(e) => return Err(e),
            },
            Ok(false) => None,
            Err(e) => return Err(e),
        };
        let raw_code: u16 = match read_u16_le(&mut buf) {
            Ok(c) => c,
            Err(e) => return Err(e),
        };
        let pickled_python_exception = match read_flag(&mut buf) {
            Ok(true) => match read_bytes(&mut buf) {
                Ok(b) => Some(b),
                Err(e) => return Err(e),
            },
            Ok(false) => None,
            Err(e) => return Err(e),
        };
        Ok(ErrorPayload { message, traceback, raw_code, pickled_python_exception })
    }
}

/// Requires `needed` bytes to be left.
pub fn ensure(buf: &[u8], needed: usize) -> (r: Result<(), ErrorPayloadCodecError>)
    ensures
        match r {
            Ok(_) => buf@.len() >= needed,
            Err(e) => buf@.len() < needed && e == truncated(buf@, needed as nat),
        },
{
    if buf.len() < needed {
        Err(ErrorPayloadCodecError::Truncated { needed: needed - buf.len() })
    } else {
        Ok(())
    }
}

/// Takes a `u16` off the front of `buf`; leaves `buf` alone where it is too short.
pub fn read_u16_le(buf: &mut &[u8]) -> (r: Result<u16, ErrorPayloadCodecError>)
    ensures
        match r {
            Ok(x) => parse_u16((*old(buf))@) == Ok::<(u16, Seq<u8>), ErrorPayloadCodecError>(
                (x, (*final(buf))@),
            ),
            Err(e) => parse_u16((*old(buf))@) == Err::<(u16, Seq<u8>), ErrorPayloadCodecError>(e)
                && *final(buf) == *old(buf),
        },
{
    let b: &[u8] = *buf;
    match ensure(b, 2) {
        Ok(()) => {},
        Err(e) => return Err(e),
    }
    let x: u16 = get_u16_le(b, 0);
    assert(b@.skip(0) =~= b@);
    *buf = slice_subrange(b, 2, b.len());
    assert((*buf)@ =~= b@.skip(2));
    Ok(x)
}

/// Takes a `u32` off the front of `buf`; leaves `buf` alone where it is too short.
pub fn read_u32_le(buf: &mut &[u8]) -> (r: Result<u32, ErrorPayloadCodecError>)
    ensures
        match r {
            Ok(x) => parse_u32((*old(buf))@) == Ok::<(u32, Seq<u8>), ErrorPayloadCodecError>(
                (x, (*final(buf))@),
            ),
            Err(e) => parse_u32((*old(buf))@) == Err::<(u32, Seq<u8>), ErrorPayloadCodecError>(e)
                && *final(buf) == *old(buf),
        },
{
    let b: &[u8] = *buf;
    match ensure(b, 4) {
        Ok(()) => {},
        Err(e) => return Err(e),
    }
    let x: u32 = get_u32_le(b, 0);
    assert(b@.skip(0) =~= b@);
    *buf = slice_subrange(b, 4, b.len());
    assert((*buf)@ =~= b@.skip(4));
    Ok(x)
}

/// Takes a flag byte off the front of `buf`, one that is no flag too; leaves `buf` alone
/// where it is empty.
pub fn read_flag(buf: &mut &[u8]) -> (r: Result<bool, ErrorPayloadCodecError>)
    ensures
        match r {
            Ok(x) => parse_flag((*old(buf))@) == Ok::<(bool, Seq<u8>), ErrorPayloadCodecError>(
                (x, (*final(buf))@),
            ),
            Err(e) => {
                &&& parse_flag((*old(buf))@) == Err::<(bool, Seq<u8>), ErrorPayloadCodecError>(e)
                &&& e is Truncated ==> *final(buf) == *old(buf)
                &&& !(e is Truncated) ==> (*final(buf))@ == (*old(buf))@.skip(1)
            },
        },
{
    let b: &[u8] = *buf;
    match ensure(b, 1) {
        Ok(()) => {},
        Err(e) => return Err(e),
    }
    *buf = slice_subrange(b, 1, b.len());
    assert((*buf)@ =~= b@.skip(1));
    match b[0] {
        0 => Ok(false),
        1 => Ok(true),
        other => Err(ErrorPayloadCodecError::InvalidFlag(other)),
    }
}

/// Takes length-prefixed bytes off the front of `buf`. A length that cannot be read leaves
/// `buf` alone; one that claims too much is taken off.
pub fn read_length_prefixed<'a>(buf: &mut &'a [u8]) -> (r: Result<
    &'a [u8],
    ErrorPayloadCodecError,
>)
    ensures
        match r {
            Ok(x) => parse_prefixed((*old(buf))@) == Ok::<
                (Seq<u8>, Seq<u8>),
                ErrorPayloadCodecError,
            >((x@, (*final(buf))@)),
            Err(e) => {
                &&& parse_prefixed((*old(buf))@) == Err::<
                    (Seq<u8>, Seq<u8>),
                    ErrorPayloadCodecError,
                >(e)
                &&& e is Truncated ==> *final(buf) == *old(buf)
                &&& !(e is Truncated) ==> (*final(buf))@ == (*old(buf))@.skip(4)
            },
        },
{
    let len: usize = match read_u32_le(buf) {
        Ok(n) => n as usize,
        Err(e) => return Err(e),
    };
    let b: &'a [u8] = *buf;
    if b.len() < len {
        return Err(ErrorPayloadCodecError::LengthOverflow { claimed: len as u64, remaining: b.len() });
    }
    let head = slice_subrange(b, 0, len);
    *buf = slice_subrange(b, len, b.len());
    assert(head@ =~= b@.take(len as int));
    assert((*buf)@ =~= b@.skip(len as int));
    Ok(head)
}

/// Takes a length-prefixed text off the front of `buf`.
fn read_string(buf: &mut &[u8]) -> (r: Result<String, ErrorPayloadCodecError>)
    ensures
        match r {
            Ok(x) => parse_text((*old(buf))@) == Ok::<(Seq<char>, Seq<u8>), ErrorPayloadCodecError>(
                (x@, (*final(buf))@),
            ),
            Err(e) => {
                &&& parse_text((*old(buf))@) == Err::<
                    (Seq<char>, Seq<u8>),
                    ErrorPayloadCodecError,
                >(e)
                &&& e is Truncated ==> *final(buf) == *old(buf)
                &&& e is LengthOverflow ==> (*final(buf))@ == (*old(buf))@.skip(4)
                &&& e is InvalidUtf8 ==> (*final(buf))@ == parse_prefixed((*old(buf))@)->Ok_0.1
            },
        },
{
    match read_length_prefixed(buf) {
        Ok(b) => match string_from_utf8(copy_bytes(b)) {
            Ok(s) => Ok(s),
            Err(_) => Err(ErrorPayloadCodecError::InvalidUtf8),
        },
        Err(e) => Err(e),
    }
}

/// Takes length-prefixed bytes off the front of `buf`, as a copy.
fn read_bytes(buf: &mut &[u8]) -> (r: Result<Vec<u8>, ErrorPayloadCodecError>)
    ensures
        match r {
            Ok(x) => parse_prefixed((*old(buf))@) == Ok::<
                (Seq<u8>, Seq<u8>),
                ErrorPayloadCodecError,
            >((x@, (*final(buf))@)),
            Err(e) => {
                &&& parse_prefixed((*old(buf))@) == Err::<
                    (Seq<u8>, Seq<u8>),
                    ErrorPayloadCodecError,
                >(e)
                &&& e is Truncated ==> *final(buf) == *old(buf)
                &&& !(e is Truncated) ==> (*final(buf))@ == (*old(buf))@.skip(4)
            },
        },
{
    match read_length_prefixed(buf) {
        Ok(b) => Ok(copy_bytes(b)),
        Err(e) => Err(e),
    }
}

proof fn lemma_parse_prefixed(b: Seq<u8>, rest: Seq<u8>)
    requires
        b.len() <= u32::MAX,
    ensures
        parse_prefixed(prefixed(b) + rest) == Ok::<(Seq<u8>, Seq<u8>), ErrorPayloadCodecError>(
            (b, rest),
        ),
{
    let n = b.len() as u32;
    let s = prefixed(b) + rest;
    assert(s =~= bytes::u32_le(n) + (b + rest));
    bytes::lemma_u32_round_trip(n, b + rest);
    assert(s.skip(4) =~= b + rest);
    assert((b + rest).take(n as int) =~= b);
    assert((b + rest).skip(n as int) =~= rest);
}

proof fn lemma_parse_text(t: Seq<char>, rest: Seq<u8>)
    requires
        utf8::encode_utf8(t).len() <= u32::MAX,
    ensures
        parse_text(prefixed(utf8::encode_utf8(t)) + rest) == Ok::<
            (Seq<char>, Seq<u8>),
            ErrorPayloadCodecError,
        >((t, rest)),
{
    broadcast use utf8::encode_utf8_decode_utf8;
    broadcast use utf8::encode_utf8_valid_utf8;

    lemma_parse_prefixed(utf8::encode_utf8(t), rest);
}

proof fn lemma_parse_optional_text(t: Option<Seq<char>>, rest: Seq<u8>)
    requires
        t matches Some(x) ==> utf8::encode_utf8(x).len() <= u32::MAX,
    ensures
        parse_optional_text(optional_wire(optional_utf8(t)) + rest) == Ok::<
            (Option<Seq<char>>, Seq<u8>),
            ErrorPayloadCodecError,
        >((t, rest)),
{
    let w = optional_wire(optional_utf8(t)) + rest;
    match t {
        None => {
            assert(w.skip(1) =~= rest);
        },
        Some(x) => {
            let b = prefixed(utf8::encode_utf8(x));
            assert(w =~= seq![1u8] + (b + rest));
            assert(w.skip(1) =~= b + rest);
            lemma_parse_text(x, rest);
        },
    }
}

proof fn lemma_parse_optional_bytes(b: Option<Seq<u8>>, rest: Seq<u8>)
    requires
        b matches Some(x) ==> x.len() <= u32::MAX,
    ensures
        parse_optional_bytes(optional_wire(b) + rest) == Ok::<
            (Option<Seq<u8>>, Seq<u8>),
            ErrorPayloadCodecError,
        >((b, rest)),
{
    let w = optional_wire(b) + rest;
    match b {
        None => {
            assert(w.skip(1) =~= rest);
        },
        Some(x) => {
            assert(w =~= seq![1u8] + (prefixed(x) + rest));
            assert(w.skip(1) =~= prefixed(x) + rest);
            lemma_parse_prefixed(x, rest);
        },
    }
}

proof fn lemma_parse_u16(x: u16, rest: Seq<u8>)
    ensures
        parse_u16(bytes::u16_le(x) + rest) == Ok::<(u16, Seq<u8>), ErrorPayloadCodecError>(
            (x, rest),
        ),
{
    bytes::lemma_u16_round_trip(x, rest);
    assert((bytes::u16_le(x) + rest).skip(2) =~= rest);
}

/// Decoding the wire form of a payload gives back the payload, whatever follows it.
#[verifier::spinoff_prover]
#[verifier::rlimit(60)]
pub proof fn law_payload_round_trip(p: PayloadModel, rest: Seq<u8>)
    requires
        p.fits(),
    ensures
        parse_payload(p.wire() + rest) == Ok::<PayloadModel, ErrorPayloadCodecError>(p),
{
    let m = prefixed(utf8::encode_utf8(p.message));
    let tb = optional_wire(optional_utf8(p.traceback));
    let code = bytes::u16_le(p.raw_code);
    let pk = optional_wire(p.pickled);
    seqs::lemma_assoc5(m, tb, code, pk, rest);
    lemma_parse_text(p.message, tb + (code + (pk + rest)));
    lemma_parse_optional_text(p.traceback, code + (pk + rest));
    lemma_parse_u16(p.raw_code, pk + rest);
    lemma_parse_optional_bytes(p.pickled, rest);
}

/// Whether an error says that bytes are missing.
pub open spec fn says_short<T>(r: Result<T, ErrorPayloadCodecError>) -> bool {
    r matches Err(e) && (e is Truncated || e is LengthOverflow)
}

proof fn lemma_short_prefixed(b: Seq<u8>, k: int)
    requires
        b.len() <= u32::MAX,
        0 <= k < prefixed(b).len(),
    ensures
        says_short(parse_prefixed(prefixed(b).take(k))),
{
    let whole = prefixed(b);
    let s = whole.take(k);
    if k >= 4 {
        bytes::lemma_u32_round_trip(b.len() as u32, b);
        assert(s.take(4) =~= whole.take(4));
        bytes::lemma_u32_front(s, whole);
    }
}

proof fn lemma_short_optional(b: Option<Seq<u8>>, k: int)
    requires
        b matches Some(x) ==> x.len() <= u32::MAX,
        0 <= k < optional_wire(b).len(),
    ensures
        says_short(parse_optional_text(optional_wire(b).take(k))),
        says_short(parse_optional_bytes(optional_wire(b).take(k))),
{
    let s = optional_wire(b).take(k);
    if k >= 1 {
        let x = b->0;
        assert(s.skip(1) =~= prefixed(x).take(k - 1));
        lemma_short_prefixed(x, k - 1);
    }
}

/// A part of a concatenation that goes beyond its front.
proof fn lemma_take_beyond(a: Seq<u8>, b: Seq<u8>, k: int)
    requires
        a.len() <= k <= a.len() + b.len(),
    ensures
        (a + b).take(k) == a + b.take(k - a.len()),
{
    assert((a + b).take(k) =~= a + b.take(k - a.len()));
}

/// A part of a concatenation that does not go beyond its front.
proof fn lemma_take_within(a: Seq<u8>, b: Seq<u8>, k: int)
    requires
        0 <= k <= a.len(),
    ensures
        (a + b).take(k) == a.take(k),
{
    assert((a + b).take(k) =~= a.take(k));
}

/// No proper prefix of an encoded payload decodes: each is reported as too short.
#[verifier::spinoff_prover]
#[verifier::rlimit(60)]
pub proof fn law_prefix_does_not_decode(p: PayloadModel, k: int)
    requires
        p.fits(),
        0 <= k < p.wire().len(),
    ensures
        says_short(parse_payload(p.wire().take(k))),
{
    let m = prefixed(utf8::encode_utf8(p.message));
    let tb = optional_wire(optional_utf8(p.traceback));
    let code = bytes::u16_le(p.raw_code);
    let pk = optional_wire(p.pickled);
    let none = Seq::<u8>::empty();
    assert(p.wire() + none =~= p.wire());
    assert(pk + none =~= pk);
    seqs::lemma_assoc5(m, tb, code, pk, none);
    let rest = tb + (code + pk);
    assert(p.wire() == m + rest);
    if k < m.len() {
        lemma_take_within(m, rest, k);
        lemma_short_prefixed(utf8::encode_utf8(p.message), k);
    } else {
        let k1 = k - m.len();
        lemma_take_beyond(m, rest, k);
        lemma_parse_text(p.message, rest.take(k1));
        if k1 < tb.len() {
            lemma_take_within(tb, code + pk, k1);
            lemma_short_optional(optional_utf8(p.traceback), k1);
        } else {
            let k2 = k1 - tb.len();
            lemma_take_beyond(tb, code + pk, k1);
            lemma_parse_optional_text(p.traceback, (code + pk).take(k2));
            if k2 < code.len() {
                lemma_take_within(code, pk, k2);
            } else {
                let k3 = k2 - code.len();
                lemma_take_beyond(code, pk, k2);
                lemma_parse_u16(p.raw_code, pk.take(k3));
                lemma_short_optional(p.pickled, k3);
            }
        }
    }
}

proof fn lemma_prefixed_back(s: Seq<u8>)
    requires
        parse_prefixed(s) is Ok,
    ensures
        ({
            let (b, t) = parse_prefixed(s)->Ok_0;
            s == prefixed(b) + t && b.len() <= u32::MAX
        }),
{
    let (b, t) = parse_prefixed(s)->Ok_0;
    let front = s.take(4);
    assert(front.take(4) =~= s.take(4));
    bytes::lemma_u32_front(s, front);
    bytes::lemma_u32_bytes_round_trip(front);
    assert(prefixed(b) + t =~= s);
}

proof fn lemma_text_back(s: Seq<u8>)
    requires
        parse_text(s) is Ok,
    ensures
        ({
            let (x, t) = parse_text(s)->Ok_0;
            s == prefixed(utf8::encode_utf8(x)) + t && utf8::encode_utf8(x).len() <= u32::MAX
        }),
{
    broadcast use utf8::decode_utf8_encode_utf8;

    lemma_prefixed_back(s);
}

proof fn lemma_optional_text_back(s: Seq<u8>)
    requires
        parse_optional_text(s) is Ok,
    ensures
        ({
            let (x, t) = parse_optional_text(s)->Ok_0;
            &&& s == optional_wire(optional_utf8(x)) + t
            &&& x matches Some(y) ==> utf8::encode_utf8(y).len() <= u32::MAX
        }),
{
    let (x, t) = parse_optional_text(s)->Ok_0;
    if s[0] == 1 {
        lemma_text_back(s.skip(1));
        let y = prefixed(utf8::encode_utf8(x->0));
        assert(s =~= seq![1u8] + (y + t));
        assert(seq![1u8] + (y + t) =~= seq![1u8] + y + t);
    } else {
        assert(s =~= seq![0u8] + t);
    }
}

proof fn lemma_optional_bytes_back(s: Seq<u8>)
    requires
        parse_optional_bytes(s) is Ok,
    ensures
        ({
            let (x, t) = parse_optional_bytes(s)->Ok_0;
            &&& s == optional_wire(x) + t
            &&& x matches Some(y) ==> y.len() <= u32::MAX
        }),
{
    let (x, t) = parse_optional_bytes(s)->Ok_0;
    if s[0] == 1 {
        lemma_prefixed_back(s.skip(1));
    }
    assert(s =~= optional_wire(x) + t);
}

/// Bytes that decode are those that the payload encodes to, whatever follows them: nothing is
/// taken for a payload that is none.
pub proof fn law_decoded_payload_encodes_back(s: Seq<u8>, p: PayloadModel)
    requires
        parse_payload(s) == Ok::<PayloadModel, ErrorPayloadCodecError>(p),
    ensures
        p.fits(),
        p.wire().len() <= s.len(),
        s.take(p.wire().len() as int) == p.wire(),
{
    lemma_text_back(s);
    let t = parse_text(s)->Ok_0.1;
    lemma_optional_text_back(t);
    let u = parse_optional_text(t)->Ok_0.1;
    let v = parse_u16(u)->Ok_0.1;
    bytes::law_u16_read_and_write(u);
    assert(u =~= bytes::u16_le(p.raw_code) + v);
    lemma_optional_bytes_back(v);
    let w = parse_optional_bytes(v)->Ok_0.1;
    let m = prefixed(utf8::encode_utf8(p.message));
    let tb = optional_wire(optional_utf8(p.traceback));
    let code = bytes::u16_le(p.raw_code);
    let pk = optional_wire(p.pickled);
    seqs::lemma_assoc5(m, tb, code, pk, w);
    assert(s == p.wire() + w);
    assert(s.take(p.wire().len() as int) =~= p.wire());
}

/// Where the parts of an encoded payload stand: the message behind its length, a byte that says
/// whether there is a traceback, the traceback behind its length, the code in two bytes, a byte
/// that says whether there is an exception, and the exception behind its length.
pub proof fn law_payload_layout(p: PayloadModel)
    requires
        p.fits(),
    ensures
        ({
            let w = p.wire();
            let m = utf8::encode_utf8(p.message);
            let a = 4 + m.len() as int;
            let b = match p.traceback {
                None => a + 1,
                Some(t) => a + 5 + utf8::encode_utf8(t).len(),
            };
            &&& bytes::le_u32(w) == m.len()
            &&& w.subrange(4, a) == m
            &&& w[a] == (if p.traceback is Some {
                1u8
            } else {
                0u8
            })
            &&& p.traceback matches Some(t) ==> w.subrange(a + 5, b) == utf8::encode_utf8(t)
            &&& w[b] + 256 * w[b + 1] == p.raw_code
            &&& w[b + 2] == (if p.pickled is Some {
                1u8
            } else {
                0u8
            })
            &&& p.pickled is None ==> w.len() == b + 3
            &&& p.pickled matches Some(x) ==> w.len() == b + 7 + x.len() && w.skip(b + 7) == x
        }),
{
    let w = p.wire();
    let m = utf8::encode_utf8(p.message);
    let head = prefixed(m);
    let tb = optional_utf8(p.traceback);
    let code = bytes::u16_le(p.raw_code);
    let a = head.len();
    let b = a + optional_wire(tb).len();
    seqs::lemma_stands_four(head, optional_wire(tb), code, optional_wire(p.pickled));
    lemma_prefixed_layout(w, 0, m);
    lemma_optional_layout(w, a, tb);
    lemma_optional_layout(w, b + 2, p.pickled);
    bytes::law_u16_bytes(p.raw_code);
    seqs::lemma_stands_element(w, b, code, 0);
    seqs::lemma_stands_element(w, b, code, 1);
    assert(w.skip(0) =~= w);
    if let Some(x) = p.pickled {
        assert(w.skip((b + 7) as int) =~= w.subrange((b + 7) as int, w.len() as int));
    }
}

proof fn lemma_prefixed_layout(w: Seq<u8>, pos: nat, b: Seq<u8>)
    requires
        seqs::stands_at(w, pos, prefixed(b)),
        b.len() <= u32::MAX,
    ensures
        bytes::le_u32(w.skip(pos as int)) == b.len(),
        seqs::stands_at(w, pos + 4, b),
        prefixed(b).len() == 4 + b.len(),
{
    let n = bytes::u32_le(b.len() as u32);
    seqs::lemma_stands_split(w, pos, n, b);
    seqs::lemma_stands_skip(w, pos, n);
    bytes::lemma_u32_round_trip(b.len() as u32, w.skip((pos + 4) as int));
}

proof fn lemma_optional_layout(w: Seq<u8>, pos: nat, b: Option<Seq<u8>>)
    requires
        seqs::stands_at(w, pos, optional_wire(b)),
        b matches Some(x) ==> x.len() <= u32::MAX,
    ensures
        w[pos as int] == (if b is Some {
            1u8
        } else {
            0u8
        }),
        b matches Some(x) ==> seqs::stands_at(w, pos + 5, x) && optional_wire(b).len() == 5
            + x.len(),
        b is None ==> optional_wire(b).len() == 1,
{
    seqs::lemma_stands_element(w, pos, optional_wire(b), 0);
    if let Some(x) = b {
        seqs::lemma_stands_split(w, pos, seq![1u8], prefixed(x));
        lemma_prefixed_layout(w, pos + 1, x);
    }
}

/// What is told of bytes that cannot be read: how many are missing, the length that was claimed
/// and what is left for it, or the byte that is no flag.
pub proof fn law_faults_are_told(s: Seq<u8>)
    ensures
        s.len() < 1 ==> parse_flag(s) == Err::<(bool, Seq<u8>), ErrorPayloadCodecError>(
            ErrorPayloadCodecError::Truncated { needed: (1 - s.len()) as usize },
        ),
        s.len() < 2 ==> parse_u16(s) == Err::<(u16, Seq<u8>), ErrorPayloadCodecError>(
            ErrorPayloadCodecError::Truncated { needed: (2 - s.len()) as usize },
        ),
        s.len() < 4 ==> parse_prefixed(s) == Err::<(Seq<u8>, Seq<u8>), ErrorPayloadCodecError>(
            ErrorPayloadCodecError::Truncated { needed: (4 - s.len()) as usize },
        ),
        s.len() >= 1 && s[0] > 1 ==> parse_flag(s) == Err::<(bool, Seq<u8>), ErrorPayloadCodecError>(
            ErrorPayloadCodecError::InvalidFlag(s[0]),
        ),
        s.len() >= 1 && s[0] <= 1 ==> parse_flag(s) == Ok::<(bool, Seq<u8>), ErrorPayloadCodecError>(
            (s[0] == 1, s.skip(1)),
        ),
        s.len() >= 4 && bytes::le_u32(s) > s.len() - 4 ==> (parse_prefixed(s) matches Err(
            ErrorPayloadCodecError::LengthOverflow { claimed, remaining },
        ) && claimed == bytes::le_u32(s) as u32 as u64 && remaining == (s.len() - 4) as usize),
        s.len() >= 4 && bytes::le_u32(s) <= s.len() - 4 ==> parse_prefixed(s) is Ok,
{
    if s.len() >= 4 {
        let front = s.take(4);
        assert(front.take(4) =~= s.take(4));
        bytes::lemma_u32_front(s, front);
        bytes::lemma_u32_bytes_round_trip(front);
    }
}

/// An error is modelled with all that it holds.
pub proof fn law_payloads_are_modelled(p: ErrorPayload)
    ensures
        p@.message == p.message@,
        p@.raw_code == p.raw_code,
        p@.traceback is Some <==> p.traceback is Some,
        p.traceback matches Some(t) ==> p@.traceback == Some(t@),
        p@.pickled is Some <==> p.pickled_python_exception is Some,
        p.pickled_python_exception matches Some(b) ==> p@.pickled == Some(b@),
{
}

} // verus!
