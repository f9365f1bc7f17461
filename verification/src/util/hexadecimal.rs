//! Hexadecimal text, through the `hex` crate.

use crate::util::text;
use crate::util::text::{concat3, push_decimal, quoted_char};
use vstd::prelude::*;
use vstd::utf8;

verus! {

/// The lower-case character of a hexadecimal digit.
pub open spec fn hex_char(d: int) -> char {
    if d < 10 {
        (48 + d) as char
    } else {
        (87 + d) as char
    }
}

/// Two lower-case hexadecimal characters per byte, high digit first.
pub open spec fn hex_text(bytes: Seq<u8>) -> Seq<char> {
    Seq::new(
        2 * bytes.len(),
        |i: int| hex_char(if i % 2 == 0 { bytes[i / 2] / 16 } else { bytes[i / 2] % 16 } as int),
    )
}

/// The value of an ASCII hexadecimal digit of either case.
pub open spec fn hex_value(c: u8) -> Option<int> {
    if 48 <= c <= 57 {
        Some(c - 48)
    } else if 65 <= c <= 70 {
        Some(c - 55)
    } else if 97 <= c <= 102 {
        Some(c - 87)
    } else {
        None
    }
}

/// Whether every byte of `s` is a hexadecimal digit.
pub open spec fn all_hex(s: Seq<u8>) -> bool {
    forall|i: int| 0 <= i < s.len() ==> (#[trigger] hex_value(s[i])) is Some
}

/// The bytes written by pairs of hexadecimal digits.
pub open spec fn unhex(s: Seq<u8>) -> Seq<u8> {
    Seq::new(
        s.len() / 2,
        |j: int| (16 * hex_value(s[2 * j])->0 + hex_value(s[2 * j + 1])->0) as u8,
    )
}

/// Why a hexadecimal text was rejected.
#[derive(Debug, Clone, Copy, PartialEq, Eq, Structural)]
pub enum HexError {
    /// A byte that is no hexadecimal digit, at a byte position.
    InvalidHexCharacter { c: char, index: usize },
    /// An odd number of bytes.
    OddLength,
    /// A length that does not fit a fixed-size target.
    InvalidStringLength,
}

impl HexError {
    /// The error as a text.
    pub open spec fn spec_text(&self) -> Seq<char> {
        match *self {
            HexError::InvalidHexCharacter { c, index } => "Invalid character "@
                + text::quoted_char_text(c) + " at position "@ + text::decimal_text(index as nat),
            HexError::OddLength => "Odd number of digits"@,
            HexError::InvalidStringLength => "Invalid string length"@,
        }
    }

    /// The error as a text.
    pub fn text(&self) -> (r: String)
        ensures
            r@ == self.spec_text(),
    {
        match *self {
            HexError::InvalidHexCharacter { c, index } => {
                let shown = quoted_char(c);
                let mut r = concat3("Invalid character ", shown.as_str(), " at position ");
                push_decimal(&mut r, index as u64);
                r
            },
            HexError::OddLength => "Odd number of digits".to_owned(),
            HexError::InvalidStringLength => "Invalid string length".to_owned(),
        }
    }
}

/// `hex::encode`: lower-case hexadecimal text, two characters per byte.
#[verifier::external_body]
pub(crate) fn hex_encode(bytes: &[u8]) -> (r: String)
    ensures
        r@ == hex_text(bytes@),
{
    hex::encode(bytes)
}

/// `hex::decode`: the bytes written by the pairs of digits of `text`. An odd number
/// of bytes of text is reported first, then the first byte that is no digit.
#[verifier::external_body]
pub(crate) fn hex_decode(text: &str) -> (r: Result<Vec<u8>, HexError>)
    ensures
        match r {
            Ok(v) => utf8::encode_utf8(text@).len() % 2 == 0 && all_hex(utf8::encode_utf8(text@))
                && v@ == unhex(utf8::encode_utf8(text@)),
            Err(HexError::OddLength) => utf8::encode_utf8(text@).len() % 2 == 1,
            Err(HexError::InvalidHexCharacter { c, index }) => {
                &&& utf8::encode_utf8(text@).len() % 2 == 0
                &&& index < utf8::encode_utf8(text@).len()
                &&& hex_value(utf8::encode_utf8(text@)[index as int]) is None
                &&& c == utf8::encode_utf8(text@)[index as int] as char
                &&& all_hex(utf8::encode_utf8(text@).take(index as int))
            },
            Err(HexError::InvalidStringLength) => false,
        },
{
    hex::decode(text).map_err(|e| match e {
        hex::FromHexError::InvalidHexCharacter { c, index } => {
            HexError::InvalidHexCharacter { c, index }
        },
        hex::FromHexError::OddLength => HexError::OddLength,
        hex::FromHexError::InvalidStringLength => HexError::InvalidStringLength,
    })
}

/// Hexadecimal text is ASCII: its UTF-8 bytes are its characters.
pub proof fn lemma_hex_text_bytes(bytes: Seq<u8>)
    ensures
        utf8::encode_utf8(hex_text(bytes)).len() == 2 * bytes.len(),
        forall|i: int|
            0 <= i < 2 * bytes.len() ==> #[trigger] utf8::encode_utf8(hex_text(bytes))[i]
                == hex_text(bytes)[i] as u8,
{
    let t = hex_text(bytes);
    assert forall|i: int| 0 <= i < t.len() implies 0 <= #[trigger] t[i] as nat && t[i] as nat <= 127 by {
        assert(0 <= bytes[i / 2] / 16 < 16);
    }
    assert(utf8::is_ascii_chars(t));
    utf8::is_ascii_chars_encode_utf8(t);
}

/// Decoding the hexadecimal text of some bytes gives those bytes.
pub proof fn lemma_hex_round_trip(bytes: Seq<u8>)
    ensures
        all_hex(utf8::encode_utf8(hex_text(bytes))),
        unhex(utf8::encode_utf8(hex_text(bytes))) == bytes,
{
    lemma_hex_text_bytes(bytes);
    let s = utf8::encode_utf8(hex_text(bytes));
    assert forall|i: int| 0 <= i < s.len() implies (#[trigger] hex_value(s[i])) == Some(
        (if i % 2 == 0 { bytes[i / 2] / 16 } else { bytes[i / 2] % 16 }) as int,
    ) by {
        let b = bytes[i / 2];
        assert(b / 16 < 16 && b % 16 < 16);
        assert(s[i] == hex_text(bytes)[i] as u8);
    }
    assert forall|j: int| 0 <= j < bytes.len() implies #[trigger] unhex(s)[j] == bytes[j] by {
        assert(hex_value(s[2 * j]) == Some((bytes[j] / 16) as int));
        assert(hex_value(s[2 * j + 1]) == Some((bytes[j] % 16) as int));
    }
    assert(unhex(s) =~= bytes);
}

/// Hexadecimal text has two characters for every byte, digits and letters from `a` to `f`.
pub proof fn law_hex_text_is_lower_case(bytes: Seq<u8>, i: int)
    requires
        0 <= i < hex_text(bytes).len(),
    ensures
        hex_text(bytes).len() == 2 * bytes.len(),
        '0' <= hex_text(bytes)[i] <= '9' || 'a' <= hex_text(bytes)[i] <= 'f',
{
    assert(0 <= bytes[i / 2] / 16 < 16);
}

/// A digit counts the same in either case.
pub proof fn law_hex_values(c: u8)
    ensures
        48 <= c <= 57 ==> hex_value(c) == Some(c - 48),
        65 <= c <= 70 ==> hex_value(c) == Some(c - 65 + 10) && hex_value((c + 32) as u8) == hex_value(
            c,
        ),
        hex_value(c) is Some <==> 48 <= c <= 57 || 65 <= c <= 70 || 97 <= c <= 102,
        hex_value(c) matches Some(v) ==> 0 <= v < 16,
{
}

} // verus!
