//! Little-endian integers and byte-sequence helpers.

use vstd::prelude::*;
use vstd::slice::{slice_subrange, slice_to_vec};

verus! {

/// The two little-endian bytes of `x`.
pub open spec fn u16_le(x: u16) -> Seq<u8> {
    seq![(x % 256) as u8, (x / 256) as u8]
}

/// The four little-endian bytes of `x`.
pub open spec fn u32_le(x: u32) -> Seq<u8> {
    seq![
        (x % 256) as u8,
        ((x / 0x100) % 256) as u8,
        ((x / 0x1_0000) % 256) as u8,
        (x / 0x100_0000) as u8,
    ]
}

/// The eight little-endian bytes of `x`.
pub open spec fn u64_le(x: u64) -> Seq<u8> {
    u32_le((x % 0x1_0000_0000) as u32) + u32_le((x / 0x1_0000_0000) as u32)
}

/// The value of the first two bytes of `s`, little-endian.
pub open spec fn le_u16(s: Seq<u8>) -> int {
    s[0] + 0x100 * s[1]
}

/// The value of the first four bytes of `s`, little-endian.
pub open spec fn le_u32(s: Seq<u8>) -> int {
    s[0] + 0x100 * s[1] + 0x1_0000 * s[2] + 0x100_0000 * s[3]
}

/// The value of the first eight bytes of `s`, little-endian.
pub open spec fn le_u64(s: Seq<u8>) -> int {
    le_u32(s) + 0x1_0000_0000 * le_u32(s.skip(4))
}

/// Writing a `u16` and reading it back gives the same number, whatever follows.
pub proof fn lemma_u16_round_trip(x: u16, rest: Seq<u8>)
    ensures
        le_u16(u16_le(x) + rest) == x,
{
}

/// Writing a `u32` and reading it back gives the same number, whatever follows.
pub proof fn lemma_u32_round_trip(x: u32, rest: Seq<u8>)
    ensures
        le_u32(u32_le(x) + rest) == x,
{
    let s = u32_le(x) + rest;
    assert(s[0] == x % 256);
    assert(s[1] == (x / 0x100) % 256);
    assert(s[2] == (x / 0x1_0000) % 256);
    assert(s[3] == x / 0x100_0000);
}

/// Writing a `u64` and reading it back gives the same number, whatever follows.
pub proof fn lemma_u64_round_trip(x: u64, rest: Seq<u8>)
    ensures
        le_u64(u64_le(x) + rest) == x,
{
    let lo = (x % 0x1_0000_0000) as u32;
    let hi = (x / 0x1_0000_0000) as u32;
    let s = u64_le(x) + rest;
    assert(s =~= u32_le(lo) + (u32_le(hi) + rest));
    lemma_u32_round_trip(lo, u32_le(hi) + rest);
    assert(s.skip(4) =~= u32_le(hi) + rest);
    lemma_u32_round_trip(hi, rest);
}

/// Reading four bytes and writing the value back gives the same bytes.
pub proof fn lemma_u32_bytes_round_trip(s: Seq<u8>)
    requires
        s.len() == 4,
    ensures
        0 <= le_u32(s) <= u32::MAX,
        u32_le(le_u32(s) as u32) == s,
{
    let (a, b, c, d) = (s[0], s[1], s[2], s[3]);
    let x = le_u32(s) as u32;
    assert(x == a + 0x100 * b + 0x1_0000 * c + 0x100_0000 * d);
    assert(x % 256 == a && (x / 0x100) % 256 == b && (x / 0x1_0000) % 256 == c && x / 0x100_0000 == d)
        by (bit_vector)
        requires
            x == a + 0x100 * b + 0x1_0000 * c + 0x100_0000 * d,
    ;
    assert(u32_le(x) =~= s);
}

/// The number at the front depends on the first four bytes alone.
pub proof fn lemma_u32_front(a: Seq<u8>, b: Seq<u8>)
    requires
        a.len() >= 4,
        b.len() >= 4,
        a.take(4) == b.take(4),
    ensures
        le_u32(a) == le_u32(b),
{
    assert forall|i: int| 0 <= i < 4 implies a[i] == b[i] by {
        assert(a.take(4)[i] == a[i]);
        assert(b.take(4)[i] == b[i]);
    }
}

/// The number at the front depends on the first eight bytes alone.
pub proof fn lemma_u64_front(a: Seq<u8>, b: Seq<u8>)
    requires
        a.len() >= 8,
        b.len() >= 8,
        a.take(8) == b.take(8),
    ensures
        le_u64(a) == le_u64(b),
{
    assert forall|i: int| 0 <= i < 8 implies a[i] == b[i] by {
        assert(a.take(8)[i] == a[i]);
        assert(b.take(8)[i] == b[i]);
    }
    assert(a.take(4) =~= b.take(4));
    assert(a.skip(4).take(4) =~= b.skip(4).take(4));
    lemma_u32_front(a, b);
    lemma_u32_front(a.skip(4), b.skip(4));
}

/// Appends the two little-endian bytes of `x`.
pub fn push_u16_le(out: &mut Vec<u8>, x: u16)
    ensures
        final(out)@ == old(out)@ + u16_le(x),
{
    out.push((x % 256) as u8);
    out.push((x / 256) as u8);
    assert(out@ =~= old(out)@ + u16_le(x));
}

/// Appends the four little-endian bytes of `x`.
pub fn push_u32_le(out: &mut Vec<u8>, x: u32)
    ensures
        final(out)@ == old(out)@ + u32_le(x),
{
    out.push((x % 256) as u8);
    out.push(((x / 0x100) % 256) as u8);
    out.push(((x / 0x1_0000) % 256) as u8);
    out.push((x / 0x100_0000) as u8);
    assert(out@ =~= old(out)@ + u32_le(x));
}

/// Appends the eight little-endian bytes of `x`.
pub fn push_u64_le(out: &mut Vec<u8>, x: u64)
    ensures
        final(out)@ == old(out)@ + u64_le(x),
{
    push_u32_le(out, (x % 0x1_0000_0000) as u32);
    push_u32_le(out, (x / 0x1_0000_0000) as u32);
    assert(out@ =~= old(out)@ + u64_le(x));
}

/// Reads the `u16` at `pos`.
pub fn get_u16_le(bytes: &[u8], pos: usize) -> (x: u16)
    requires
        pos + 2 <= bytes@.len(),
    ensures
        x == le_u16(bytes@.skip(pos as int)),
{
    bytes[pos] as u16 + 0x100 * (bytes[pos + 1] as u16)
}

/// Reads the `u32` at `pos`.
pub fn get_u32_le(bytes: &[u8], pos: usize) -> (x: u32)
    requires
        pos + 4 <= bytes@.len(),
    ensures
        x == le_u32(bytes@.skip(pos as int)),
{
    bytes[pos] as u32 + 0x100 * (bytes[pos + 1] as u32) + 0x1_0000 * (bytes[pos + 2] as u32)
        + 0x100_0000 * (bytes[pos + 3] as u32)
}

/// Reads the `u64` at `pos`.
pub fn get_u64_le(bytes: &[u8], pos: usize) -> (x: u64)
    requires
        pos + 8 <= bytes@.len(),
    ensures
        x == le_u64(bytes@.skip(pos as int)),
{
    assert(bytes@.len() == bytes.len());
    let lo: u32 = get_u32_le(bytes, pos);
    let hi: u32 = get_u32_le(bytes, pos + 4);
    assert(bytes@.skip(pos as int).skip(4) =~= bytes@.skip(pos + 4));
    lo as u64 + 0x1_0000_0000 * (hi as u64)
}

/// Appends a slice of bytes.
pub fn push_bytes(out: &mut Vec<u8>, bytes: &[u8])
    ensures
        final(out)@ == old(out)@ + bytes@,
{
    out.extend_from_slice(bytes);
    assert(out@ =~= old(out)@ + bytes@);
}

/// A copy of `bytes[from..to]`.
pub fn copy_range(bytes: &[u8], from: usize, to: usize) -> (r: Vec<u8>)
    requires
        from <= to <= bytes@.len(),
    ensures
        r@ == bytes@.subrange(from as int, to as int),
{
    slice_to_vec(slice_subrange(bytes, from, to))
}

/// A copy of `bytes`.
pub fn copy_bytes(bytes: &[u8]) -> (r: Vec<u8>)
    ensures
        r@ == bytes@,
{
    slice_to_vec(bytes)
}

/// The array of the bytes of a slice of exactly `N` bytes.
pub fn to_array<const N: usize>(bytes: &[u8]) -> (r: [u8; N])
    requires
        bytes@.len() == N,
    ensures
        r@ == bytes@,
{
    let mut r = [0u8; N];
    let mut i: usize = 0;
    while i < N
        invariant
            i <= N,
            bytes@.len() == N,
            forall|j: int| 0 <= j < i ==> r@[j] == bytes@[j],
        decreases N - i,
    {
        r[i] = bytes[i];
        i += 1;
    }
    assert(r@ =~= bytes@);
    r
}

/// Whether two byte arrays are equal.
pub fn arrays_equal<const N: usize>(a: &[u8; N], b: &[u8; N]) -> (r: bool)
    ensures
        r == (*a == *b),
        r == (a@ == b@),
{
    let mut i: usize = 0;
    while i < N
        invariant
            i <= N,
            forall|j: int| 0 <= j < i ==> a@[j] == b@[j],
        decreases N - i,
    {
        if a[i] != b[i] {
            assert(a@[i as int] != b@[i as int]);
            return false;
        }
        i += 1;
    }
    assert(*a =~= *b);
    true
}

/// Whether two byte slices have the same contents.
pub fn slices_equal(a: &[u8], b: &[u8]) -> (r: bool)
    ensures
        r == (a@ == b@),
{
    if a.len() != b.len() {
        return false;
    }
    let mut i: usize = 0;
    while i < a.len()
        invariant
            i <= a@.len(),
            a@.len() == b@.len(),
            forall|j: int| 0 <= j < i ==> a@[j] == b@[j],
        decreases a@.len() - i,
    {
        if a[i] != b[i] {
            assert(a@[i as int] != b@[i as int]);
            return false;
        }
        i += 1;
    }
    assert(a@ =~= b@);
    true
}

/// The bytes of a `u16`, each weighed by 256 to the power of its position, add up to it.
pub proof fn law_u16_bytes(x: u16)
    ensures
        u16_le(x).len() == 2,
        u16_le(x)[0] + 256 * u16_le(x)[1] == x,
{
}

/// The bytes of a `u32`, each weighed by 256 to the power of its position, add up to it.
pub proof fn law_u32_bytes(x: u32)
    ensures
        u32_le(x).len() == 4,
        u32_le(x)[0] + 256 * (u32_le(x)[1] + 256 * (u32_le(x)[2] + 256 * u32_le(x)[3])) == x,
{
    lemma_u32_round_trip(x, Seq::empty());
    assert(u32_le(x) + Seq::<u8>::empty() =~= u32_le(x));
}

/// The bytes of a `u64` are those of its low half and then those of its high half.
pub proof fn law_u64_bytes(x: u64)
    ensures
        u64_le(x).len() == 8,
        u64_le(x).take(4) == u32_le((x % 0x1_0000_0000) as u32),
        u64_le(x).skip(4) == u32_le((x / 0x1_0000_0000) as u32),
{
    assert(u64_le(x).take(4) =~= u32_le((x % 0x1_0000_0000) as u32));
    assert(u64_le(x).skip(4) =~= u32_le((x / 0x1_0000_0000) as u32));
}

/// A number is read with its low byte first.
pub proof fn law_le_u16_value(s: Seq<u8>)
    ensures
        le_u16(s) == s[0] + 256 * s[1],
{
}

/// Two bytes are those of the number that they are read as.
pub proof fn law_u16_read_and_write(s: Seq<u8>)
    requires
        s.len() >= 2,
    ensures
        0 <= le_u16(s) <= u16::MAX,
        u16_le(le_u16(s) as u16) == s.take(2),
{
    let x = le_u16(s) as u16;
    assert(u16_le(x) =~= s.take(2));
}

proof fn lemma_halves(lo: int, hi: int)
    requires
        0 <= lo <= u32::MAX,
        0 <= hi <= u32::MAX,
    ensures
        0 <= lo + 0x1_0000_0000 * hi <= u64::MAX,
        (lo + 0x1_0000_0000 * hi) % 0x1_0000_0000 == lo,
        (lo + 0x1_0000_0000 * hi) / 0x1_0000_0000 == hi,
{
}

/// Reading eight bytes and writing the value back gives the same bytes.
pub proof fn lemma_u64_bytes_round_trip(s: Seq<u8>)
    requires
        s.len() == 8,
    ensures
        0 <= le_u64(s) <= u64::MAX,
        u64_le(le_u64(s) as u64) == s,
{
    let lo = s.take(4);
    let hi = s.skip(4);
    let x = le_u64(s);
    lemma_u32_bytes_round_trip(lo);
    lemma_u32_bytes_round_trip(hi);
    assert(lo.take(4) =~= s.take(4));
    lemma_u32_front(s, lo);
    lemma_halves(le_u32(lo), le_u32(hi));
    law_u64_bytes(x as u64);
    assert(u64_le(x as u64).take(4) == lo);
    assert(u64_le(x as u64).skip(4) == hi);
    assert(u64_le(x as u64) =~= u64_le(x as u64).take(4) + u64_le(x as u64).skip(4));
    assert(lo + hi =~= s);
}

} // verus!
