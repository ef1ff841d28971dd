//! Fixed-width integers on the wire: little-endian and big-endian byte
//! layouts, their decoders, and the lemmas that tie the two together.

use vstd::prelude::*;

verus! {

/// The little-endian encoding of a `u32`.
pub open spec fn le_bytes_u32(x: u32) -> Seq<u8> {
    seq![x as u8, (x >> 8u32) as u8, (x >> 16u32) as u8, (x >> 24u32) as u8]
}

/// The little-endian encoding of a `u64`.
pub open spec fn le_bytes_u64(x: u64) -> Seq<u8> {
    seq![
        x as u8,
        (x >> 8u64) as u8,
        (x >> 16u64) as u8,
        (x >> 24u64) as u8,
        (x >> 32u64) as u8,
        (x >> 40u64) as u8,
        (x >> 48u64) as u8,
        (x >> 56u64) as u8,
    ]
}

/// The `u32` whose little-endian encoding is `b0 b1 b2 b3`.
pub open spec fn u32_from_le(b0: u8, b1: u8, b2: u8, b3: u8) -> u32 {
    (b0 as u32) | ((b1 as u32) << 8u32) | ((b2 as u32) << 16u32) | ((b3 as u32) << 24u32)
}

/// The `u16` whose big-endian (network order) encoding is `b0 b1`.
pub open spec fn u16_from_be(b0: u8, b1: u8) -> u16 {
    ((b0 as u16) << 8u16) | (b1 as u16)
}

/// The little-endian `u32` stored at `off` in `s`.
pub open spec fn le_u32_at(s: Seq<u8>, off: int) -> u32 {
    u32_from_le(s[off], s[off + 1], s[off + 2], s[off + 3])
}

/// The big-endian `u16` stored at `off` in `s`.
pub open spec fn be_u16_at(s: Seq<u8>, off: int) -> u16 {
    u16_from_be(s[off], s[off + 1])
}

/// Decoding a little-endian `u32` gives back the value that was encoded.
pub proof fn lemma_u32_le_roundtrip(x: u32)
    ensures
        u32_from_le(
            le_bytes_u32(x)[0],
            le_bytes_u32(x)[1],
            le_bytes_u32(x)[2],
            le_bytes_u32(x)[3],
        ) == x,
{
    assert((x as u8) as u32 | (((x >> 8u32) as u8) as u32) << 8u32 | (((x >> 16u32) as u8) as u32)
        << 16u32 | (((x >> 24u32) as u8) as u32) << 24u32 == x) by (bit_vector);
}

/// A big-endian pair of bytes is worth `256 * b0 + b1`.
pub proof fn lemma_u16_from_be_value(b0: u8, b1: u8)
    ensures
        u16_from_be(b0, b1) as int == b0 as int * 256 + b1 as int,
{
    assert(((b0 as u16) << 8u16) | (b1 as u16) == (b0 as u16) * 256u16 + (b1 as u16))
        by (bit_vector);
}

/// Four little-endian bytes are worth `b0 + 2^8 b1 + 2^16 b2 + 2^24 b3`.
pub proof fn lemma_u32_from_le_value(b0: u8, b1: u8, b2: u8, b3: u8)
    ensures
        u32_from_le(b0, b1, b2, b3) as int == b0 as int + b1 as int * 0x100 + b2 as int * 0x1_0000
            + b3 as int * 0x100_0000,
{
    assert((b0 as u32) | ((b1 as u32) << 8u32) | ((b2 as u32) << 16u32) | ((b3 as u32) << 24u32)
        == (b0 as u32) + (b1 as u32) * 0x100u32 + (b2 as u32) * 0x1_0000u32 + (b3 as u32)
        * 0x100_0000u32) by (bit_vector);
}

/// The little-endian bytes of a `u32` are its base-256 digits, least
/// significant first.
pub proof fn lemma_le_bytes_u32_digits(x: u32)
    ensures
        le_bytes_u32(x).len() == 4,
        le_bytes_u32(x)[0] as int == x as int % 0x100,
        le_bytes_u32(x)[1] as int == (x as int / 0x100) % 0x100,
        le_bytes_u32(x)[2] as int == (x as int / 0x1_0000) % 0x100,
        le_bytes_u32(x)[3] as int == x as int / 0x100_0000,
{
    assert(x as u8 == (x % 0x100) as u8) by (bit_vector);
    assert((x >> 8u32) as u8 == ((x / 0x100) % 0x100) as u8) by (bit_vector);
    assert((x >> 16u32) as u8 == ((x / 0x1_0000) % 0x100) as u8) by (bit_vector);
    assert((x >> 24u32) as u8 == (x / 0x100_0000) as u8) by (bit_vector);
    assert(x / 0x100_0000 < 0x100) by (bit_vector);
}

/// The little-endian bytes of a `u64` are its base-256 digits, least
/// significant first.
pub proof fn lemma_le_bytes_u64_digits(x: u64)
    ensures
        le_bytes_u64(x).len() == 8,
        forall|k: int|
            0 <= k < 8 ==> #[trigger] le_bytes_u64(x)[k] as int == (x as int / pow256(k)) % 0x100,
{
    assert(x as u8 == (x % 0x100) as u8) by (bit_vector);
    assert((x >> 8u64) as u8 == ((x / 0x100) % 0x100) as u8) by (bit_vector);
    assert((x >> 16u64) as u8 == ((x / 0x1_0000) % 0x100) as u8) by (bit_vector);
    assert((x >> 24u64) as u8 == ((x / 0x100_0000) % 0x100) as u8) by (bit_vector);
    assert((x >> 32u64) as u8 == ((x / 0x1_0000_0000) % 0x100) as u8) by (bit_vector);
    assert((x >> 40u64) as u8 == ((x / 0x100_0000_0000) % 0x100) as u8) by (bit_vector);
    assert((x >> 48u64) as u8 == ((x / 0x1_0000_0000_0000) % 0x100) as u8) by (bit_vector);
    assert((x >> 56u64) as u8 == ((x / 0x100_0000_0000_0000) % 0x100) as u8) by (bit_vector);
    assert(pow256(0) == 1);
    assert(pow256(1) == 0x100);
    assert(pow256(2) == 0x1_0000);
    assert(pow256(3) == 0x100_0000);
    assert(pow256(4) == 0x1_0000_0000);
    assert(pow256(5) == 0x100_0000_0000);
    assert(pow256(6) == 0x1_0000_0000_0000);
    assert(pow256(7) == 0x100_0000_0000_0000);
}

/// `256^k`.
pub open spec fn pow256(k: int) -> int
    decreases k,
{
    if k <= 0 {
        1
    } else {
        256 * pow256(k - 1)
    }
}

/// Reads the little-endian `u32` at `off`; the caller guarantees the four
/// bytes are in bounds.
pub fn read_u32_le(s: &[u8], off: usize) -> (v: u32)
    requires
        off + 4 <= s@.len(),
    ensures
        v == le_u32_at(s@, off as int),
{
    (s[off] as u32) | ((s[off + 1] as u32) << 8u32) | ((s[off + 2] as u32) << 16u32) | ((
    s[off + 3] as u32) << 24u32)
}

/// Reads the big-endian `u16` at `off`; the caller guarantees the two bytes
/// are in bounds.
pub fn read_u16_be(s: &[u8], off: usize) -> (v: u16)
    requires
        off + 2 <= s@.len(),
    ensures
        v == be_u16_at(s@, off as int),
{
    ((s[off] as u16) << 8u16) | (s[off + 1] as u16)
}

/// Appends the little-endian encoding of `x` to `out`.
pub fn push_u32_le(out: &mut Vec<u8>, x: u32)
    ensures
        final(out)@ == old(out)@ + le_bytes_u32(x),
{
    out.push(x as u8);
    out.push((x >> 8u32) as u8);
    out.push((x >> 16u32) as u8);
    out.push((x >> 24u32) as u8);
}

/// Appends the little-endian encoding of `x` to `out`.
pub fn push_u64_le(out: &mut Vec<u8>, x: u64)
    ensures
        final(out)@ == old(out)@ + le_bytes_u64(x),
{
    out.push(x as u8);
    out.push((x >> 8u64) as u8);
    out.push((x >> 16u64) as u8);
    out.push((x >> 24u64) as u8);
    out.push((x >> 32u64) as u8);
    out.push((x >> 40u64) as u8);
    out.push((x >> 48u64) as u8);
    out.push((x >> 56u64) as u8);
}

} // verus!
