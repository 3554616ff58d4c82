//! Little-endian byte encodings of fixed-width integers.

use vstd::prelude::*;

verus! {

/// Little-endian bytes of a 16-bit value.
pub open spec fn le16(x: u16) -> Seq<u8> {
    seq![x as u8, (x >> 8u16) as u8]
}

/// Little-endian bytes of a 32-bit value.
pub open spec fn le32(x: u32) -> Seq<u8> {
    seq![x as u8, (x >> 8u32) as u8, (x >> 16u32) as u8, (x >> 24u32) as u8]
}

/// Little-endian bytes of a 64-bit value.
pub open spec fn le64(x: u64) -> Seq<u8> {
    seq![
        x as u8,
        (x >> 8u64) as u8,
        (x >> 16u64) as u8,
        (x >> 24u64) as u8,
        (x >> 32u64) as u8,
        (x >> 40u64) as u8,
        (x >> 48u64) as u8,
        (x >> 56u64) as u8,
    ]
}

/// Appends the little-endian bytes of a 16-bit value.
pub fn push_u16_le(code: &mut Vec<u8>, x: u16)
    ensures
        final(code)@ == old(code)@ + le16(x),
{
    code.push(x as u8);
    code.push((x >> 8) as u8);
}

/// Appends the little-endian bytes of a 32-bit value.
pub fn push_u32_le(code: &mut Vec<u8>, x: u32)
    ensures
        final(code)@ == old(code)@ + le32(x),
{
    code.push(x as u8);
    code.push((x >> 8) as u8);
    code.push((x >> 16) as u8);
    code.push((x >> 24) as u8);
}

/// Appends the little-endian bytes of a 64-bit value.
pub fn push_u64_le(code: &mut Vec<u8>, x: u64)
    ensures
        final(code)@ == old(code)@ + le64(x),
{
    code.push(x as u8);
    code.push((x >> 8) as u8);
    code.push((x >> 16) as u8);
    code.push((x >> 24) as u8);
    code.push((x >> 32) as u8);
    code.push((x >> 40) as u8);
    code.push((x >> 48) as u8);
    code.push((x >> 56) as u8);
}

/// The 32-bit value whose little-endian bytes start at `i`.
pub open spec fn u32_at(s: Seq<u8>, i: int) -> u32 {
    (s[i] as u32) | ((s[i + 1] as u32) << 8u32) | ((s[i + 2] as u32) << 16u32) | ((s[i + 3] as u32)
        << 24u32)
}

/// The 64-bit value whose little-endian bytes start at `i`.
pub open spec fn u64_at(s: Seq<u8>, i: int) -> u64 {
    (s[i] as u64) | ((s[i + 1] as u64) << 8u64) | ((s[i + 2] as u64) << 16u64) | ((s[i + 3] as u64)
        << 24u64) | ((s[i + 4] as u64) << 32u64) | ((s[i + 5] as u64) << 40u64) | ((s[i + 6] as u64)
        << 48u64) | ((s[i + 7] as u64) << 56u64)
}

/// Reading back the little-endian bytes of a 32-bit value gives the value.
pub proof fn lemma_le32_roundtrip(x: u32)
    ensures
        u32_at(le32(x), 0) == x,
{
    let b0 = x as u8;
    let b1 = (x >> 8u32) as u8;
    let b2 = (x >> 16u32) as u8;
    let b3 = (x >> 24u32) as u8;
    assert((b0 as u32) | ((b1 as u32) << 8u32) | ((b2 as u32) << 16u32) | ((b3 as u32) << 24u32)
        == x) by (bit_vector)
        requires
            b0 == x as u8,
            b1 == (x >> 8u32) as u8,
            b2 == (x >> 16u32) as u8,
            b3 == (x >> 24u32) as u8,
    ;
}

/// Reading back the little-endian bytes of a 64-bit value gives the value.
pub proof fn lemma_le64_roundtrip(x: u64)
    ensures
        u64_at(le64(x), 0) == x,
{
    let b0 = x as u8;
    let b1 = (x >> 8u64) as u8;
    let b2 = (x >> 16u64) as u8;
    let b3 = (x >> 24u64) as u8;
    let b4 = (x >> 32u64) as u8;
    let b5 = (x >> 40u64) as u8;
    let b6 = (x >> 48u64) as u8;
    let b7 = (x >> 56u64) as u8;
    assert((b0 as u64) | ((b1 as u64) << 8u64) | ((b2 as u64) << 16u64) | ((b3 as u64) << 24u64)
        | ((b4 as u64) << 32u64) | ((b5 as u64) << 40u64) | ((b6 as u64) << 48u64) | ((b7 as u64)
        << 56u64) == x) by (bit_vector)
        requires
            b0 == x as u8,
            b1 == (x >> 8u64) as u8,
            b2 == (x >> 16u64) as u8,
            b3 == (x >> 24u64) as u8,
            b4 == (x >> 32u64) as u8,
            b5 == (x >> 40u64) as u8,
            b6 == (x >> 48u64) as u8,
            b7 == (x >> 56u64) as u8,
    ;
}

/// Reads the 32-bit value whose little-endian bytes start at `i`.
pub fn read_u32_at(s: &[u8], i: usize) -> (x: u32)
    requires
        i + 4 <= s@.len(),
    ensures
        x == u32_at(s@, i as int),
{
    (s[i] as u32) | ((s[i + 1] as u32) << 8u32) | ((s[i + 2] as u32) << 16u32) | ((s[i + 3] as u32)
        << 24u32)
}

/// Reads the 64-bit value whose little-endian bytes start at `i`.
pub fn read_u64_at(s: &[u8], i: usize) -> (x: u64)
    requires
        i + 8 <= s@.len(),
    ensures
        x == u64_at(s@, i as int),
{
    (s[i] as u64) | ((s[i + 1] as u64) << 8u64) | ((s[i + 2] as u64) << 16u64) | ((s[i + 3] as u64)
        << 24u64) | ((s[i + 4] as u64) << 32u64) | ((s[i + 5] as u64) << 40u64) | ((s[i + 6] as u64)
        << 48u64) | ((s[i + 7] as u64) << 56u64)
}

} // verus!
