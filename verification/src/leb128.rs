//! The LEB128 variable-length integer encoding, as a specification.
//!
//! An unsigned LEB128 number is a run of bytes whose high bit is set on every
//! byte but the last; the low seven bits of the bytes, least significant group
//! first, are the digits of the number in base 128.

use vstd::prelude::*;

verus! {

/// The 32-bit value of the first `k` groups of an unsigned LEB128 number that
/// starts at `start`; digits beyond bit 31 are dropped.
pub open spec fn uleb32_value(s: Seq<u8>, start: int, k: nat) -> u32
    decreases k,
{
    if k == 0 {
        0
    } else {
        uleb32_value(s, start, (k - 1) as nat) | (((s[start + k - 1] & 0x7Fu8) as u32) << ((7 * (k
            - 1)) as u32))
    }
}

/// The outcome of decoding an unsigned 32-bit LEB128 number.
pub enum Uleb32 {
    /// A number was read; `next` is the position after its last byte.
    Done { value: u32, next: int },
    /// The input ended before the last byte; `next` is the end of the input.
    Eof { next: int },
    /// Five bytes in a row carried the continuation bit; `next` is the
    /// position after the fifth.
    TooLong { next: int },
}

/// Decoding from `start`, given that the `k` bytes from `start` on all carry
/// the continuation bit.
pub open spec fn uleb32_scan(s: Seq<u8>, start: int, k: nat) -> Uleb32
    decreases 5 - k,
{
    if k >= 5 {
        Uleb32::TooLong { next: start + k }
    } else if start + k >= s.len() {
        Uleb32::Eof { next: start + k }
    } else if s[start + k] & 0x80u8 == 0 {
        Uleb32::Done { value: uleb32_value(s, start, k + 1), next: start + k + 1 }
    } else if k + 1 >= 5 {
        Uleb32::TooLong { next: start + k + 1 }
    } else {
        uleb32_scan(s, start, k + 1)
    }
}

/// Decoding an unsigned 32-bit LEB128 number (of at most five bytes) at `start`.
pub open spec fn uleb32(s: Seq<u8>, start: int) -> Uleb32 {
    uleb32_scan(s, start, 0)
}

/// The position after a decoding attempt.
pub open spec fn uleb32_next(r: Uleb32) -> int {
    match r {
        Uleb32::Done { next, .. } => next,
        Uleb32::Eof { next } => next,
        Uleb32::TooLong { next } => next,
    }
}

/// A decoding attempt from inside the input moves past at least one byte and
/// never past the end of the input.
pub proof fn lemma_uleb32_advances(s: Seq<u8>, start: int, k: nat)
    requires
        0 <= start,
        start + k <= s.len(),
        k < 5,
    ensures
        uleb32_scan(s, start, k) is Done ==> start + k < uleb32_next(uleb32_scan(s, start, k))
            <= s.len(),
        uleb32_scan(s, start, k) is TooLong ==> start + k < uleb32_next(uleb32_scan(s, start, k))
            <= s.len(),
        uleb32_scan(s, start, k) is Eof ==> uleb32_next(uleb32_scan(s, start, k)) == s.len(),
    decreases 5 - k,
{
    if start + k < s.len() && s[start + k] & 0x80u8 != 0 && k + 1 < 5 {
        lemma_uleb32_advances(s, start, k + 1);
    }
}


/// The 64-bit value of the first `k` groups of an unsigned LEB128 number that
/// starts at `start`; digits beyond bit 63 are dropped.
pub open spec fn uleb64_value(s: Seq<u8>, start: int, k: nat) -> u64
    decreases k,
{
    if k == 0 {
        0
    } else {
        uleb64_value(s, start, (k - 1) as nat) | (((s[start + k - 1] & 0x7Fu8) as u64) << ((7 * (k
            - 1)) as u64))
    }
}

/// The outcome of decoding an unsigned 64-bit LEB128 number.
pub enum Uleb64 {
    /// A number was read; `next` is the position after its last byte.
    Done { value: u64, next: int },
    /// The input ended before the last byte.
    Eof,
    /// Ten bytes in a row carried the continuation bit.
    TooLong,
}

/// Decoding from `start`, given that the `k` bytes from `start` on all carry
/// the continuation bit.
pub open spec fn uleb64_scan(s: Seq<u8>, start: int, k: nat) -> Uleb64
    decreases 10 - k,
{
    if k >= 10 {
        Uleb64::TooLong
    } else if start + k >= s.len() {
        Uleb64::Eof
    } else if s[start + k] & 0x80u8 == 0 {
        Uleb64::Done { value: uleb64_value(s, start, k + 1), next: start + k + 1 }
    } else if k + 1 >= 10 {
        Uleb64::TooLong
    } else {
        uleb64_scan(s, start, k + 1)
    }
}

/// Decoding an unsigned 64-bit LEB128 number (of at most ten bytes) at `start`.
pub open spec fn uleb64(s: Seq<u8>, start: int) -> Uleb64 {
    uleb64_scan(s, start, 0)
}

} // verus!
