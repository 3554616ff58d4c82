//! A cursor over the bytes of a binary module.
//!
//! Every read either succeeds, moving the cursor past the bytes it used, or
//! fails with a `ReadError`; a read that runs into the end of the data leaves
//! the cursor at the end.

use crate::bytes::{u32_at, u64_at};
use crate::leb128::{uleb32, uleb32_scan, uleb32_value, Uleb32};
use vstd::prelude::*;
use vstd::string::StringExecFns;

verus! {

#[derive(Debug, Clone, Copy, PartialEq, Eq, Structural)]
/// Why a read failed.
pub enum ReadError {
    /// The data ended before the value did.
    UnexpectedEof,
    /// An unsigned LEB128 number ran past five bytes.
    Uleb128Overflow,
    /// A signed LEB128 number ran past its width.
    Sleb128Overflow,
}

/// The message of a read error.
pub open spec fn read_error_text(e: ReadError) -> Seq<char> {
    match e {
        ReadError::UnexpectedEof => "unexpected end of data"@,
        ReadError::Uleb128Overflow => "uleb128 overflow"@,
        ReadError::Sleb128Overflow => "sleb128 overflow"@,
    }
}

impl ReadError {
    /// Returns the message of this error.
    pub fn message(&self) -> (s: String)
        ensures
            s@ == read_error_text(*self),
    {
        match self {
            ReadError::UnexpectedEof => String::from_str("unexpected end of data"),
            ReadError::Uleb128Overflow => String::from_str("uleb128 overflow"),
            ReadError::Sleb128Overflow => String::from_str("sleb128 overflow"),
        }
    }
}

/// The outcome of decoding a signed LEB128 number.
pub enum Sleb<T> {
    /// A number was read; `next` is the position after its last byte.
    Done { value: T, next: int },
    /// The input ended before the last byte.
    Eof,
    /// The number ran past its width; `next` is the position after the last byte read.
    TooLong { next: int },
}

/// The low groups of the first `k` bytes of a signed 32-bit LEB128 number,
/// each shifted into place.
pub open spec fn sleb32_raw(s: Seq<u8>, start: int, k: nat) -> i32
    decreases k,
{
    if k == 0 {
        0
    } else {
        sleb32_raw(s, start, (k - 1) as nat) | (((s[start + k - 1] & 0x7Fu8) as i32) << ((7 * (k
            - 1)) as u32))
    }
}

/// The value of a signed 32-bit LEB128 number of `k` bytes: the raw groups,
/// with every bit from the last group's place up set when its sign bit is set.
pub open spec fn sleb32_value(s: Seq<u8>, start: int, k: nat) -> i32 {
    let raw = sleb32_raw(s, start, k);
    if s[start + k - 1] & 0x40u8 != 0 {
        raw | (-(1i32 << ((7 * (k - 1)) as u32))) as i32
    } else {
        raw
    }
}

/// Decoding a signed 32-bit LEB128 number from `start`, given that the `k`
/// bytes from `start` on carry the continuation bit.
pub open spec fn sleb32_scan(s: Seq<u8>, start: int, k: nat) -> Sleb<i32>
    decreases 5 - k,
{
    if k >= 5 {
        Sleb::TooLong { next: start + k }
    } else if start + k >= s.len() {
        Sleb::Eof
    } else if s[start + k] & 0x80u8 == 0 {
        Sleb::Done { value: sleb32_value(s, start, k + 1), next: start + k + 1 }
    } else if k + 1 >= 5 {
        Sleb::TooLong { next: start + k + 1 }
    } else {
        sleb32_scan(s, start, k + 1)
    }
}

/// The low groups of the first `k` bytes of a signed 64-bit LEB128 number.
pub open spec fn sleb64_raw(s: Seq<u8>, start: int, k: nat) -> i64
    decreases k,
{
    if k == 0 {
        0
    } else {
        sleb64_raw(s, start, (k - 1) as nat) | (((s[start + k - 1] & 0x7Fu8) as i64) << ((7 * (k
            - 1)) as u64))
    }
}

/// The value of a signed 64-bit LEB128 number of `k` bytes: the raw groups,
/// with every bit above them set when the last group's sign bit is set and
/// the groups do not fill the 64 bits.
pub open spec fn sleb64_value(s: Seq<u8>, start: int, k: nat) -> i64 {
    let raw = sleb64_raw(s, start, k);
    if 7 * k < 64 && s[start + k - 1] & 0x40u8 != 0 {
        raw | (!0i64 << ((7 * k) as u64))
    } else {
        raw
    }
}

/// Decoding a signed 64-bit LEB128 number from `start`, given that the `k`
/// bytes from `start` on carry the continuation bit.
pub open spec fn sleb64_scan(s: Seq<u8>, start: int, k: nat) -> Sleb<i64>
    decreases 10 - k,
{
    if k >= 10 {
        Sleb::TooLong { next: start + k }
    } else if start + k >= s.len() {
        Sleb::Eof
    } else if s[start + k] & 0x80u8 == 0 {
        Sleb::Done { value: sleb64_value(s, start, k + 1), next: start + k + 1 }
    } else if k + 1 >= 10 {
        Sleb::TooLong { next: start + k + 1 }
    } else {
        sleb64_scan(s, start, k + 1)
    }
}

/// A cursor over bytes.
pub struct BinaryReader {
    data: Vec<u8>,
    position: usize,
}

impl BinaryReader {
    /// The bytes read from.
    pub closed spec fn data(&self) -> Seq<u8> {
        self.data@
    }

    /// The position of the next byte to read.
    pub closed spec fn pos(&self) -> int {
        self.position as int
    }

    /// The cursor is within the data.
    pub open spec fn wf(&self) -> bool {
        0 <= self.pos() <= self.data().len()
    }

    /// Creates a reader at the start of the given bytes.
    pub fn from_data(data: Vec<u8>) -> (r: Self)
        ensures
            r.data() == data@,
            r.pos() == 0,
            r.wf(),
    {
        Self { data, position: 0 }
    }

    /// Creates a reader at the start of a copy of the given bytes.
    pub fn from_slice(data: &[u8]) -> (r: Self)
        ensures
            r.data() == data@,
            r.pos() == 0,
            r.wf(),
    {
        let mut v: Vec<u8> = Vec::new();
        let mut i: usize = 0;
        while i < data.len()
            invariant
                0 <= i <= data@.len(),
                v@ == data@.subrange(0, i as int),
            decreases data@.len() - i,
        {
            v.push(data[i]);
            i = i + 1;
            proof {
                assert(v@ =~= data@.subrange(0, i as int));
            }
        }
        proof {
            assert(v@ =~= data@);
        }
        Self::from_data(v)
    }

    /// Returns the position of the next byte to read.
    pub fn position(&self) -> (p: usize)
        ensures
            p == self.pos(),
    {
        self.position
    }

    /// Returns the number of bytes left to read.
    pub fn remaining(&self) -> (n: usize)
        ensures
            n == if self.pos() <= self.data().len() {
                self.data().len() - self.pos()
            } else {
                0
            },
    {
        if self.position <= self.data.len() {
            self.data.len() - self.position
        } else {
            0
        }
    }

    /// Reads one byte.
    pub fn read_byte(&mut self) -> (r: Result<u8, ReadError>)
        requires
            old(self).wf(),
        ensures
            final(self).wf(),
            final(self).data() == old(self).data(),
            old(self).pos() < old(self).data().len() ==> r == Ok::<u8, ReadError>(old(self).data()[old(self).pos()])
                && final(self).pos() == old(self).pos() + 1,
            old(self).pos() >= old(self).data().len() ==> r == Err::<u8, ReadError>(ReadError::UnexpectedEof)
                && final(self).pos() == old(self).pos(),
    {
        if self.position >= self.data.len() {
            return Err(ReadError::UnexpectedEof);
        }
        let byte = self.data[self.position];
        self.position = self.position + 1;
        Ok(byte)
    }

    /// Reads `len` bytes; when fewer are left, fails and moves nothing.
    pub fn read_bytes(&mut self, len: usize) -> (r: Result<Vec<u8>, ReadError>)
        requires
            old(self).wf(),
        ensures
            final(self).wf(),
            final(self).data() == old(self).data(),
            old(self).pos() + len <= old(self).data().len() ==> r is Ok && r->Ok_0@ == old(self).data().subrange(
                old(self).pos(),
                old(self).pos() + len,
            ) && final(self).pos() == old(self).pos() + len,
            old(self).pos() + len > old(self).data().len() ==> r == Err::<Vec<u8>, ReadError>(ReadError::UnexpectedEof)
                && final(self).pos() == old(self).pos(),
    {
        if len > self.data.len() - self.position {
            return Err(ReadError::UnexpectedEof);
        }
        let mut bytes: Vec<u8> = Vec::new();
        let mut i: usize = 0;
        while i < len
            invariant
                0 <= i <= len,
                self.position + len <= self.data.len(),
                bytes@ == self.data@.subrange(self.position as int, self.position + i),
            decreases len - i,
        {
            bytes.push(self.data[self.position + i]);
            i = i + 1;
            proof {
                assert(bytes@ =~= self.data@.subrange(self.position as int, self.position + i));
            }
        }
        self.position = self.position + len;
        Ok(bytes)
    }

    /// Reads one byte.
    pub fn read_u8(&mut self) -> (r: Result<u8, ReadError>)
        requires
            old(self).wf(),
        ensures
            final(self).wf(),
            final(self).data() == old(self).data(),
            old(self).pos() < old(self).data().len() ==> r == Ok::<u8, ReadError>(old(self).data()[old(self).pos()])
                && final(self).pos() == old(self).pos() + 1,
            old(self).pos() >= old(self).data().len() ==> r == Err::<u8, ReadError>(ReadError::UnexpectedEof)
                && final(self).pos() == old(self).pos(),
    {
        self.read_byte()
    }

    /// Reads a little-endian 16-bit value.
    pub fn read_u16(&mut self) -> (r: Result<u16, ReadError>)
        requires
            old(self).wf(),
        ensures
            final(self).wf(),
            final(self).data() == old(self).data(),
            old(self).pos() + 2 <= old(self).data().len() ==> r == Ok::<u16, ReadError>(
                ((old(self).data()[old(self).pos()] as u16) | ((old(self).data()[old(self).pos() + 1] as u16) << 8u16)),
            ) && final(self).pos() == old(self).pos() + 2,
            old(self).pos() + 2 > old(self).data().len() ==> r == Err::<u16, ReadError>(ReadError::UnexpectedEof)
                && final(self).pos() == old(self).data().len(),
    {
        let lo = match self.read_u8() {
            Ok(b) => b as u16,
            Err(e) => return Err(e),
        };
        let hi = match self.read_u8() {
            Ok(b) => b as u16,
            Err(e) => return Err(e),
        };
        Ok(lo | (hi << 8))
    }

    /// Reads a little-endian 32-bit value.
    pub fn read_u32(&mut self) -> (r: Result<u32, ReadError>)
        requires
            old(self).wf(),
        ensures
            final(self).wf(),
            final(self).data() == old(self).data(),
            old(self).pos() + 4 <= old(self).data().len() ==> r == Ok::<u32, ReadError>(u32_at(old(self).data(), old(self).pos()))
                && final(self).pos() == old(self).pos() + 4,
            old(self).pos() + 4 > old(self).data().len() ==> r == Err::<u32, ReadError>(ReadError::UnexpectedEof)
                && final(self).pos() == old(self).data().len(),
    {
        let b0 = match self.read_u8() {
            Ok(b) => b as u32,
            Err(e) => return Err(e),
        };
        let b1 = match self.read_u8() {
            Ok(b) => b as u32,
            Err(e) => return Err(e),
        };
        let b2 = match self.read_u8() {
            Ok(b) => b as u32,
            Err(e) => return Err(e),
        };
        let b3 = match self.read_u8() {
            Ok(b) => b as u32,
            Err(e) => return Err(e),
        };
        Ok(b0 | (b1 << 8) | (b2 << 16) | (b3 << 24))
    }

    /// Reads a little-endian 64-bit value.
    pub fn read_u64(&mut self) -> (r: Result<u64, ReadError>)
        requires
            old(self).wf(),
        ensures
            final(self).wf(),
            final(self).data() == old(self).data(),
            old(self).pos() + 8 <= old(self).data().len() ==> r == Ok::<u64, ReadError>(u64_at(old(self).data(), old(self).pos()))
                && final(self).pos() == old(self).pos() + 8,
            old(self).pos() + 8 > old(self).data().len() ==> r == Err::<u64, ReadError>(ReadError::UnexpectedEof)
                && final(self).pos() == old(self).data().len(),
    {
        let ghost s = self.data();
        let ghost p = self.pos();
        let lo = match self.read_u32() {
            Ok(v) => v as u64,
            Err(e) => return Err(e),
        };
        let hi = match self.read_u32() {
            Ok(v) => v as u64,
            Err(e) => return Err(e),
        };
        proof {
            let (b0, b1, b2, b3, b4, b5, b6, b7) = (s[p], s[p + 1], s[p + 2], s[p + 3], s[p + 4], s[p + 5], s[p + 6], s[p + 7]);
            assert(u64_at(s, p) == (b0 as u64) | ((b1 as u64) << 8u64) | ((b2 as u64) << 16u64) | ((b3 as u64)
                << 24u64) | ((b4 as u64) << 32u64) | ((b5 as u64) << 40u64) | ((b6 as u64) << 48u64) | ((b7 as u64) << 56u64));
            assert(lo | (hi << 32u64) == (b0 as u64) | ((b1 as u64) << 8u64) | ((b2 as u64) << 16u64) | ((b3 as u64)
                << 24u64) | ((b4 as u64) << 32u64) | ((b5 as u64) << 40u64) | ((b6 as u64) << 48u64) | ((b7 as u64) << 56u64)) by (bit_vector)
                requires
                    lo == ((b0 as u32) | ((b1 as u32) << 8u32) | ((b2 as u32) << 16u32) | ((b3 as u32) << 24u32)) as u64,
                    hi == ((b4 as u32) | ((b5 as u32) << 8u32) | ((b6 as u32) << 16u32) | ((b7 as u32) << 24u32)) as u64,
            ;
        }
        Ok(lo | (hi << 32))
    }

    /// Reads a little-endian 32-bit signed value.
    pub fn read_i32(&mut self) -> (r: Result<i32, ReadError>)
        requires
            old(self).wf(),
        ensures
            final(self).wf(),
            final(self).data() == old(self).data(),
            old(self).pos() + 4 <= old(self).data().len() ==> r == Ok::<i32, ReadError>(u32_at(old(self).data(), old(self).pos()) as i32)
                && final(self).pos() == old(self).pos() + 4,
            old(self).pos() + 4 > old(self).data().len() ==> r == Err::<i32, ReadError>(ReadError::UnexpectedEof)
                && final(self).pos() == old(self).data().len(),
    {
        match self.read_u32() {
            Ok(v) => Ok(v as i32),
            Err(e) => Err(e),
        }
    }

    /// Reads a little-endian 64-bit signed value.
    pub fn read_i64(&mut self) -> (r: Result<i64, ReadError>)
        requires
            old(self).wf(),
        ensures
            final(self).wf(),
            final(self).data() == old(self).data(),
            old(self).pos() + 8 <= old(self).data().len() ==> r == Ok::<i64, ReadError>(u64_at(old(self).data(), old(self).pos()) as i64)
                && final(self).pos() == old(self).pos() + 8,
            old(self).pos() + 8 > old(self).data().len() ==> r == Err::<i64, ReadError>(ReadError::UnexpectedEof)
                && final(self).pos() == old(self).data().len(),
    {
        match self.read_u64() {
            Ok(v) => Ok(v as i64),
            Err(e) => Err(e),
        }
    }

    /// Reads an unsigned LEB128 number of at most five bytes.
    pub fn read_uleb128(&mut self) -> (r: Result<u32, ReadError>)
        requires
            old(self).wf(),
        ensures
            final(self).wf(),
            final(self).data() == old(self).data(),
            match uleb32(old(self).data(), old(self).pos()) {
                Uleb32::Done { value, next } => r == Ok::<u32, ReadError>(value) && final(self).pos() == next,
                Uleb32::Eof { next } => r == Err::<u32, ReadError>(ReadError::UnexpectedEof) && final(self).pos() == next,
                Uleb32::TooLong { next } => r == Err::<u32, ReadError>(ReadError::Uleb128Overflow)
                    && final(self).pos() == next,
            },
    {
        let ghost start = self.pos();
        let mut result: u32 = 0;
        let mut shift: u32 = 0;
        let ghost mut k: nat = 0;
        loop
            invariant
                self.wf(),
                self.data() == old(self).data(),
                start == old(self).pos(),
                self.pos() == start + k,
                k < 5,
                shift == 7 * k,
                result == uleb32_value(self.data(), start, k),
                uleb32_scan(self.data(), start, k) == uleb32(self.data(), start),
            decreases 5 - k,
        {
            let byte = match self.read_u8() {
                Ok(b) => b,
                Err(e) => {
                    assert(uleb32_scan(self.data(), start, k) == (Uleb32::Eof { next: start + k }));
                    return Err(e);
                },
            };
            result = result | (((byte & 0x7F) as u32) << shift);
            if byte & 0x80 == 0 {
                assert(uleb32_scan(self.data(), start, k) == (Uleb32::Done {
                    value: uleb32_value(self.data(), start, k + 1),
                    next: start + k + 1,
                }));
                return Ok(result);
            }
            shift = shift + 7;
            if shift > 32 {
                assert(uleb32_scan(self.data(), start, k) == (Uleb32::TooLong { next: start + k + 1 }));
                return Err(ReadError::Uleb128Overflow);
            }
            proof {
                k = k + 1;
            }
        }
    }

    /// Reads a signed 32-bit LEB128 number of at most five bytes.
    pub fn read_sleb128(&mut self) -> (r: Result<i32, ReadError>)
        requires
            old(self).wf(),
        ensures
            final(self).wf(),
            final(self).data() == old(self).data(),
            match sleb32_scan(old(self).data(), old(self).pos(), 0) {
                Sleb::Done { value, next } => r == Ok::<i32, ReadError>(value) && final(self).pos() == next,
                Sleb::Eof => r == Err::<i32, ReadError>(ReadError::UnexpectedEof) && final(self).pos()
                    == old(self).data().len(),
                Sleb::TooLong { next } => r == Err::<i32, ReadError>(ReadError::Sleb128Overflow)
                    && final(self).pos() == next,
            },
    {
        let ghost start = self.pos();
        let mut result: i32 = 0;
        let mut shift: u32 = 0;
        let ghost mut k: nat = 0;
        loop
            invariant
                self.wf(),
                self.data() == old(self).data(),
                start == old(self).pos(),
                self.pos() == start + k,
                k < 5,
                shift == 7 * k,
                result == sleb32_raw(self.data(), start, k),
                sleb32_scan(self.data(), start, k) == sleb32_scan(self.data(), start, 0),
            decreases 5 - k,
        {
            let byte = match self.read_u8() {
                Ok(b) => b,
                Err(e) => {
                    assert(sleb32_scan(self.data(), start, k) == Sleb::<i32>::Eof);
                    return Err(e);
                },
            };
            result = result | (((byte & 0x7F) as i32) << shift);
            if byte & 0x80 == 0 {
                if byte & 0x40 != 0 {
                    assert(1i32 << shift >= 1i32 && 1i32 << shift <= 0x1000_0000i32) by (bit_vector)
                        requires
                            shift <= 28u32,
                    ;
                    result = result | -(1i32 << shift);
                }
                assert(sleb32_scan(self.data(), start, k) == (Sleb::Done {
                    value: sleb32_value(self.data(), start, k + 1),
                    next: start + k + 1,
                }));
                return Ok(result);
            }
            shift = shift + 7;
            if shift > 32 {
                assert(sleb32_scan(self.data(), start, k) == Sleb::<i32>::TooLong { next: start + k + 1 });
                return Err(ReadError::Sleb128Overflow);
            }
            proof {
                k = k + 1;
            }
        }
    }

    /// Reads a signed 64-bit LEB128 number of at most ten bytes.
    pub fn read_sleb128_i64(&mut self) -> (r: Result<i64, ReadError>)
        requires
            old(self).wf(),
        ensures
            final(self).wf(),
            final(self).data() == old(self).data(),
            match sleb64_scan(old(self).data(), old(self).pos(), 0) {
                Sleb::Done { value, next } => r == Ok::<i64, ReadError>(value) && final(self).pos() == next,
                Sleb::Eof => r == Err::<i64, ReadError>(ReadError::UnexpectedEof) && final(self).pos()
                    == old(self).data().len(),
                Sleb::TooLong { next } => r == Err::<i64, ReadError>(ReadError::Sleb128Overflow)
                    && final(self).pos() == next,
            },
    {
        let ghost start = self.pos();
        let mut result: i64 = 0;
        let mut shift: u64 = 0;
        let ghost mut k: nat = 0;
        loop
            invariant
                self.wf(),
                self.data() == old(self).data(),
                start == old(self).pos(),
                self.pos() == start + k,
                k < 10,
                shift == 7 * k,
                result == sleb64_raw(self.data(), start, k),
                sleb64_scan(self.data(), start, k) == sleb64_scan(self.data(), start, 0),
            decreases 10 - k,
        {
            let byte = match self.read_u8() {
                Ok(b) => b,
                Err(e) => {
                    assert(sleb64_scan(self.data(), start, k) == Sleb::<i64>::Eof);
                    return Err(e);
                },
            };
            result = result | (((byte & 0x7F) as i64) << shift);
            shift = shift + 7;
            if byte & 0x80 == 0 {
                if shift < 64 && byte & 0x40 != 0 {
                    result = result | (!0i64 << shift);
                }
                assert(sleb64_scan(self.data(), start, k) == (Sleb::Done {
                    value: sleb64_value(self.data(), start, k + 1),
                    next: start + k + 1,
                }));
                return Ok(result);
            }
            if shift > 64 {
                assert(sleb64_scan(self.data(), start, k) == Sleb::<i64>::TooLong { next: start + k + 1 });
                return Err(ReadError::Sleb128Overflow);
            }
            proof {
                k = k + 1;
            }
        }
    }
}

} // verus!
