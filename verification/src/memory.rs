//! WebAssembly linear memory.
//!
//! A linear memory is a run of bytes, a whole number of 64 KiB pages long,
//! that grows in pages up to its declared maximum and never past 65536
//! pages. Reads and writes are bounds-checked: an access that does not lie
//! wholly inside the memory traps and changes nothing.

use crate::bytes::{le32, le64, lemma_le32_roundtrip, lemma_le64_roundtrip, u32_at, u64_at};
use crate::runtime::error::{Result, TrapCode, WasmError};
use crate::runtime::metering::{pages_within, InstanceLimits, PAGE_SIZE_BYTES};
use crate::runtime::types::MemoryType;
use vstd::prelude::*;
use vstd::string::StringExecFns;

verus! {

/// The largest number of pages a memory can have.
pub const MAX_PAGES: u32 = 65536;

/// The bytes after writing `buf` at `offset`.
pub open spec fn written(data: Seq<u8>, offset: int, buf: Seq<u8>) -> Seq<u8> {
    data.subrange(0, offset) + buf + data.subrange(offset + buf.len(), data.len() as int)
}

/// Whether an access of `n` bytes at `offset` lies inside `len` bytes.
pub open spec fn in_bounds(len: int, offset: int, n: int) -> bool {
    offset + n <= len
}

/// What a read of the bytes just written gives back is what was written,
/// and the bytes outside the write keep their values.
pub proof fn lemma_read_after_write(data: Seq<u8>, offset: int, buf: Seq<u8>)
    requires
        0 <= offset,
        in_bounds(data.len() as int, offset, buf.len() as int),
    ensures
        written(data, offset, buf).len() == data.len(),
        written(data, offset, buf).subrange(offset, offset + buf.len()) == buf,
        forall|i: int| 0 <= i < data.len() && !(offset <= i < offset + buf.len()) ==> written(data, offset, buf)[i] == data[i],
{
    let w = written(data, offset, buf);
    assert(w.subrange(offset, offset + buf.len()) =~= buf);
}

/// The number of pages a grow by `delta` from `pages` asks for: the sum,
/// saturated at `u32::MAX`.
pub open spec fn grow_target(pages: u32, delta: u32) -> u32 {
    if pages + delta > u32::MAX {
        u32::MAX
    } else {
        (pages + delta) as u32
    }
}

/// Whether every limit in a list allows a memory of `pages` pages.
pub open spec fn all_allow(limits: Seq<InstanceLimits>, pages: u32) -> bool {
    forall|i: int| 0 <= i < limits.len() ==> pages_within(#[trigger] limits[i], pages)
}

/// Whether a grow to `target` pages passes every check: the meters' page
/// limits, the memory's own maximum, and the largest size a memory can have.
pub open spec fn grow_allowed(ty: MemoryType, limits: Seq<InstanceLimits>, target: u32) -> bool {
    &&& all_allow(limits, target)
    &&& match ty.limits.spec_max() {
        Some(max) => target <= max,
        None => true,
    }
    &&& target <= MAX_PAGES
}

#[derive(Debug, Clone)]
/// A linear memory.
pub struct Memory {
    mem_type: MemoryType,
    data: Vec<u8>,
}

/// The message of a grow to `target` pages that the memory's type refuses:
/// its declared maximum is checked before the limit of 65536 pages.
pub open spec fn grow_error_text(ty: MemoryType, target: u32) -> Seq<char> {
    match ty.limits.spec_max() {
        Some(max) => if target > max {
            "memory size exceeds maximum"@
        } else {
            "memory size exceeds maximum allowed"@
        },
        None => "memory size exceeds maximum allowed"@,
    }
}

impl Memory {
    /// The bytes of the memory.
    pub closed spec fn bytes(&self) -> Seq<u8> {
        self.data@
    }

    /// The declared type.
    pub closed spec fn ty(&self) -> MemoryType {
        self.mem_type
    }

    /// The number of pages.
    pub open spec fn pages(&self) -> int {
        self.bytes().len() as int / 65536
    }

    /// The memory is a whole number of pages, at most `MAX_PAGES` of them.
    pub open spec fn wf(&self) -> bool {
        &&& self.bytes().len() as int % 65536 == 0
        &&& self.pages() <= MAX_PAGES
    }

    /// Creates a memory of the type's minimum number of pages, all zero.
    pub fn new(mem_type: MemoryType) -> (m: Self)
        requires
            mem_type.limits.spec_min() < MAX_PAGES,
        ensures
            m.wf(),
            m.ty() == mem_type,
            m.bytes() == Seq::new((mem_type.limits.spec_min() * 65536) as nat, |i: int| 0u8),
    {
        let min_pages = mem_type.limits.min();
        proof {
            assert(min_pages * 65536 < 0x1_0000_0000) by (nonlinear_arith)
                requires
                    min_pages < 65536,
            ;
        }
        let byte_len = (min_pages * PAGE_SIZE_BYTES) as usize;
        let mut data: Vec<u8> = Vec::new();
        let mut i: usize = 0;
        while i < byte_len
            invariant
                0 <= i <= byte_len,
                data@ == Seq::new(i as nat, |j: int| 0u8),
            decreases byte_len - i,
        {
            data.push(0);
            i = i + 1;
            proof {
                assert(data@ =~= Seq::new(i as nat, |j: int| 0u8));
            }
        }
        let m = Self { mem_type, data };
        proof {
            assert(m.bytes().len() % 65536 == 0 && m.bytes().len() / 65536 == min_pages) by (nonlinear_arith)
                requires
                    m.bytes().len() == min_pages * 65536,
            ;
        }
        m
    }

    /// Returns the number of pages.
    pub fn size(&self) -> (n: u32)
        requires
            self.wf(),
        ensures
            n == self.pages(),
    {
        (self.data.len() / PAGE_SIZE_BYTES as usize) as u32
    }

    /// Returns the declared type.
    pub fn type_(&self) -> (t: &MemoryType)
        ensures
            *t == self.ty(),
    {
        &self.mem_type
    }

    /// Grows the memory by `delta` pages of zeros, returning the old number of
    /// pages; `meter_limits` are the limits of the meters watching the memory.
    /// A grow that fails a check changes nothing.
    pub fn grow_within(&mut self, delta: u32, meter_limits: &[InstanceLimits]) -> (r: Result<u32>)
        requires
            old(self).wf(),
            grow_allowed(old(self).ty(), meter_limits@, grow_target(old(self).pages() as u32, delta))
                ==> grow_target(old(self).pages() as u32, delta) < MAX_PAGES,
        ensures
            final(self).wf(),
            final(self).ty() == old(self).ty(),
            ({
                let target = grow_target(old(self).pages() as u32, delta);
                if !all_allow(meter_limits@, target) {
                    r == Err::<u32, WasmError>(WasmError::Trap(TrapCode::MemoryLimitExceeded)) && final(self).bytes()
                        == old(self).bytes()
                } else if !grow_allowed(old(self).ty(), meter_limits@, target) {
                    final(self).bytes() == old(self).bytes() && (r matches Err(WasmError::Runtime(m)) && m@ == grow_error_text(
                        old(self).ty(),
                        target,
                    ))
                } else {
                    r == Ok::<u32, WasmError>(old(self).pages() as u32) && final(self).bytes() == old(self).bytes()
                        + Seq::new(((target - old(self).pages()) * 65536) as nat, |i: int| 0u8)
                }
            }),
    {
        let old_size = self.size();
        let new_size = old_size.saturating_add(delta);
        let mut i: usize = 0;
        while i < meter_limits.len()
            invariant
                0 <= i <= meter_limits@.len(),
                forall|j: int| 0 <= j < i ==> pages_within(#[trigger] meter_limits@[j], new_size),
                self.data@ == old(self).data@,
                self.mem_type == old(self).mem_type,
                old(self).wf(),
                new_size == grow_target(old(self).pages() as u32, delta),
            decreases meter_limits@.len() - i,
        {
            if let Some(max_memory_pages) = meter_limits[i].max_memory_pages {
                if new_size > max_memory_pages {
                    return Err(WasmError::Trap(TrapCode::MemoryLimitExceeded));
                }
            }
            i = i + 1;
        }
        if let Some(max) = self.mem_type.limits.max() {
            if new_size > max {
                return Err(WasmError::Runtime(String::from_str("memory size exceeds maximum")));
            }
        }
        if new_size > MAX_PAGES {
            return Err(WasmError::Runtime(String::from_str("memory size exceeds maximum allowed")));
        }
        proof {
            assert(new_size * 65536 < 0x1_0000_0000) by (nonlinear_arith)
                requires
                    new_size < 65536,
            ;
            assert((new_size - old_size) * 65536 + old_size * 65536 == new_size * 65536) by (nonlinear_arith);
        }
        let new_byte_len = (new_size * PAGE_SIZE_BYTES) as usize;
        let ghost before = self.data@;
        while self.data.len() < new_byte_len
            invariant
                before.len() <= self.data@.len() <= new_byte_len,
                self.data@ == before + Seq::new((self.data@.len() - before.len()) as nat, |j: int| 0u8),
                self.mem_type == old(self).mem_type,
            decreases new_byte_len - self.data@.len(),
        {
            self.data.push(0);
            proof {
                assert(self.data@ =~= before + Seq::new((self.data@.len() - before.len()) as nat, |j: int| 0u8));
            }
        }
        proof {
            assert(self.data@.len() % 65536 == 0 && self.data@.len() / 65536 == new_size) by (nonlinear_arith)
                requires
                    self.data@.len() == new_size * 65536,
            ;
        }
        Ok(old_size)
    }

    /// Grows a memory that no meter watches by `delta` pages of zeros,
    /// returning the old number of pages.
    pub fn grow(&mut self, delta: u32) -> (r: Result<u32>)
        requires
            old(self).wf(),
            grow_allowed(old(self).ty(), Seq::empty(), grow_target(old(self).pages() as u32, delta))
                ==> grow_target(old(self).pages() as u32, delta) < MAX_PAGES,
        ensures
            final(self).wf(),
            final(self).ty() == old(self).ty(),
            ({
                let target = grow_target(old(self).pages() as u32, delta);
                if !grow_allowed(old(self).ty(), Seq::empty(), target) {
                    final(self).bytes() == old(self).bytes() && (r matches Err(WasmError::Runtime(m)) && m@
                        == grow_error_text(old(self).ty(), target))
                } else {
                    r == Ok::<u32, WasmError>(old(self).pages() as u32) && final(self).bytes() == old(self).bytes()
                        + Seq::new(((target - old(self).pages()) * 65536) as nat, |i: int| 0u8)
                }
            }),
    {
        let none: [InstanceLimits; 0] = [];
        proof {
            assert(none@ =~= Seq::<InstanceLimits>::empty());
        }
        self.grow_within(delta, &none)
    }

    /// Copies `buf.len()` bytes at `offset` into `buf`.
    pub fn read(&self, offset: u32, buf: &mut [u8]) -> (r: Result<()>)
        ensures
            in_bounds(self.bytes().len() as int, offset as int, old(buf)@.len() as int) ==> r is Ok
                && final(buf)@ == self.bytes().subrange(offset as int, offset + old(buf)@.len()),
            !in_bounds(self.bytes().len() as int, offset as int, old(buf)@.len() as int) ==> r
                == Err::<(), WasmError>(WasmError::Trap(TrapCode::MemoryOutOfBounds)) && final(buf)@ == old(buf)@,
    {
        let offset = offset as usize;
        if buf.len() == 0 {
            if offset > self.data.len() {
                return Err(WasmError::Trap(TrapCode::MemoryOutOfBounds));
            }
            proof {
                assert(buf@ =~= self.bytes().subrange(offset as int, offset as int));
            }
            return Ok(());
        }
        if offset >= self.data.len() {
            return Err(WasmError::Trap(TrapCode::MemoryOutOfBounds));
        }
        if buf.len() > self.data.len() - offset {
            return Err(WasmError::Trap(TrapCode::MemoryOutOfBounds));
        }
        let n = buf.len();
        let mut i: usize = 0;
        while i < n
            invariant
                n == buf@.len(),
                n == old(buf)@.len(),
                offset + n <= self.data.len(),
                0 <= i <= n,
                forall|j: int| 0 <= j < i ==> buf@[j] == self.data@[offset + j],
            decreases n - i,
        {
            buf[i] = self.data[offset + i];
            i = i + 1;
        }
        proof {
            assert(buf@ =~= self.bytes().subrange(offset as int, offset + n));
        }
        Ok(())
    }

    /// Copies `buf` into the memory at `offset`.
    pub fn write(&mut self, offset: u32, buf: &[u8]) -> (r: Result<()>)
        ensures
            final(self).ty() == old(self).ty(),
            in_bounds(old(self).bytes().len() as int, offset as int, buf@.len() as int) ==> r is Ok
                && final(self).bytes() == written(old(self).bytes(), offset as int, buf@),
            !in_bounds(old(self).bytes().len() as int, offset as int, buf@.len() as int) ==> r
                == Err::<(), WasmError>(WasmError::Trap(TrapCode::MemoryOutOfBounds)) && final(self).bytes()
                == old(self).bytes(),
    {
        let offset = offset as usize;
        if buf.len() == 0 {
            if offset > self.data.len() {
                return Err(WasmError::Trap(TrapCode::MemoryOutOfBounds));
            }
            proof {
                assert(self.bytes() =~= written(old(self).bytes(), offset as int, buf@));
            }
            return Ok(());
        }
        if offset >= self.data.len() {
            return Err(WasmError::Trap(TrapCode::MemoryOutOfBounds));
        }
        if buf.len() > self.data.len() - offset {
            return Err(WasmError::Trap(TrapCode::MemoryOutOfBounds));
        }
        let n = buf.len();
        let mut i: usize = 0;
        while i < n
            invariant
                n == buf@.len(),
                offset + n <= self.data.len(),
                self.data@.len() == old(self).data@.len(),
                self.mem_type == old(self).mem_type,
                0 <= i <= n,
                forall|j: int| 0 <= j < self.data@.len() ==> #[trigger] self.data@[j] == if offset <= j < offset + i {
                    buf@[j - offset]
                } else {
                    old(self).data@[j]
                },
            decreases n - i,
        {
            self.data.set(offset + i, buf[i]);
            i = i + 1;
        }
        proof {
            assert(self.bytes() =~= written(old(self).bytes(), offset as int, buf@));
        }
        Ok(())
    }

    /// Reads the byte at `offset`.
    pub fn read_u8(&self, offset: u32) -> (r: Result<u8>)
        ensures
            in_bounds(self.bytes().len() as int, offset as int, 1) ==> r == Ok::<u8, WasmError>(self.bytes()[offset as int]),
            !in_bounds(self.bytes().len() as int, offset as int, 1) ==> r == Err::<u8, WasmError>(
                WasmError::Trap(TrapCode::MemoryOutOfBounds),
            ),
    {
        let mut buf = [0u8; 1];
        match self.read(offset, &mut buf) {
            Ok(()) => Ok(buf[0]),
            Err(e) => Err(e),
        }
    }

    /// Writes the byte at `offset`.
    pub fn write_u8(&mut self, offset: u32, val: u8) -> (r: Result<()>)
        ensures
            final(self).ty() == old(self).ty(),
            in_bounds(old(self).bytes().len() as int, offset as int, 1) ==> r is Ok && final(self).bytes()
                == written(old(self).bytes(), offset as int, seq![val]),
            !in_bounds(old(self).bytes().len() as int, offset as int, 1) ==> r == Err::<(), WasmError>(
                WasmError::Trap(TrapCode::MemoryOutOfBounds),
            ) && final(self).bytes() == old(self).bytes(),
    {
        let buf = [val];
        proof {
            assert(buf@ =~= seq![val]);
        }
        self.write(offset, &buf)
    }

    /// Reads the little-endian 32-bit value at `offset`.
    pub fn read_u32(&self, offset: u32) -> (r: Result<u32>)
        ensures
            in_bounds(self.bytes().len() as int, offset as int, 4) ==> r == Ok::<u32, WasmError>(
                u32_at(self.bytes(), offset as int),
            ),
            !in_bounds(self.bytes().len() as int, offset as int, 4) ==> r == Err::<u32, WasmError>(
                WasmError::Trap(TrapCode::MemoryOutOfBounds),
            ),
    {
        let mut buf = [0u8; 4];
        match self.read(offset, &mut buf) {
            Ok(()) => Ok((buf[0] as u32) | ((buf[1] as u32) << 8) | ((buf[2] as u32) << 16) | ((buf[3] as u32) << 24)),
            Err(e) => Err(e),
        }
    }

    /// Writes a 32-bit value at `offset` in little-endian order.
    pub fn write_u32(&mut self, offset: u32, val: u32) -> (r: Result<()>)
        ensures
            final(self).ty() == old(self).ty(),
            in_bounds(old(self).bytes().len() as int, offset as int, 4) ==> r is Ok && final(self).bytes()
                == written(old(self).bytes(), offset as int, le32(val)),
            !in_bounds(old(self).bytes().len() as int, offset as int, 4) ==> r == Err::<(), WasmError>(
                WasmError::Trap(TrapCode::MemoryOutOfBounds),
            ) && final(self).bytes() == old(self).bytes(),
    {
        let buf = [val as u8, (val >> 8) as u8, (val >> 16) as u8, (val >> 24) as u8];
        proof {
            assert(buf@ =~= le32(val));
        }
        self.write(offset, &buf)
    }

    /// Reads the little-endian 32-bit signed value at `offset`.
    pub fn read_i32(&self, offset: u32) -> (r: Result<i32>)
        ensures
            in_bounds(self.bytes().len() as int, offset as int, 4) ==> r == Ok::<i32, WasmError>(
                u32_at(self.bytes(), offset as int) as i32,
            ),
            !in_bounds(self.bytes().len() as int, offset as int, 4) ==> r == Err::<i32, WasmError>(
                WasmError::Trap(TrapCode::MemoryOutOfBounds),
            ),
    {
        match self.read_u32(offset) {
            Ok(v) => Ok(v as i32),
            Err(e) => Err(e),
        }
    }

    /// Writes a 32-bit signed value at `offset` in little-endian order.
    pub fn write_i32(&mut self, offset: u32, val: i32) -> (r: Result<()>)
        ensures
            final(self).ty() == old(self).ty(),
            in_bounds(old(self).bytes().len() as int, offset as int, 4) ==> r is Ok && final(self).bytes()
                == written(old(self).bytes(), offset as int, le32(val as u32)),
            !in_bounds(old(self).bytes().len() as int, offset as int, 4) ==> r == Err::<(), WasmError>(
                WasmError::Trap(TrapCode::MemoryOutOfBounds),
            ) && final(self).bytes() == old(self).bytes(),
    {
        self.write_u32(offset, val as u32)
    }

    /// Reads the little-endian 64-bit value at `offset`.
    pub fn read_u64(&self, offset: u32) -> (r: Result<u64>)
        ensures
            in_bounds(self.bytes().len() as int, offset as int, 8) ==> r == Ok::<u64, WasmError>(
                u64_at(self.bytes(), offset as int),
            ),
            !in_bounds(self.bytes().len() as int, offset as int, 8) ==> r == Err::<u64, WasmError>(
                WasmError::Trap(TrapCode::MemoryOutOfBounds),
            ),
    {
        let mut buf = [0u8; 8];
        match self.read(offset, &mut buf) {
            Ok(()) => Ok(crate::bytes::read_u64_at(&buf, 0)),
            Err(e) => Err(e),
        }
    }

    /// Writes a 64-bit value at `offset` in little-endian order.
    pub fn write_u64(&mut self, offset: u32, val: u64) -> (r: Result<()>)
        ensures
            final(self).ty() == old(self).ty(),
            in_bounds(old(self).bytes().len() as int, offset as int, 8) ==> r is Ok && final(self).bytes()
                == written(old(self).bytes(), offset as int, le64(val)),
            !in_bounds(old(self).bytes().len() as int, offset as int, 8) ==> r == Err::<(), WasmError>(
                WasmError::Trap(TrapCode::MemoryOutOfBounds),
            ) && final(self).bytes() == old(self).bytes(),
    {
        let buf = [
            val as u8,
            (val >> 8) as u8,
            (val >> 16) as u8,
            (val >> 24) as u8,
            (val >> 32) as u8,
            (val >> 40) as u8,
            (val >> 48) as u8,
            (val >> 56) as u8,
        ];
        proof {
            assert(buf@ =~= le64(val));
        }
        self.write(offset, &buf)
    }

    /// Reads the little-endian 64-bit signed value at `offset`.
    pub fn read_i64(&self, offset: u32) -> (r: Result<i64>)
        ensures
            in_bounds(self.bytes().len() as int, offset as int, 8) ==> r == Ok::<i64, WasmError>(
                u64_at(self.bytes(), offset as int) as i64,
            ),
            !in_bounds(self.bytes().len() as int, offset as int, 8) ==> r == Err::<i64, WasmError>(
                WasmError::Trap(TrapCode::MemoryOutOfBounds),
            ),
    {
        match self.read_u64(offset) {
            Ok(v) => Ok(v as i64),
            Err(e) => Err(e),
        }
    }

    /// Writes a 64-bit signed value at `offset` in little-endian order.
    pub fn write_i64(&mut self, offset: u32, val: i64) -> (r: Result<()>)
        ensures
            final(self).ty() == old(self).ty(),
            in_bounds(old(self).bytes().len() as int, offset as int, 8) ==> r is Ok && final(self).bytes()
                == written(old(self).bytes(), offset as int, le64(val as u64)),
            !in_bounds(old(self).bytes().len() as int, offset as int, 8) ==> r == Err::<(), WasmError>(
                WasmError::Trap(TrapCode::MemoryOutOfBounds),
            ) && final(self).bytes() == old(self).bytes(),
    {
        self.write_u64(offset, val as u64)
    }

    /// Returns the number of bytes of the memory.
    pub fn len_bytes(&self) -> (n: usize)
        ensures
            n == self.bytes().len(),
    {
        self.data.len()
    }

    /// Returns the bytes of the memory.
    pub fn data(&self) -> (d: &[u8])
        ensures
            d@ == self.bytes(),
    {
        self.data.as_slice()
    }
}

/// A 32-bit value written to memory reads back unchanged.
pub proof fn lemma_u32_read_after_write(data: Seq<u8>, offset: int, val: u32)
    requires
        0 <= offset,
        in_bounds(data.len() as int, offset, 4),
    ensures
        u32_at(written(data, offset, le32(val)), offset) == val,
{
    lemma_read_after_write(data, offset, le32(val));
    let w = written(data, offset, le32(val));
    lemma_le32_roundtrip(val);
    assert(w[offset] == le32(val)[0]);
    assert(w[offset + 1] == le32(val)[1]);
    assert(w[offset + 2] == le32(val)[2]);
    assert(w[offset + 3] == le32(val)[3]);
}

/// A 64-bit value written to memory reads back unchanged.
pub proof fn lemma_u64_read_after_write(data: Seq<u8>, offset: int, val: u64)
    requires
        0 <= offset,
        in_bounds(data.len() as int, offset, 8),
    ensures
        u64_at(written(data, offset, le64(val)), offset) == val,
{
    lemma_read_after_write(data, offset, le64(val));
    let w = written(data, offset, le64(val));
    lemma_le64_roundtrip(val);
    assert(w.subrange(offset, offset + 8) == le64(val));
    assert forall|k: int| 0 <= k < 8 implies w[offset + k] == le64(val)[k] by {
        assert(w.subrange(offset, offset + 8)[k] == w[offset + k]);
    }
}

} // verus!
