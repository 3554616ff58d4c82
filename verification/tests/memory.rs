//! Checks of linear memory.

use wasmtiny::memory::Memory;
use wasmtiny::runtime::{InstanceLimits, Limits, MemoryType, WasmError};

#[test]
fn test_memory_creation() {
    let mem_type = MemoryType::new(Limits::Min(1));
    let mem = Memory::new(mem_type);
    assert_eq!(mem.size(), 1);
}

#[test]
fn test_memory_grow() {
    let mut mem = Memory::new(MemoryType::new(Limits::Min(1)));
    assert_eq!(mem.size(), 1);
    let old = mem.grow(1).unwrap();
    assert_eq!(old, 1);
    assert_eq!(mem.size(), 2);
}

#[test]
fn test_memory_read_write() {
    let mut mem = Memory::new(MemoryType::new(Limits::Min(1)));
    mem.write_i32(0, 42).unwrap();
    assert_eq!(mem.read_i32(0).unwrap(), 42);
}

#[test]
fn test_memory_out_of_bounds() {
    let mem = Memory::new(MemoryType::new(Limits::Min(1)));
    assert!(mem.read(65536, &mut [0]).is_err());
}

#[test]
fn test_memory_zero_length_access_at_end_is_allowed() {
    let mut mem = Memory::new(MemoryType::new(Limits::Min(1)));
    let mut empty = [];

    mem.read(65536, &mut empty).unwrap();
    mem.write(65536, &[]).unwrap();
}

#[test]
fn read_gives_back_what_write_wrote() {
    let mut mem = Memory::new(MemoryType::new(Limits::Min(1)));
    mem.write(100, &[1, 2, 3]).unwrap();
    let mut buf = [0u8; 5];
    mem.read(99, &mut buf).unwrap();
    assert_eq!(buf, [0, 1, 2, 3, 0]);
    mem.write_u64(65528, 0x0102_0304_0506_0708).unwrap();
    assert_eq!(mem.read_u64(65528).unwrap(), 0x0102_0304_0506_0708);
    assert_eq!(mem.read_u8(65528).unwrap(), 8);
    assert!(mem.write_u64(65529, 1).is_err());
    mem.write_i64(8, -3).unwrap();
    assert_eq!(mem.read_i64(8).unwrap(), -3);
    mem.write_u32(16, 7).unwrap();
    assert_eq!(mem.read_u32(16).unwrap(), 7);
    mem.write_u8(20, 9).unwrap();
    assert_eq!(mem.data()[20], 9);
    assert_eq!(mem.len_bytes(), 65536);
}

#[test]
fn grow_respects_maximum_and_meters() {
    let mut mem = Memory::new(MemoryType::new(Limits::MinMax(1, 2)));
    assert_eq!(mem.grow(1).unwrap(), 1);
    assert!(mem.grow(1).is_err());
    assert_eq!(mem.size(), 2);
    let mut mem = Memory::new(MemoryType::new(Limits::Min(1)));
    let limits = [InstanceLimits::new(None, Some(2))];
    assert_eq!(mem.grow_within(1, &limits).unwrap(), 1);
    assert!(mem.grow_within(1, &limits).is_err());
    assert_eq!(mem.size(), 2);
    assert_eq!(mem.grow(0).unwrap(), 2);
}

#[test]
fn refused_grows_name_the_limit_they_pass() {
    let mut mem = Memory::new(MemoryType::new(Limits::MinMax(1, 2)));
    assert_eq!(mem.grow(2), Err(WasmError::Runtime("memory size exceeds maximum".to_string())));
    assert_eq!(mem.size(), 1);
    let mut mem = Memory::new(MemoryType::new(Limits::Min(1)));
    assert_eq!(mem.grow(65536), Err(WasmError::Runtime("memory size exceeds maximum allowed".to_string())));
    assert_eq!(mem.size(), 1);
    assert_eq!(mem.grow(1), Ok(1));
    assert_eq!(mem.size(), 2);
}
