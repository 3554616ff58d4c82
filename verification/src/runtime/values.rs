//! Runtime values and their byte serialisation.
//!
//! Floating-point values are held as their IEEE 754 bit patterns: the
//! runtime moves them around and serialises them, it never computes on them.

use super::error::{Result, WasmError};
use super::types::{NumType, RefType, ValType};
use crate::bytes::{le32, le64, lemma_le32_roundtrip, lemma_le64_roundtrip, push_u32_le, push_u64_le, read_u32_at, read_u64_at, u32_at, u64_at};
use vstd::prelude::*;
use vstd::string::StringExecFns;

verus! {

#[derive(Debug, Clone, Copy, PartialEq, Eq, Structural)]
/// A WebAssembly value.
pub enum WasmValue {
    /// A 32-bit integer.
    I32(i32),
    /// A 64-bit integer.
    I64(i64),
    /// A 32-bit float, by its bit pattern.
    F32(u32),
    /// A 64-bit float, by its bit pattern.
    F64(u64),
    /// A null reference of the given type.
    NullRef(RefType),
    /// A function reference.
    FuncRef(u32),
    /// An external reference.
    ExternRef(u32),
}

/// The type of a value.
pub open spec fn value_type(v: WasmValue) -> ValType {
    match v {
        WasmValue::I32(_) => ValType::Num(NumType::I32),
        WasmValue::I64(_) => ValType::Num(NumType::I64),
        WasmValue::F32(_) => ValType::Num(NumType::F32),
        WasmValue::F64(_) => ValType::Num(NumType::F64),
        WasmValue::NullRef(rt) => ValType::Ref(rt),
        WasmValue::FuncRef(_) => ValType::Ref(RefType::FuncRef),
        WasmValue::ExternRef(_) => ValType::Ref(RefType::ExternRef),
    }
}

/// The serialised form of a value: a tag byte, then the payload in little-endian order.
pub open spec fn encode_value(v: WasmValue) -> Seq<u8> {
    match v {
        WasmValue::I32(x) => seq![0u8] + le32(x as u32),
        WasmValue::I64(x) => seq![1u8] + le64(x as u64),
        WasmValue::F32(b) => seq![2u8] + le32(b),
        WasmValue::F64(b) => seq![3u8] + le64(b),
        WasmValue::NullRef(rt) => seq![4u8, rt.spec_to_u8()],
        WasmValue::FuncRef(i) => seq![5u8] + le32(i),
        WasmValue::ExternRef(i) => seq![6u8] + le32(i),
    }
}

/// The value serialised at the start of `s`, with the number of bytes it
/// takes, if `s` starts with one.
pub open spec fn decode_value(s: Seq<u8>) -> Option<(WasmValue, int)> {
    if s.len() == 0 {
        None
    } else if s[0] == 0 && s.len() >= 5 {
        Some((WasmValue::I32(u32_at(s, 1) as i32), 5))
    } else if s[0] == 1 && s.len() >= 9 {
        Some((WasmValue::I64(u64_at(s, 1) as i64), 9))
    } else if s[0] == 2 && s.len() >= 5 {
        Some((WasmValue::F32(u32_at(s, 1)), 5))
    } else if s[0] == 3 && s.len() >= 9 {
        Some((WasmValue::F64(u64_at(s, 1)), 9))
    } else if s[0] == 4 && s.len() >= 2 {
        Some((WasmValue::NullRef(RefType::spec_from_u8(s[1])), 2))
    } else if s[0] == 5 && s.len() >= 5 {
        Some((WasmValue::FuncRef(u32_at(s, 1)), 5))
    } else if s[0] == 6 && s.len() >= 5 {
        Some((WasmValue::ExternRef(u32_at(s, 1)), 5))
    } else {
        None
    }
}

/// Decoding the serialised form of a value, whatever follows it, gives the
/// value back and the length of its form.
pub proof fn lemma_value_roundtrip(v: WasmValue, rest: Seq<u8>)
    ensures
        decode_value(encode_value(v) + rest) == Some((v, encode_value(v).len() as int)),
{
    let s = encode_value(v) + rest;
    match v {
        WasmValue::I32(x) => {
            lemma_le32_roundtrip(x as u32);
            assert(u32_at(s, 1) == u32_at(le32(x as u32), 0));
            assert((x as u32) as i32 == x) by (bit_vector);
        },
        WasmValue::I64(x) => {
            lemma_le64_roundtrip(x as u64);
            assert(u64_at(s, 1) == u64_at(le64(x as u64), 0));
            assert((x as u64) as i64 == x) by (bit_vector);
        },
        WasmValue::F32(b) => {
            lemma_le32_roundtrip(b);
            assert(u32_at(s, 1) == u32_at(le32(b), 0));
        },
        WasmValue::F64(b) => {
            lemma_le64_roundtrip(b);
            assert(u64_at(s, 1) == u64_at(le64(b), 0));
        },
        WasmValue::NullRef(rt) => {
            assert(s[1] == rt.spec_to_u8());
        },
        WasmValue::FuncRef(i) => {
            lemma_le32_roundtrip(i);
            assert(u32_at(s, 1) == u32_at(le32(i), 0));
        },
        WasmValue::ExternRef(i) => {
            lemma_le32_roundtrip(i);
            assert(u32_at(s, 1) == u32_at(le32(i), 0));
        },
    }
}

impl WasmValue {
    /// Returns the type of this value.
    pub fn val_type(&self) -> (t: ValType)
        ensures
            t == value_type(*self),
    {
        match self {
            WasmValue::I32(_) => ValType::Num(NumType::I32),
            WasmValue::I64(_) => ValType::Num(NumType::I64),
            WasmValue::F32(_) => ValType::Num(NumType::F32),
            WasmValue::F64(_) => ValType::Num(NumType::F64),
            WasmValue::NullRef(ref_type) => ValType::Ref(*ref_type),
            WasmValue::FuncRef(_) => ValType::Ref(RefType::FuncRef),
            WasmValue::ExternRef(_) => ValType::Ref(RefType::ExternRef),
        }
    }

    /// Returns the integer of an `i32` value.
    pub fn i32(&self) -> (r: Result<i32>)
        ensures
            match *self {
                WasmValue::I32(v) => r == Ok::<i32, WasmError>(v),
                _ => r matches Err(WasmError::Runtime(m)) && m@ == "expected i32"@,
            },
    {
        match self {
            WasmValue::I32(v) => Ok(*v),
            _ => Err(WasmError::Runtime(String::from_str("expected i32"))),
        }
    }

    /// Returns the integer of an `i64` value.
    pub fn i64(&self) -> (r: Result<i64>)
        ensures
            match *self {
                WasmValue::I64(v) => r == Ok::<i64, WasmError>(v),
                _ => r matches Err(WasmError::Runtime(m)) && m@ == "expected i64"@,
            },
    {
        match self {
            WasmValue::I64(v) => Ok(*v),
            _ => Err(WasmError::Runtime(String::from_str("expected i64"))),
        }
    }

    /// Returns the bit pattern of an `f32` value.
    pub fn f32_bits(&self) -> (r: Result<u32>)
        ensures
            match *self {
                WasmValue::F32(v) => r == Ok::<u32, WasmError>(v),
                _ => r matches Err(WasmError::Runtime(m)) && m@ == "expected f32"@,
            },
    {
        match self {
            WasmValue::F32(v) => Ok(*v),
            _ => Err(WasmError::Runtime(String::from_str("expected f32"))),
        }
    }

    /// Returns the bit pattern of an `f64` value.
    pub fn f64_bits(&self) -> (r: Result<u64>)
        ensures
            match *self {
                WasmValue::F64(v) => r == Ok::<u64, WasmError>(v),
                _ => r matches Err(WasmError::Runtime(m)) && m@ == "expected f64"@,
            },
    {
        match self {
            WasmValue::F64(v) => Ok(*v),
            _ => Err(WasmError::Runtime(String::from_str("expected f64"))),
        }
    }

    /// Appends the serialised form of this value.
    pub fn to_bytes(&self, out: &mut Vec<u8>)
        ensures
            final(out)@ == old(out)@ + encode_value(*self),
    {
        match self {
            WasmValue::I32(v) => {
                out.push(0);
                push_u32_le(out, *v as u32);
            },
            WasmValue::I64(v) => {
                out.push(1);
                push_u64_le(out, *v as u64);
            },
            WasmValue::F32(v) => {
                out.push(2);
                push_u32_le(out, *v);
            },
            WasmValue::F64(v) => {
                out.push(3);
                push_u64_le(out, *v);
            },
            WasmValue::NullRef(rt) => {
                out.push(4);
                out.push(rt.to_u8());
            },
            WasmValue::FuncRef(idx) => {
                out.push(5);
                push_u32_le(out, *idx);
            },
            WasmValue::ExternRef(idx) => {
                out.push(6);
                push_u32_le(out, *idx);
            },
        }
        proof {
            assert(out@ =~= old(out)@ + encode_value(*self));
        }
    }

    /// Reads a value from the start of `bytes`, with the number of bytes it takes.
    pub fn from_bytes(bytes: &[u8]) -> (r: Option<(Self, usize)>)
        ensures
            match decode_value(bytes@) {
                Some((v, n)) => r == Some((v, n as usize)),
                None => r is None,
            },
    {
        if bytes.len() == 0 {
            return None;
        }
        let tag = bytes[0];
        let n = bytes.len();
        if tag == 0 && n >= 5 {
            Some((WasmValue::I32(read_u32_at(bytes, 1) as i32), 5))
        } else if tag == 1 && n >= 9 {
            Some((WasmValue::I64(read_u64_at(bytes, 1) as i64), 9))
        } else if tag == 2 && n >= 5 {
            Some((WasmValue::F32(read_u32_at(bytes, 1)), 5))
        } else if tag == 3 && n >= 9 {
            Some((WasmValue::F64(read_u64_at(bytes, 1)), 9))
        } else if tag == 4 && n >= 2 {
            Some((WasmValue::NullRef(RefType::from_u8(bytes[1])), 2))
        } else if tag == 5 && n >= 5 {
            Some((WasmValue::FuncRef(read_u32_at(bytes, 1)), 5))
        } else if tag == 6 && n >= 5 {
            Some((WasmValue::ExternRef(read_u32_at(bytes, 1)), 5))
        } else {
            None
        }
    }
}

} // verus!
