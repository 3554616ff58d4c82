//! WebAssembly type descriptors.

use vstd::prelude::*;

verus! {

#[derive(Debug, Clone, Copy, PartialEq, Eq, Hash, Structural)]
/// Numeric value types.
pub enum NumType {
    /// 32-bit integer.
    I32,
    /// 64-bit integer.
    I64,
    /// 32-bit float.
    F32,
    /// 64-bit float.
    F64,
}

#[derive(Debug, Clone, Copy, PartialEq, Eq, Hash, Structural)]
/// Reference types.
pub enum RefType {
    /// A function reference.
    FuncRef,
    /// An external (host) reference.
    ExternRef,
}

impl RefType {
    /// The one-byte tag of a reference type in serialised values.
    pub open spec fn spec_to_u8(self) -> u8 {
        match self {
            RefType::FuncRef => 0,
            RefType::ExternRef => 1,
        }
    }

    /// The reference type that a serialised tag stands for.
    pub open spec fn spec_from_u8(b: u8) -> RefType {
        if b == 0 {
            RefType::FuncRef
        } else {
            RefType::ExternRef
        }
    }

    /// Returns the one-byte tag of this reference type.
    #[verifier::when_used_as_spec(spec_to_u8)]
    pub fn to_u8(self) -> (b: u8)
        ensures
            b == self.spec_to_u8(),
    {
        match self {
            RefType::FuncRef => 0,
            RefType::ExternRef => 1,
        }
    }

    /// Returns the reference type for a serialised tag: 0 is `FuncRef`,
    /// every other byte `ExternRef`.
    pub fn from_u8(b: u8) -> (r: RefType)
        ensures
            r == RefType::spec_from_u8(b),
    {
        if b == 0 {
            RefType::FuncRef
        } else {
            RefType::ExternRef
        }
    }
}

#[derive(Debug, Clone, Copy, PartialEq, Eq, Hash, Structural)]
/// Value types.
pub enum ValType {
    /// A numeric type.
    Num(NumType),
    /// A reference type.
    Ref(RefType),
}

/// The byte by which the binary format encodes a value type.
pub open spec fn val_type_code(t: ValType) -> u8 {
    match t {
        ValType::Num(NumType::I32) => 0x7F,
        ValType::Num(NumType::I64) => 0x7E,
        ValType::Num(NumType::F32) => 0x7D,
        ValType::Num(NumType::F64) => 0x7C,
        ValType::Ref(RefType::FuncRef) => 0x70,
        ValType::Ref(RefType::ExternRef) => 0x6F,
    }
}

impl ValType {
    /// Returns the bytes that identify this type in a module fingerprint:
    /// its binary-format code.
    pub fn hash_bytes(&self) -> (v: Vec<u8>)
        ensures
            v@ == seq![val_type_code(*self)],
    {
        let code: u8 = match self {
            ValType::Num(NumType::I32) => 0x7F,
            ValType::Num(NumType::I64) => 0x7E,
            ValType::Num(NumType::F32) => 0x7D,
            ValType::Num(NumType::F64) => 0x7C,
            ValType::Ref(RefType::FuncRef) => 0x70,
            ValType::Ref(RefType::ExternRef) => 0x6F,
        };
        let mut v = Vec::new();
        v.push(code);
        v
    }
}

#[derive(Debug, Clone, Copy, PartialEq, Eq, Structural)]
/// Size limits of a memory or table.
pub enum Limits {
    /// A minimum and no maximum.
    Min(u32),
    /// A minimum and a maximum.
    MinMax(u32, u32),
}

impl Limits {
    /// The minimum of a limit.
    pub open spec fn spec_min(&self) -> u32 {
        match *self {
            Limits::Min(m) => m,
            Limits::MinMax(m, _) => m,
        }
    }

    /// The maximum of a limit, if any.
    pub open spec fn spec_max(&self) -> Option<u32> {
        match *self {
            Limits::Min(_) => None,
            Limits::MinMax(_, m) => Some(m),
        }
    }

    /// Returns the minimum.
    #[verifier::when_used_as_spec(spec_min)]
    pub fn min(&self) -> (m: u32)
        ensures
            m == self.spec_min(),
    {
        match self {
            Limits::Min(m) => *m,
            Limits::MinMax(m, _) => *m,
        }
    }

    /// Returns the maximum, if any.
    #[verifier::when_used_as_spec(spec_max)]
    pub fn max(&self) -> (m: Option<u32>)
        ensures
            m == self.spec_max(),
    {
        match self {
            Limits::Min(_) => None,
            Limits::MinMax(_, m) => Some(*m),
        }
    }
}

#[derive(Debug, Clone, Copy, PartialEq, Eq, Structural)]
/// Type of a linear memory.
pub struct MemoryType {
    /// Size limits in pages.
    pub limits: Limits,
}

impl MemoryType {
    /// Creates a memory type.
    pub fn new(limits: Limits) -> (t: Self)
        ensures
            t.limits == limits,
    {
        Self { limits }
    }
}

#[derive(Debug, Clone, Copy, PartialEq, Eq, Structural)]
/// Type of a table.
pub struct TableType {
    /// Element type.
    pub elem_type: RefType,
    /// Size limits in elements.
    pub limits: Limits,
}

impl TableType {
    /// Creates a table type.
    pub fn new(elem_type: RefType, limits: Limits) -> (t: Self)
        ensures
            t.elem_type == elem_type,
            t.limits == limits,
    {
        Self { elem_type, limits }
    }
}

#[derive(Debug, Clone, Copy, PartialEq, Eq, Structural)]
/// Type of a global.
pub struct GlobalType {
    /// Type of the value held.
    pub content_type: ValType,
    /// Whether the global can be written.
    pub mutable: bool,
}

impl GlobalType {
    /// Creates a global type.
    pub fn new(content_type: ValType, mutable: bool) -> (t: Self)
        ensures
            t.content_type == content_type,
            t.mutable == mutable,
    {
        Self { content_type, mutable }
    }
}

#[derive(Debug, Clone, PartialEq, Eq)]
/// A function signature.
pub struct FunctionType {
    /// Parameter types.
    pub params: Vec<ValType>,
    /// Result types.
    pub results: Vec<ValType>,
}

impl FunctionType {
    /// Creates a function type.
    pub fn new(params: Vec<ValType>, results: Vec<ValType>) -> (t: Self)
        ensures
            t.params@ == params@,
            t.results@ == results@,
    {
        Self { params, results }
    }

    /// Creates the type of a function without parameters or results.
    pub fn empty() -> (t: Self)
        ensures
            t.params@.len() == 0,
            t.results@.len() == 0,
    {
        Self { params: Vec::new(), results: Vec::new() }
    }
}

} // verus!
