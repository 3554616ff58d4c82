//! Import descriptors.

use super::types::{GlobalType, MemoryType, TableType};
use vstd::prelude::*;

verus! {

#[derive(Debug, Clone, PartialEq, Eq)]
/// An import of a module: where it comes from and what it is.
pub struct Import {
    /// Name of the module imported from.
    pub module: String,
    /// Name of the imported item.
    pub name: String,
    /// Kind and type of the imported item.
    pub kind: ImportKind,
}

#[derive(Debug, Clone, Copy, PartialEq, Eq, Structural)]
/// The kind and type of an import.
pub enum ImportKind {
    /// A function, with the index of its type.
    Func(u32),
    /// A table.
    Table(TableType),
    /// A memory.
    Memory(MemoryType),
    /// A global.
    Global(GlobalType),
}

#[derive(Debug, Clone, PartialEq, Eq)]
/// An import descriptor with its type.
pub struct ImportType {
    /// Name of the module imported from.
    pub module: String,
    /// Name of the imported item.
    pub name: String,
    /// Kind and type of the imported item.
    pub type_: ImportKind,
}

impl ImportType {
    /// Creates an import descriptor.
    pub fn new(module: String, name: String, kind: ImportKind) -> (t: Self)
        ensures
            t.module == module,
            t.name == name,
            t.type_ == kind,
    {
        Self { module, name, type_: kind }
    }
}

} // verus!
