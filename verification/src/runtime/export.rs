//! Export descriptors.

use vstd::prelude::*;

verus! {

#[derive(Debug, Clone, PartialEq, Eq)]
/// An exported WebAssembly entity: its name and kind.
pub struct ExportType {
    /// The name of the export.
    pub name: String,
    /// The kind of the export (function, table, memory, global, or tag).
    pub kind: ExportKind,
}

#[derive(Debug, Clone, Copy, PartialEq, Eq, Structural)]
/// The kind of an export, with the index into its index space.
pub enum ExportKind {
    /// A function export.
    Func(u32),
    /// A table export.
    Table(u32),
    /// A memory export.
    Memory(u32),
    /// A global export.
    Global(u32),
    /// A tag export.
    Tag(u32),
}

impl ExportType {
    /// Creates a function export descriptor.
    pub fn new_func(name: String, idx: u32) -> (e: Self)
        ensures
            e.name == name,
            e.kind == ExportKind::Func(idx),
    {
        Self { name, kind: ExportKind::Func(idx) }
    }

    /// Creates a table export descriptor.
    pub fn new_table(name: String, idx: u32) -> (e: Self)
        ensures
            e.name == name,
            e.kind == ExportKind::Table(idx),
    {
        Self { name, kind: ExportKind::Table(idx) }
    }

    /// Creates a memory export descriptor.
    pub fn new_memory(name: String, idx: u32) -> (e: Self)
        ensures
            e.name == name,
            e.kind == ExportKind::Memory(idx),
    {
        Self { name, kind: ExportKind::Memory(idx) }
    }

    /// Creates a global export descriptor.
    pub fn new_global(name: String, idx: u32) -> (e: Self)
        ensures
            e.name == name,
            e.kind == ExportKind::Global(idx),
    {
        Self { name, kind: ExportKind::Global(idx) }
    }

    /// Creates a tag export descriptor.
    pub fn new_tag(name: String, idx: u32) -> (e: Self)
        ensures
            e.name == name,
            e.kind == ExportKind::Tag(idx),
    {
        Self { name, kind: ExportKind::Tag(idx) }
    }
}

} // verus!
