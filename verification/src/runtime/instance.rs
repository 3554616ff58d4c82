//! What an instance exports: references into its index spaces.

use vstd::prelude::*;

verus! {

#[derive(Debug, Clone, Copy, PartialEq, Eq, Structural)]
/// An exported item of an instance, by its index in its index space.
pub enum Extern {
    /// A function.
    Func(u32),
    /// A table.
    Table(u32),
    /// A linear memory.
    Memory(u32),
    /// A global.
    Global(u32),
}

} // verus!
