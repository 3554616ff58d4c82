//! A small WebAssembly runtime: binary loader, runtime data model, and an
//! x86-64 baseline code generator, with contracts checked by Verus.

pub mod bytes;
pub mod jit;
pub mod runtime;
pub mod text;
pub mod leb128;
pub mod loader;
pub mod memory;
pub mod signal_handler;
