//! Code generation for x86-64.

pub mod compiler;
pub mod emitter;
pub mod llvm_backend;
pub mod llvm_plan;
pub mod llvm_runtime;
pub mod regalloc;
pub mod runtime;

pub use emitter::{Address, Condition, Emitter, MemOffset, Reg, XmmReg};
pub use compiler::JitCompiler;
pub use regalloc::{LinearScanAllocator, LiveInterval, ValueLoc};
pub use runtime::JitCodeCache;
