//! Core runtime types: value and type descriptors, modules, errors.

pub mod error;
pub mod export;
pub mod import;
pub mod instance;
pub mod metering;
pub mod module;
pub mod shared_memory;
pub mod snapshot;
pub mod suspend;
pub mod types;
pub mod values;

pub use error::{Result, SuspensionKind, TrapCode, WasmError};
pub use export::{ExportKind, ExportType};
pub use import::{Import, ImportKind, ImportType};
pub use module::{DataKind, DataSegment, ElemKind, ElemSegment, Func, Local, Module, NameSection};
pub use types::{FunctionType, GlobalType, Limits, MemoryType, NumType, RefType, TableType, ValType};
pub use values::WasmValue;
pub use metering::{InstanceLimits, InstanceMeter, InstanceStats};
pub use snapshot::{
    capture_snapshot, restore_snapshot, validate_snapshot_compatibility, Global, SnapshotError, SnapshotPayload, Table,
    SNAPSHOT_FORMAT_VERSION,
};
pub use suspend::{
    is_suspension_error, ControlStack, ExecutionEngine, InterpreterState, JitState, OperandStack,
    RuntimeSuspender, SuspendedHandle, SuspendedInstance, SuspensionError, SuspensionState,
};
pub use shared_memory::{SharedRegionId, SharedRegionTable};
pub use instance::Extern;
