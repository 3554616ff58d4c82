//! Error and trap types of the runtime.

use vstd::prelude::*;
use vstd::string::StringExecFns;

verus! {

/// Result type alias for WebAssembly operations.
pub type Result<T> = core::result::Result<T, WasmError>;

#[derive(Debug, Clone, Copy, PartialEq, Eq, Structural)]
/// WebAssembly trap codes: the reason a WebAssembly execution trapped.
pub enum TrapCode {
    /// Execution reached an unreachable instruction.
    Unreachable,
    /// Memory access outside bounds.
    MemoryOutOfBounds,
    /// Memory growth exceeded maximum.
    MemoryLimitExceeded,
    /// Table access outside bounds.
    TableOutOfBounds,
    /// Indirect call type mismatch.
    IndirectCallTypeMismatch,
    /// Stack overflow.
    StackOverflow,
    /// Execution budget exceeded (metering).
    ExecutionBudgetExceeded,
    /// Integer overflow in arithmetic operation.
    IntegerOverflow,
    /// Integer division by zero.
    IntegerDivisionByZero,
    /// Invalid conversion to integer (e.g., NaN).
    InvalidConversionToInt,
    /// Call indirect on null table entry.
    CallIndirectNull,
    /// Null reference used where non-null required.
    NullReference,
    /// Trap triggered by host.
    HostTrap,
}

impl TrapCode {
    /// The name of a trap code, as its `Debug` form prints it.
    pub open spec fn spec_name(self) -> Seq<char> {
        match self {
            TrapCode::Unreachable => "Unreachable"@,
            TrapCode::MemoryOutOfBounds => "MemoryOutOfBounds"@,
            TrapCode::MemoryLimitExceeded => "MemoryLimitExceeded"@,
            TrapCode::TableOutOfBounds => "TableOutOfBounds"@,
            TrapCode::IndirectCallTypeMismatch => "IndirectCallTypeMismatch"@,
            TrapCode::StackOverflow => "StackOverflow"@,
            TrapCode::ExecutionBudgetExceeded => "ExecutionBudgetExceeded"@,
            TrapCode::IntegerOverflow => "IntegerOverflow"@,
            TrapCode::IntegerDivisionByZero => "IntegerDivisionByZero"@,
            TrapCode::InvalidConversionToInt => "InvalidConversionToInt"@,
            TrapCode::CallIndirectNull => "CallIndirectNull"@,
            TrapCode::NullReference => "NullReference"@,
            TrapCode::HostTrap => "HostTrap"@,
        }
    }

    /// Returns the name of this trap code.
    pub fn name(&self) -> (s: &'static str)
        ensures
            s@ == self.spec_name(),
    {
        match self {
            TrapCode::Unreachable => "Unreachable",
            TrapCode::MemoryOutOfBounds => "MemoryOutOfBounds",
            TrapCode::MemoryLimitExceeded => "MemoryLimitExceeded",
            TrapCode::TableOutOfBounds => "TableOutOfBounds",
            TrapCode::IndirectCallTypeMismatch => "IndirectCallTypeMismatch",
            TrapCode::StackOverflow => "StackOverflow",
            TrapCode::ExecutionBudgetExceeded => "ExecutionBudgetExceeded",
            TrapCode::IntegerOverflow => "IntegerOverflow",
            TrapCode::IntegerDivisionByZero => "IntegerDivisionByZero",
            TrapCode::InvalidConversionToInt => "InvalidConversionToInt",
            TrapCode::CallIndirectNull => "CallIndirectNull",
            TrapCode::NullReference => "NullReference",
            TrapCode::HostTrap => "HostTrap",
        }
    }
}

#[derive(Debug, Clone, Copy, PartialEq, Eq, Structural)]
/// Why an execution was suspended.
pub enum SuspensionKind {
    /// The execution stopped at a requested safepoint.
    Safepoint,
}

#[derive(Debug, Clone, PartialEq, Eq)]
/// Errors that can occur during validation, loading, instantiation, or
/// execution of WebAssembly modules.
pub enum WasmError {
    /// Module validation failed.
    Validation(String),
    /// Module loading failed.
    Load(String),
    /// Module instantiation failed.
    Instantiate(String),
    /// Runtime error during execution.
    Runtime(String),
    /// Execution trapped.
    Trap(TrapCode),
    /// Execution was suspended and can be resumed.
    Suspended(SuspensionKind),
    /// Other error.
    Other(String),
}

/// The text by which an error is displayed.
pub open spec fn error_text(e: WasmError) -> Seq<char> {
    match e {
        WasmError::Validation(msg) => "Validation error: "@ + msg@,
        WasmError::Load(msg) => "Load error: "@ + msg@,
        WasmError::Instantiate(msg) => "Instantiate error: "@ + msg@,
        WasmError::Runtime(msg) => "Runtime error: "@ + msg@,
        WasmError::Trap(code) => "Trap: "@ + code.spec_name(),
        WasmError::Suspended(_) => "Execution suspended: Safepoint"@,
        WasmError::Other(msg) => "Error: "@ + msg@,
    }
}

impl WasmError {
    /// Returns the text by which this error is displayed.
    pub fn display_string(&self) -> (s: String)
        ensures
            s@ == error_text(*self),
    {
        match self {
            WasmError::Validation(msg) => {
                let mut s = String::from_str("Validation error: ");
                s.append(msg.as_str());
                s
            },
            WasmError::Load(msg) => {
                let mut s = String::from_str("Load error: ");
                s.append(msg.as_str());
                s
            },
            WasmError::Instantiate(msg) => {
                let mut s = String::from_str("Instantiate error: ");
                s.append(msg.as_str());
                s
            },
            WasmError::Runtime(msg) => {
                let mut s = String::from_str("Runtime error: ");
                s.append(msg.as_str());
                s
            },
            WasmError::Trap(code) => {
                let mut s = String::from_str("Trap: ");
                s.append(code.name());
                s
            },
            WasmError::Suspended(_) => String::from_str("Execution suspended: Safepoint"),
            WasmError::Other(msg) => {
                let mut s = String::from_str("Error: ");
                s.append(msg.as_str());
                s
            },
        }
    }
}

} // verus!
