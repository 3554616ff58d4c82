//! The execution context that compiled code reaches through runtime helpers,
//! and the arithmetic helpers that trap.
//!
//! The context records which module and memory the running code uses, who
//! owns the context, whether an execution is active or pinned by a
//! suspension, and the trap, runtime error and suspended handle that the
//! helpers leave behind. The first trap of an execution is the one reported.

use crate::runtime::error::{TrapCode, WasmError};
use crate::runtime::suspend::SuspendedHandle;
use crate::runtime::types::{NumType, ValType};
use crate::runtime::values::{value_type, WasmValue};
use vstd::prelude::*;
use vstd::string::StringExecFns;

verus! {

#[derive(Debug, Clone, Copy, PartialEq, Eq, Structural)]
/// The module that compiled code runs against: an identity of the module
/// object, its runtime identifier and the fingerprint of its contents.
pub struct ModuleBinding {
    /// Identity of the module object (two bindings with the same identity
    /// refer to the same module).
    pub handle: u64,
    /// The module's runtime identifier, used as the context identifier.
    pub context_id: u64,
    /// Fingerprint of the module's contents.
    pub fingerprint: u64,
}

/// The identity of an optional module.
pub open spec fn module_handle(m: Option<ModuleBinding>) -> Option<u64> {
    match m {
        Some(b) => Some(b.handle),
        None => None,
    }
}

#[derive(Debug)]
/// The per-thread state that runtime helpers of compiled code use.
pub struct LlvmRuntimeContext {
    /// The module the code runs against.
    pub module: Option<ModuleBinding>,
    /// The JIT that owns the context.
    pub owner_jit_id: Option<u64>,
    /// Whether compiled code is running.
    pub executing: bool,
    /// Length of the attached linear memory, if one is attached.
    pub memory: Option<usize>,
    /// The first trap raised since it was last cleared.
    pub trap: Option<TrapCode>,
    /// Whether safepoints may suspend the execution.
    pub safepoints_enabled: bool,
    /// Whether a suspension has been requested.
    pub suspend_requested: bool,
    /// The JIT of the current execution.
    pub jit_id: u64,
    /// The epoch of the current execution.
    pub execution_epoch: u64,
    /// The handle of an execution that a safepoint suspended.
    pub suspended_handle: Option<SuspendedHandle>,
    /// A runtime error a helper reported.
    pub runtime_error: Option<String>,
    /// Whether the context holds the module's execution flag.
    pub holds_execution_flag: bool,
    /// Whether the context is pinned by a suspended execution.
    pub execution_pinned: bool,
}

/// The context with nothing attached.
pub open spec fn is_blank(ctx: LlvmRuntimeContext) -> bool {
    &&& ctx.module is None
    &&& ctx.owner_jit_id is None
    &&& !ctx.executing
    &&& ctx.memory is None
    &&& ctx.trap is None
    &&& !ctx.safepoints_enabled
    &&& !ctx.suspend_requested
    &&& ctx.jit_id == 0
    &&& ctx.execution_epoch == 0
    &&& ctx.suspended_handle is None
    &&& ctx.runtime_error is None
    &&& !ctx.holds_execution_flag
    &&& !ctx.execution_pinned
}

/// The context after its module, owner, memory and suspended handle are
/// dropped and its execution flag released; trap, runtime error and
/// safepoint settings stay.
pub open spec fn detached(ctx: LlvmRuntimeContext) -> LlvmRuntimeContext {
    LlvmRuntimeContext {
        module: None,
        owner_jit_id: None,
        executing: false,
        memory: None,
        suspended_handle: None,
        holds_execution_flag: false,
        execution_pinned: false,
        ..ctx
    }
}

impl LlvmRuntimeContext {
    /// A context with nothing attached.
    pub fn new() -> (ctx: Self)
        ensures
            is_blank(ctx),
    {
        LlvmRuntimeContext {
            module: None,
            owner_jit_id: None,
            executing: false,
            memory: None,
            trap: None,
            safepoints_enabled: false,
            suspend_requested: false,
            jit_id: 0,
            execution_epoch: 0,
            suspended_handle: None,
            runtime_error: None,
            holds_execution_flag: false,
            execution_pinned: false,
        }
    }
}

impl Default for LlvmRuntimeContext {
    fn default() -> (ctx: Self)
        ensures
            is_blank(ctx),
    {
        LlvmRuntimeContext::new()
    }
}

/// Returns whether a module is attached.
pub fn has_execution_context(ctx: &LlvmRuntimeContext) -> (b: bool)
    ensures
        b == (ctx.module is Some),
{
    ctx.module.is_some()
}

/// Returns the identifier of the attached module, if any.
pub fn current_execution_context_id(ctx: &LlvmRuntimeContext) -> (r: Option<u64>)
    ensures
        r == match ctx.module {
            Some(b) => Some(b.context_id),
            None => None::<u64>,
        },
{
    match ctx.module {
        Some(b) => Some(b.context_id),
        None => None,
    }
}

/// Returns the fingerprint of the attached module, if any.
pub fn current_execution_module_fingerprint(ctx: &LlvmRuntimeContext) -> (r: Option<u64>)
    ensures
        r == match ctx.module {
            Some(b) => Some(b.fingerprint),
            None => None::<u64>,
        },
{
    match ctx.module {
        Some(b) => Some(b.fingerprint),
        None => None,
    }
}

/// Returns the JIT that owns the context, if any.
pub fn current_execution_owner_jit_id(ctx: &LlvmRuntimeContext) -> (r: Option<u64>)
    ensures
        r == ctx.owner_jit_id,
{
    ctx.owner_jit_id
}

/// Drops the module, owner, memory and suspended handle and releases the
/// execution flag.
fn detach(ctx: &mut LlvmRuntimeContext)
    ensures
        *final(ctx) == detached(*old(ctx)),
{
    ctx.module = None;
    ctx.owner_jit_id = None;
    ctx.executing = false;
    ctx.memory = None;
    ctx.suspended_handle = None;
    ctx.holds_execution_flag = false;
    ctx.execution_pinned = false;
}

/// Clears the execution context, unless a suspended execution pins it.
/// Returns whether it was cleared (and its execution flag, if held, is to be
/// lowered).
pub fn clear_execution_context(ctx: &mut LlvmRuntimeContext) -> (cleared: bool)
    ensures
        cleared == !old(ctx).execution_pinned,
        cleared ==> *final(ctx) == detached(*old(ctx)),
        !cleared ==> *final(ctx) == *old(ctx),
{
    if ctx.execution_pinned {
        return false;
    }
    detach(ctx);
    true
}

/// Clears the execution context if `owner_jit_id` owns it and it is not
/// pinned, or pinned but `force` is set. Returns whether it was cleared.
pub fn clear_execution_context_for_owner(
    ctx: &mut LlvmRuntimeContext,
    owner_jit_id: u64,
    force: bool,
) -> (cleared: bool)
    ensures
        cleared == (old(ctx).owner_jit_id == Some(owner_jit_id) && (!old(ctx).execution_pinned
            || force)),
        cleared ==> *final(ctx) == detached(*old(ctx)),
        !cleared ==> *final(ctx) == *old(ctx),
{
    if ctx.owner_jit_id != Some(owner_jit_id) {
        return false;
    }
    if ctx.execution_pinned && !force {
        return false;
    }
    detach(ctx);
    true
}

/// Pins or unpins the context, if `owner_jit_id` owns it.
pub fn set_execution_context_pinned_for_owner(
    ctx: &mut LlvmRuntimeContext,
    owner_jit_id: u64,
    pinned: bool,
)
    ensures
        old(ctx).owner_jit_id == Some(owner_jit_id) ==> *final(ctx) == (LlvmRuntimeContext {
            execution_pinned: pinned,
            ..*old(ctx)
        }),
        old(ctx).owner_jit_id != Some(owner_jit_id) ==> *final(ctx) == *old(ctx),
{
    if ctx.owner_jit_id != Some(owner_jit_id) {
        return;
    }
    ctx.execution_pinned = pinned;
}

/// Clears the trap and the runtime error.
pub fn clear_trap(ctx: &mut LlvmRuntimeContext)
    ensures
        *final(ctx) == (LlvmRuntimeContext { trap: None, runtime_error: None, ..*old(ctx) }),
{
    ctx.trap = None;
    ctx.runtime_error = None;
}

/// Configures safepoints for an execution that starts now.
pub fn configure_safepoints(
    ctx: &mut LlvmRuntimeContext,
    enabled: bool,
    requested: bool,
    jit_id: u64,
    execution_epoch: u64,
)
    ensures
        *final(ctx) == (LlvmRuntimeContext {
            safepoints_enabled: enabled,
            suspend_requested: requested,
            jit_id,
            execution_epoch,
            executing: true,
            suspended_handle: None,
            runtime_error: None,
            ..*old(ctx)
        }),
{
    ctx.safepoints_enabled = enabled;
    ctx.suspend_requested = requested;
    ctx.jit_id = jit_id;
    ctx.execution_epoch = execution_epoch;
    ctx.executing = true;
    ctx.suspended_handle = None;
    ctx.runtime_error = None;
}

/// Takes the handle of a suspended execution, if there is one.
pub fn take_suspended_handle(ctx: &mut LlvmRuntimeContext) -> (r: Option<SuspendedHandle>)
    ensures
        r == old(ctx).suspended_handle,
        *final(ctx) == (LlvmRuntimeContext { suspended_handle: None, ..*old(ctx) }),
{
    ctx.suspended_handle.take()
}

/// Takes the runtime error, if there is one.
pub fn take_runtime_error(ctx: &mut LlvmRuntimeContext) -> (r: Option<String>)
    ensures
        r == old(ctx).runtime_error,
        *final(ctx) == (LlvmRuntimeContext { runtime_error: None, ..*old(ctx) }),
{
    ctx.runtime_error.take()
}

/// Takes the trap, if there is one.
pub fn take_trap(ctx: &mut LlvmRuntimeContext) -> (r: Option<TrapCode>)
    ensures
        r == old(ctx).trap,
        *final(ctx) == (LlvmRuntimeContext { trap: None, ..*old(ctx) }),
{
    ctx.trap.take()
}

/// The context after a trap is raised: it is recorded unless one already is.
pub open spec fn trapped(ctx: LlvmRuntimeContext, code: TrapCode) -> LlvmRuntimeContext {
    LlvmRuntimeContext {
        trap: if ctx.trap is None {
            Some(code)
        } else {
            ctx.trap
        },
        ..ctx
    }
}

/// Records a trap, unless one is already recorded.
pub fn set_trap(ctx: &mut LlvmRuntimeContext, code: TrapCode)
    ensures
        *final(ctx) == trapped(*old(ctx), code),
{
    if ctx.trap.is_none() {
        ctx.trap = Some(code);
    }
}

/// Records a runtime error, replacing any earlier one.
pub fn set_runtime_error(ctx: &mut LlvmRuntimeContext, message: String)
    ensures
        *final(ctx) == (LlvmRuntimeContext { runtime_error: Some(message), ..*old(ctx) }),
{
    ctx.runtime_error = Some(message);
}

/// The number by which compiled code sees a trap.
pub open spec fn trap_number(code: TrapCode) -> i32 {
    match code {
        TrapCode::Unreachable => 1,
        TrapCode::MemoryOutOfBounds => 2,
        TrapCode::MemoryLimitExceeded => 3,
        TrapCode::TableOutOfBounds => 4,
        TrapCode::IndirectCallTypeMismatch => 5,
        TrapCode::StackOverflow => 6,
        TrapCode::ExecutionBudgetExceeded => 7,
        TrapCode::IntegerOverflow => 8,
        TrapCode::IntegerDivisionByZero => 9,
        TrapCode::InvalidConversionToInt => 10,
        TrapCode::CallIndirectNull => 11,
        TrapCode::NullReference => 12,
        TrapCode::HostTrap => 13,
    }
}

/// Returns the number by which compiled code sees a trap.
pub fn trap_code_to_i32(code: TrapCode) -> (n: i32)
    ensures
        n == trap_number(code),
{
    match code {
        TrapCode::Unreachable => 1,
        TrapCode::MemoryOutOfBounds => 2,
        TrapCode::MemoryLimitExceeded => 3,
        TrapCode::TableOutOfBounds => 4,
        TrapCode::IndirectCallTypeMismatch => 5,
        TrapCode::StackOverflow => 6,
        TrapCode::ExecutionBudgetExceeded => 7,
        TrapCode::IntegerOverflow => 8,
        TrapCode::IntegerDivisionByZero => 9,
        TrapCode::InvalidConversionToInt => 10,
        TrapCode::CallIndirectNull => 11,
        TrapCode::NullReference => 12,
        TrapCode::HostTrap => 13,
    }
}

/// Returns the number of the recorded trap, or 0 without one.
pub fn llvm_jit_has_trap(ctx: &LlvmRuntimeContext) -> (n: i32)
    ensures
        n == match ctx.trap {
            Some(code) => trap_number(code),
            None => 0,
        },
{
    match ctx.trap {
        Some(code) => trap_code_to_i32(code),
        None => 0,
    }
}

/// Decides whether an execution context may be replaced by one for `module`
/// owned by `owner_jit_id`: `Ok(true)` when the context is pinned by a
/// suspension of the same owner and module (it is refreshed in place),
/// `Ok(false)` when it is replaced, and an error when a pinned, active or
/// differently owned context stands in the way.
pub fn check_context_replacement(
    ctx: &LlvmRuntimeContext,
    module: Option<ModuleBinding>,
    owner_jit_id: Option<u64>,
) -> (r: Result<bool, WasmError>)
    ensures
        ctx.execution_pinned ==> (if ctx.owner_jit_id == owner_jit_id && module_handle(ctx.module)
            == module_handle(module) {
            r == Ok::<bool, WasmError>(true)
        } else {
            r matches Err(WasmError::Runtime(m))
                && m@ == "cannot replace execution context while JIT execution is suspended"@
        }),
        !ctx.execution_pinned && ctx.executing ==> (r matches Err(WasmError::Runtime(m)) && m@
            == "cannot replace execution context while JIT execution is active"@),
        !ctx.execution_pinned && !ctx.executing && ctx.owner_jit_id is Some && ctx.owner_jit_id
            != owner_jit_id ==> (r matches Err(WasmError::Runtime(m)) && m@
            == "cannot replace execution context owned by a different JIT"@),
        !ctx.execution_pinned && !ctx.executing && (ctx.owner_jit_id is None || ctx.owner_jit_id
            == owner_jit_id) ==> r == Ok::<bool, WasmError>(false),
{
    let same_owner = ctx.owner_jit_id == owner_jit_id;
    let same_module = match (ctx.module, module) {
        (Some(a), Some(b)) => a.handle == b.handle,
        (None, None) => true,
        _ => false,
    };
    if ctx.execution_pinned {
        if same_owner && same_module {
            return Ok(true);
        }
        proof {
            reveal_strlit("cannot replace execution context while JIT execution is suspended");
        }
        return Err(
            WasmError::Runtime(
                String::from_str(
                    "cannot replace execution context while JIT execution is suspended",
                ),
            ),
        );
    }
    if ctx.executing {
        proof {
            reveal_strlit("cannot replace execution context while JIT execution is active");
        }
        return Err(
            WasmError::Runtime(
                String::from_str("cannot replace execution context while JIT execution is active"),
            ),
        );
    }
    if ctx.owner_jit_id.is_some() && !same_owner {
        proof {
            reveal_strlit("cannot replace execution context owned by a different JIT");
        }
        return Err(
            WasmError::Runtime(
                String::from_str("cannot replace execution context owned by a different JIT"),
            ),
        );
    }
    Ok(false)
}

/// Refreshes a pinned context in place for its module: new identifiers and
/// memory, and no trap, suspended handle or runtime error.
pub fn refresh_pinned_context(
    ctx: &mut LlvmRuntimeContext,
    module: Option<ModuleBinding>,
    memory: Option<usize>,
)
    ensures
        *final(ctx) == (LlvmRuntimeContext {
            module: match (old(ctx).module, module) {
                (Some(_), Some(b)) => Some(b),
                _ => old(ctx).module,
            },
            memory,
            trap: None,
            suspended_handle: None,
            runtime_error: None,
            ..*old(ctx)
        }),
{
    if let (Some(_), Some(b)) = (ctx.module, module) {
        ctx.module = Some(b);
    }
    ctx.memory = memory;
    ctx.trap = None;
    ctx.suspended_handle = None;
    ctx.runtime_error = None;
}

/// Installs a new execution context: the module, its memory and owner, with
/// no execution active, no trap, handle or runtime error, and whether the
/// module's execution flag was taken for it.
pub fn install_execution_context(
    ctx: &mut LlvmRuntimeContext,
    module: Option<ModuleBinding>,
    memory: Option<usize>,
    owner_jit_id: Option<u64>,
    holds_execution_flag: bool,
)
    ensures
        *final(ctx) == (LlvmRuntimeContext {
            module,
            owner_jit_id,
            executing: false,
            memory,
            trap: None,
            suspended_handle: None,
            runtime_error: None,
            holds_execution_flag,
            execution_pinned: false,
            ..*old(ctx)
        }),
{
    ctx.module = module;
    ctx.owner_jit_id = owner_jit_id;
    ctx.executing = false;
    ctx.memory = memory;
    ctx.trap = None;
    ctx.suspended_handle = None;
    ctx.runtime_error = None;
    ctx.holds_execution_flag = holds_execution_flag;
    ctx.execution_pinned = false;
}

/// Checks that `size` bytes at `addr` lie in the attached memory; returns
/// the offset of the access when they do.
pub fn check_bounds(ctx: &LlvmRuntimeContext, addr: u32, size: u32) -> (r: Option<usize>)
    ensures
        r == match ctx.memory {
            Some(len) => if addr + size <= len {
                Some(addr as usize)
            } else {
                None::<usize>
            },
            None => None::<usize>,
        },
{
    match ctx.memory {
        Some(len) => {
            let end: u64 = addr as u64 + size as u64;
            if end <= len as u64 {
                Some(addr as usize)
            } else {
                None
            }
        },
        None => None,
    }
}

/// The raw 64-bit form in which compiled code passes a numeric value.
pub open spec fn packed(v: WasmValue) -> Option<u64> {
    match v {
        WasmValue::I32(x) => Some((x as u32) as u64),
        WasmValue::I64(x) => Some(x as u64),
        WasmValue::F32(b) => Some(b as u64),
        WasmValue::F64(b) => Some(b),
        _ => None,
    }
}

/// The numeric value of the given type held in a raw 64-bit slot.
pub open spec fn unpacked(raw: u64, value_type: ValType) -> Option<WasmValue> {
    match value_type {
        ValType::Num(NumType::I32) => Some(WasmValue::I32((raw as u32) as i32)),
        ValType::Num(NumType::I64) => Some(WasmValue::I64(raw as i64)),
        ValType::Num(NumType::F32) => Some(WasmValue::F32(raw as u32)),
        ValType::Num(NumType::F64) => Some(WasmValue::F64(raw)),
        _ => None,
    }
}

/// Packs a numeric value into a raw 64-bit slot; references have no raw form.
pub fn pack_wasm_value(value: &WasmValue) -> (r: Option<u64>)
    ensures
        r == packed(*value),
{
    match value {
        WasmValue::I32(v) => Some(*v as u32 as u64),
        WasmValue::I64(v) => Some(*v as u64),
        WasmValue::F32(b) => Some(*b as u64),
        WasmValue::F64(b) => Some(*b),
        _ => None,
    }
}

/// Reads a numeric value of the given type from a raw 64-bit slot.
pub fn unpack_raw_value(raw: u64, value_type: ValType) -> (r: Option<WasmValue>)
    ensures
        r == unpacked(raw, value_type),
{
    match value_type {
        ValType::Num(NumType::I32) => Some(WasmValue::I32(raw as u32 as i32)),
        ValType::Num(NumType::I64) => Some(WasmValue::I64(raw as i64)),
        ValType::Num(NumType::F32) => Some(WasmValue::F32(raw as u32)),
        ValType::Num(NumType::F64) => Some(WasmValue::F64(raw)),
        _ => None,
    }
}

/// A value packed for compiled code and read back as its own type is the
/// same value.
pub proof fn lemma_pack_unpack(v: WasmValue)
    requires
        packed(v) is Some,
    ensures
        unpacked(packed(v)->Some_0, value_type(v)) == Some(v),
{
    match v {
        WasmValue::I32(x) => {
            assert(((x as u32) as u64) as u32 == x as u32) by (bit_vector);
            assert((x as u32) as i32 == x) by (bit_vector);
        },
        WasmValue::I64(x) => {
            assert((x as u64) as i64 == x) by (bit_vector);
        },
        WasmValue::F32(b) => {
            assert((b as u64) as u32 == b) by (bit_vector);
        },
        _ => {},
    }
}

/// Signed division that truncates toward zero.
pub open spec fn trunc_div(a: int, b: int) -> int {
    if a >= 0 {
        a / b
    } else {
        -((-a) / b)
    }
}

/// The remainder of signed division that truncates toward zero; it has the
/// sign of the dividend.
pub open spec fn trunc_rem(a: int, b: int) -> int {
    if a >= 0 {
        a % b
    } else {
        -((-a) % b)
    }
}

/// `i32.div_s`: traps on a zero divisor and on the one quotient that
/// overflows.
pub fn i32_div_s(a: i32, b: i32) -> (r: Result<i32, TrapCode>)
    ensures
        b == 0 ==> r == Err::<i32, TrapCode>(TrapCode::IntegerDivisionByZero),
        b != 0 && a == i32::MIN && b == -1 ==> r == Err::<i32, TrapCode>(TrapCode::IntegerOverflow),
        b != 0 && !(a == i32::MIN && b == -1) ==> r == Ok::<i32, TrapCode>(
            trunc_div(a as int, b as int) as i32,
        ),
{
    if b == 0 {
        return Err(TrapCode::IntegerDivisionByZero);
    }
    if a == i32::MIN && b == -1 {
        return Err(TrapCode::IntegerOverflow);
    }
    Ok(a / b)
}

/// `i32.div_u`: traps on a zero divisor.
pub fn i32_div_u(a: u32, b: u32) -> (r: Result<u32, TrapCode>)
    ensures
        b == 0 ==> r == Err::<u32, TrapCode>(TrapCode::IntegerDivisionByZero),
        b != 0 ==> r == Ok::<u32, TrapCode>(a / b),
{
    if b == 0 {
        return Err(TrapCode::IntegerDivisionByZero);
    }
    Ok(a / b)
}

/// `i32.rem_s`: traps on a zero divisor. The remainder of the overflowing
/// quotient is left out: the helper panics there.
pub fn i32_rem_s(a: i32, b: i32) -> (r: Result<i32, TrapCode>)
    requires
        !(a == i32::MIN && b == -1),
    ensures
        b == 0 ==> r == Err::<i32, TrapCode>(TrapCode::IntegerDivisionByZero),
        b != 0 ==> r == Ok::<i32, TrapCode>(trunc_rem(a as int, b as int) as i32),
{
    if b == 0 {
        return Err(TrapCode::IntegerDivisionByZero);
    }
    Ok(a % b)
}

/// `i32.rem_u`: traps on a zero divisor.
pub fn i32_rem_u(a: u32, b: u32) -> (r: Result<u32, TrapCode>)
    ensures
        b == 0 ==> r == Err::<u32, TrapCode>(TrapCode::IntegerDivisionByZero),
        b != 0 ==> r == Ok::<u32, TrapCode>(a % b),
{
    if b == 0 {
        return Err(TrapCode::IntegerDivisionByZero);
    }
    Ok(a % b)
}

/// `i64.div_s`: traps on a zero divisor and on the one quotient that
/// overflows.
pub fn i64_div_s(a: i64, b: i64) -> (r: Result<i64, TrapCode>)
    ensures
        b == 0 ==> r == Err::<i64, TrapCode>(TrapCode::IntegerDivisionByZero),
        b != 0 && a == i64::MIN && b == -1 ==> r == Err::<i64, TrapCode>(TrapCode::IntegerOverflow),
        b != 0 && !(a == i64::MIN && b == -1) ==> r == Ok::<i64, TrapCode>(
            trunc_div(a as int, b as int) as i64,
        ),
{
    if b == 0 {
        return Err(TrapCode::IntegerDivisionByZero);
    }
    if a == i64::MIN && b == -1 {
        return Err(TrapCode::IntegerOverflow);
    }
    Ok(a / b)
}

/// `i64.div_u`: traps on a zero divisor.
pub fn i64_div_u(a: u64, b: u64) -> (r: Result<u64, TrapCode>)
    ensures
        b == 0 ==> r == Err::<u64, TrapCode>(TrapCode::IntegerDivisionByZero),
        b != 0 ==> r == Ok::<u64, TrapCode>(a / b),
{
    if b == 0 {
        return Err(TrapCode::IntegerDivisionByZero);
    }
    Ok(a / b)
}

/// `i64.rem_s`: traps on a zero divisor. The remainder of the overflowing
/// quotient is left out: the helper panics there.
pub fn i64_rem_s(a: i64, b: i64) -> (r: Result<i64, TrapCode>)
    requires
        !(a == i64::MIN && b == -1),
    ensures
        b == 0 ==> r == Err::<i64, TrapCode>(TrapCode::IntegerDivisionByZero),
        b != 0 ==> r == Ok::<i64, TrapCode>(trunc_rem(a as int, b as int) as i64),
{
    if b == 0 {
        return Err(TrapCode::IntegerDivisionByZero);
    }
    Ok(a % b)
}

/// `i64.rem_u`: traps on a zero divisor.
pub fn i64_rem_u(a: u64, b: u64) -> (r: Result<u64, TrapCode>)
    ensures
        b == 0 ==> r == Err::<u64, TrapCode>(TrapCode::IntegerDivisionByZero),
        b != 0 ==> r == Ok::<u64, TrapCode>(a % b),
{
    if b == 0 {
        return Err(TrapCode::IntegerDivisionByZero);
    }
    Ok(a % b)
}

/// Once a trap is recorded, later traps do not replace it until it is taken
/// or cleared.
pub proof fn lemma_first_trap_wins(ctx: LlvmRuntimeContext, first: TrapCode, later: TrapCode)
    ensures
        trapped(trapped(ctx, first), later).trap == trapped(ctx, first).trap,
        ctx.trap is None ==> trapped(trapped(ctx, first), later).trap == Some(first),
{
}

} // verus!
