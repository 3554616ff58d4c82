//! Checks of the execution context of compiled code and its trapping helpers.

use wasmtiny::jit::llvm_runtime::{
    check_bounds, check_context_replacement, clear_execution_context,
    clear_execution_context_for_owner, clear_trap, configure_safepoints,
    current_execution_context_id, current_execution_module_fingerprint,
    current_execution_owner_jit_id, has_execution_context, i32_div_s, i32_div_u, i32_rem_s,
    i32_rem_u, i64_div_s, i64_div_u, i64_rem_s, i64_rem_u, install_execution_context,
    llvm_jit_has_trap, pack_wasm_value, refresh_pinned_context, set_execution_context_pinned_for_owner,
    set_runtime_error, set_trap, take_runtime_error, take_suspended_handle, take_trap,
    trap_code_to_i32, unpack_raw_value, LlvmRuntimeContext, ModuleBinding,
};
use wasmtiny::runtime::{NumType, RefType, TrapCode, ValType, WasmError, WasmValue};

fn binding(handle: u64) -> ModuleBinding {
    ModuleBinding { handle, context_id: handle + 100, fingerprint: handle * 7 }
}

#[test]
fn out_of_bounds_access_sets_the_first_trap() {
    let mut ctx = LlvmRuntimeContext::new();
    install_execution_context(&mut ctx, None, Some(4), None, false);
    clear_trap(&mut ctx);
    assert_eq!(check_bounds(&ctx, 0, 4), Some(0));
    assert_eq!(check_bounds(&ctx, 0, 8), None);
    assert_eq!(check_bounds(&ctx, u32::MAX, 2), None);
    set_trap(&mut ctx, TrapCode::MemoryOutOfBounds);
    set_trap(&mut ctx, TrapCode::Unreachable);
    assert_eq!(llvm_jit_has_trap(&ctx), 2);
    assert_eq!(take_trap(&mut ctx), Some(TrapCode::MemoryOutOfBounds));
    assert_eq!(take_trap(&mut ctx), None);
    assert_eq!(llvm_jit_has_trap(&ctx), 0);
}

#[test]
fn no_memory_means_no_access() {
    let ctx = LlvmRuntimeContext::default();
    assert_eq!(check_bounds(&ctx, 0, 0), None);
    assert!(!has_execution_context(&ctx));
}

#[test]
fn context_reports_module_and_owner() {
    let mut ctx = LlvmRuntimeContext::new();
    install_execution_context(&mut ctx, Some(binding(1)), Some(65536), Some(9), true);
    assert!(has_execution_context(&ctx));
    assert_eq!(current_execution_context_id(&ctx), Some(101));
    assert_eq!(current_execution_module_fingerprint(&ctx), Some(7));
    assert_eq!(current_execution_owner_jit_id(&ctx), Some(9));
    assert!(clear_execution_context(&mut ctx));
    assert!(!has_execution_context(&ctx));
    assert_eq!(current_execution_owner_jit_id(&ctx), None);
    assert!(!ctx.holds_execution_flag);
}

#[test]
fn pinned_context_survives_clearing_but_not_forced_owner_clearing() {
    let mut ctx = LlvmRuntimeContext::new();
    install_execution_context(&mut ctx, Some(binding(1)), None, Some(3), true);
    set_execution_context_pinned_for_owner(&mut ctx, 4, true);
    assert!(!ctx.execution_pinned);
    set_execution_context_pinned_for_owner(&mut ctx, 3, true);
    assert!(ctx.execution_pinned);
    assert!(!clear_execution_context(&mut ctx));
    assert!(has_execution_context(&ctx));
    assert!(!clear_execution_context_for_owner(&mut ctx, 3, false));
    assert!(!clear_execution_context_for_owner(&mut ctx, 4, true));
    assert!(clear_execution_context_for_owner(&mut ctx, 3, true));
    assert!(!has_execution_context(&ctx));
}

#[test]
fn replacement_rules() {
    let mut ctx = LlvmRuntimeContext::new();
    assert_eq!(check_context_replacement(&ctx, Some(binding(1)), Some(1)), Ok(false));
    install_execution_context(&mut ctx, Some(binding(1)), None, Some(1), true);
    assert_eq!(
        check_context_replacement(&ctx, Some(binding(2)), Some(2)),
        Err(WasmError::Runtime(
            "cannot replace execution context owned by a different JIT".to_string()
        ))
    );
    configure_safepoints(&mut ctx, true, false, 1, 5);
    assert!(ctx.executing);
    assert_eq!(
        check_context_replacement(&ctx, Some(binding(1)), Some(1)),
        Err(WasmError::Runtime(
            "cannot replace execution context while JIT execution is active".to_string()
        ))
    );
    set_execution_context_pinned_for_owner(&mut ctx, 1, true);
    assert_eq!(check_context_replacement(&ctx, Some(binding(1)), Some(1)), Ok(true));
    assert_eq!(
        check_context_replacement(&ctx, Some(binding(2)), Some(1)),
        Err(WasmError::Runtime(
            "cannot replace execution context while JIT execution is suspended".to_string()
        ))
    );
    set_trap(&mut ctx, TrapCode::HostTrap);
    set_runtime_error(&mut ctx, "boom".to_string());
    let fresh = ModuleBinding { handle: 1, context_id: 55, fingerprint: 66 };
    refresh_pinned_context(&mut ctx, Some(fresh), Some(10));
    assert_eq!(current_execution_context_id(&ctx), Some(55));
    assert_eq!(ctx.memory, Some(10));
    assert_eq!(take_trap(&mut ctx), None);
    assert_eq!(take_runtime_error(&mut ctx), None);
    assert!(take_suspended_handle(&mut ctx).is_none());
}

#[test]
fn runtime_errors_are_taken_once() {
    let mut ctx = LlvmRuntimeContext::new();
    set_runtime_error(&mut ctx, "missing JIT execution context for metering".to_string());
    set_trap(&mut ctx, TrapCode::HostTrap);
    assert_eq!(take_trap(&mut ctx), Some(TrapCode::HostTrap));
    assert_eq!(
        take_runtime_error(&mut ctx),
        Some("missing JIT execution context for metering".to_string())
    );
    assert_eq!(take_runtime_error(&mut ctx), None);
    set_trap(&mut ctx, TrapCode::Unreachable);
    clear_trap(&mut ctx);
    assert_eq!(take_trap(&mut ctx), None);
}

#[test]
fn trap_numbers() {
    assert_eq!(trap_code_to_i32(TrapCode::Unreachable), 1);
    assert_eq!(trap_code_to_i32(TrapCode::IntegerDivisionByZero), 9);
    assert_eq!(trap_code_to_i32(TrapCode::HostTrap), 13);
}

#[test]
fn division_helpers_trap_as_webassembly_says() {
    assert_eq!(i32_div_s(7, 0), Err(TrapCode::IntegerDivisionByZero));
    assert_eq!(i32_div_s(i32::MIN, -1), Err(TrapCode::IntegerOverflow));
    assert_eq!(i32_div_s(-7, 2), Ok(-3));
    assert_eq!(i32_div_u(7, 2), Ok(3));
    assert_eq!(i32_div_u(7, 0), Err(TrapCode::IntegerDivisionByZero));
    assert_eq!(i32_rem_s(-7, 2), Ok(-1));
    assert_eq!(i32_rem_s(7, -2), Ok(1));
    assert_eq!(i32_rem_s(7, 0), Err(TrapCode::IntegerDivisionByZero));
    assert_eq!(i32_rem_u(7, 2), Ok(1));
    assert_eq!(i64_div_s(i64::MIN, -1), Err(TrapCode::IntegerOverflow));
    assert_eq!(i64_div_s(-9, 4), Ok(-2));
    assert_eq!(i64_div_u(9, 4), Ok(2));
    assert_eq!(i64_rem_s(-9, 4), Ok(-1));
    assert_eq!(i64_rem_u(9, 0), Err(TrapCode::IntegerDivisionByZero));
}

#[test]
fn values_pack_and_unpack() {
    assert_eq!(pack_wasm_value(&WasmValue::I32(-1)), Some(0xFFFF_FFFF));
    assert_eq!(pack_wasm_value(&WasmValue::I64(-1)), Some(u64::MAX));
    assert_eq!(pack_wasm_value(&WasmValue::FuncRef(1)), None);
    assert_eq!(
        unpack_raw_value(0x1_FFFF_FFFF, ValType::Num(NumType::I32)),
        Some(WasmValue::I32(-1))
    );
    assert_eq!(
        unpack_raw_value(1.5f64.to_bits(), ValType::Num(NumType::F64)),
        Some(WasmValue::F64(1.5f64.to_bits()))
    );
    assert_eq!(unpack_raw_value(0, ValType::Ref(RefType::FuncRef)), None);
    let v = WasmValue::F32(2.5f32.to_bits());
    assert_eq!(unpack_raw_value(pack_wasm_value(&v).unwrap(), v.val_type()), Some(v));
}

#[test]
fn test_bounds_checking() {
    let mut ctx = LlvmRuntimeContext::new();
    install_execution_context(&mut ctx, None, Some(1024), None, false);
    clear_trap(&mut ctx);
    assert_eq!(check_bounds(&ctx, 0, 4), Some(0));
    assert_eq!(check_bounds(&ctx, 1020, 4), Some(1020));
    assert_eq!(check_bounds(&ctx, 1021, 4), None);
    assert_eq!(take_trap(&mut ctx), None);
}

#[test]
fn test_out_of_bounds_sets_trap() {
    let mut ctx = LlvmRuntimeContext::new();
    install_execution_context(&mut ctx, None, Some(4), None, false);
    clear_trap(&mut ctx);
    if check_bounds(&ctx, 0, 8).is_none() {
        set_trap(&mut ctx, TrapCode::MemoryOutOfBounds);
    }
    assert_eq!(take_trap(&mut ctx), Some(TrapCode::MemoryOutOfBounds));
}
