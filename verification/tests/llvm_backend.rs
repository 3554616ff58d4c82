//! Checks of the LLVM JIT's decisions around compiled calls.

use wasmtiny::jit::llvm_backend::{plan_compile_target, validate_module_compatibility, LlvmJit};
use wasmtiny::jit::llvm_runtime::{
    install_execution_context, set_runtime_error, set_trap, LlvmRuntimeContext, ModuleBinding,
};
use wasmtiny::runtime::{
    Func, FunctionType, Local, Module, NumType, RefType, RuntimeSuspender, SuspensionKind,
    TrapCode, ValType, WasmError, WasmValue,
};

fn i32t() -> ValType {
    ValType::Num(NumType::I32)
}

fn add_type() -> FunctionType {
    FunctionType::new(vec![i32t(), i32t()], vec![i32t()])
}

#[test]
fn incompatible_modules_are_refused() {
    let mut module = Module::new();
    module.types.push(FunctionType::new(vec![], vec![i32t(), i32t()]));
    assert_eq!(
        validate_module_compatibility(&module),
        Err(WasmError::Runtime("LLVM JIT does not support multi-value function type 0".to_string()))
    );
    let mut module = Module::new();
    module.types.push(add_type());
    module.types.push(FunctionType::new(vec![ValType::Ref(RefType::FuncRef)], vec![]));
    assert_eq!(
        validate_module_compatibility(&module),
        Err(WasmError::Runtime("LLVM JIT does not support reference-typed function type 1".to_string()))
    );
    let mut module = Module::new();
    module.types.push(add_type());
    module.funcs.push(Func { type_idx: 0, locals: vec![], body: vec![] });
    module.funcs.push(Func {
        type_idx: 0,
        locals: vec![Local { count: 1, type_: ValType::Ref(RefType::ExternRef) }],
        body: vec![],
    });
    assert_eq!(
        validate_module_compatibility(&module),
        Err(WasmError::Runtime(
            "LLVM JIT does not support reference-typed locals in function 1".to_string()
        ))
    );
    module.funcs.pop();
    assert_eq!(validate_module_compatibility(&module), Ok(()));
}

#[test]
fn compile_targets_are_planned() {
    let mut module = Module::new();
    module.types.push(add_type());
    module.funcs.push(Func { type_idx: 0, locals: vec![], body: vec![0x20, 0x00, 0x20, 0x01, 0x6A, 0x0F] });
    let (ft, ops) = plan_compile_target(&module, 0, 0).unwrap();
    assert_eq!(ft, add_type());
    assert_eq!(ops.len(), 7);
    assert_eq!(
        plan_compile_target(&module, 4, 0),
        Err(WasmError::Runtime("Function type not found for 4".to_string()))
    );
}

#[test]
fn safepoints_must_be_enabled_before_requests() {
    let mut jit = LlvmJit::new(1);
    assert_eq!(
        jit.request_safepoint(),
        Err(WasmError::Runtime("JIT safepoints are not enabled".to_string()))
    );
    jit.enable_safepoints();
    assert!(jit.request_safepoint().is_ok());
    assert!(jit.suspend_requested);
    jit.disable_safepoints();
    assert!(!jit.suspend_requested);
    assert!(!jit.is_suspended());
}

#[test]
fn calls_are_checked_and_results_read() {
    let mut jit = LlvmJit::new(1);
    let mut ctx = LlvmRuntimeContext::new();
    assert_eq!(
        jit.begin_invoke(0, &[], true, 7, &mut ctx).err(),
        Some(WasmError::Runtime("Function 0 not compiled".to_string()))
    );
    jit.record_compiled(0, add_type());
    assert_eq!(
        jit.begin_invoke(0, &[WasmValue::I32(1)], true, 7, &mut ctx).err(),
        Some(WasmError::Runtime("Argument count mismatch: expected 2, got 1".to_string()))
    );
    assert_eq!(
        jit.begin_invoke(0, &[WasmValue::I32(1), WasmValue::I64(2)], true, 7, &mut ctx).err(),
        Some(WasmError::Runtime(
            "Argument 1 type mismatch: expected Num(I32), got Num(I64)".to_string()
        ))
    );
    let call = jit.begin_invoke(0, &[WasmValue::I32(-1), WasmValue::I32(2)], true, 7, &mut ctx).unwrap();
    assert_eq!(call.args, vec![0xFFFF_FFFF, 2]);
    assert_eq!(jit.execution_epoch, 4);
    assert!(ctx.executing);
    assert_eq!(jit.finish_invoke(&mut ctx, &[3], &call.result_types), Ok(vec![WasmValue::I32(3)]));
    set_trap(&mut ctx, TrapCode::IntegerDivisionByZero);
    assert_eq!(
        jit.finish_invoke(&mut ctx, &[0], &call.result_types),
        Err(WasmError::Trap(TrapCode::IntegerDivisionByZero))
    );
    set_runtime_error(&mut ctx, "boom".to_string());
    assert_eq!(jit.finish_invoke(&mut ctx, &[0], &call.result_types), Err(WasmError::Runtime("boom".to_string())));
}

#[test]
fn suspended_calls_resume_and_continue_once() {
    let mut jit = LlvmJit::new(5);
    jit.record_compiled(0, add_type());
    let mut ctx = LlvmRuntimeContext::new();
    install_execution_context(
        &mut ctx,
        Some(ModuleBinding { handle: 1, context_id: 99, fingerprint: 0 }),
        None,
        Some(5),
        true,
    );
    let call = jit.begin_invoke(0, &[WasmValue::I32(1), WasmValue::I32(2)], true, 3, &mut ctx).unwrap();
    let mut suspender = RuntimeSuspender::new();
    ctx.suspended_handle = Some(suspender.suspend_jit(0, vec![WasmValue::I32(1), WasmValue::I32(2)], 5, 1, 99));
    assert_eq!(
        jit.finish_invoke(&mut ctx, &[0], &call.result_types),
        Err(WasmError::Suspended(SuspensionKind::Safepoint))
    );
    assert!(jit.is_suspended());
    assert_eq!(
        jit.begin_invoke(0, &[], true, 3, &mut ctx).err(),
        Some(WasmError::Runtime(
            "cannot invoke JIT function: suspended handle must be resumed first".to_string()
        ))
    );
    let mut handle = jit.take_suspended_handle().unwrap();
    assert_eq!(
        jit.try_resume(&mut handle, 4),
        Err(WasmError::Runtime("cross-thread JIT resume is unsupported".to_string()))
    );
    assert_eq!(jit.try_resume(&mut handle, 3), Ok(()));
    assert!(jit.is_suspended());
    let (func_idx, args) = jit.begin_continue(3, &ctx).unwrap();
    assert_eq!(func_idx, 0);
    assert_eq!(args, vec![WasmValue::I32(1), WasmValue::I32(2)]);
    assert!(!jit.is_suspended());
    assert_eq!(
        jit.begin_continue(3, &ctx),
        Err(WasmError::Runtime("no resumed JIT state to continue".to_string()))
    );
    let mut again = handle;
    assert!(matches!(jit.try_resume(&mut again, 3), Err(WasmError::Runtime(m)) if m.starts_with("resume failed: Instance not suspended")));
}

#[test]
fn handles_of_other_jits_and_epochs_are_refused() {
    let mut jit = LlvmJit::new(5);
    let mut suspender = RuntimeSuspender::new();
    let mut foreign = suspender.suspend_jit(0, vec![], 6, 0, 0);
    assert_eq!(
        jit.try_resume(&mut foreign, 1),
        Err(WasmError::Runtime("suspended handle is from a different JIT instance".to_string()))
    );
    let mut stale = suspender.suspend_jit(0, vec![], 5, 3, 0);
    assert_eq!(
        jit.try_resume(&mut stale, 1),
        Err(WasmError::Runtime("suspended handle is from a previous JIT execution epoch".to_string()))
    );
}

#[test]
fn refused_calls_withdraw_the_safepoint_request() {
    let mut jit = LlvmJit::new(1);
    let mut ctx = LlvmRuntimeContext::new();
    jit.enable_safepoints();
    jit.request_safepoint().unwrap();
    assert!(jit.suspend_requested);
    assert!(jit.begin_invoke(3, &[], true, 7, &mut ctx).is_err());
    assert!(!jit.suspend_requested);
    assert!(jit.safepoints_enabled);
    jit.record_compiled(0, add_type());
    jit.request_safepoint().unwrap();
    assert!(jit.begin_invoke(0, &[WasmValue::I32(1)], true, 7, &mut ctx).is_err());
    assert!(!jit.suspend_requested);
    assert!(!ctx.executing);
}
