//! Checks of suspension and resumption.

use wasmtiny::runtime::{
    is_suspension_error, ControlStack, ExecutionEngine, InterpreterState, JitState, NumType,
    OperandStack, RuntimeSuspender, SuspendedHandle, SuspendedInstance, SuspensionError,
    SuspensionKind, SuspensionState, ValType, WasmError, WasmValue,
};

fn interpreter_state(pc: usize, locals: Vec<WasmValue>, interpreter_id: u64) -> InterpreterState {
    InterpreterState {
        pc,
        locals,
        operand_stack: OperandStack::new(1024),
        control_stack: ControlStack::new(),
        interpreter_id,
        suspension_epoch: 0,
    }
}

#[test]
fn test_suspended_instance_creation() {
    let instance = SuspendedInstance::new_interpreter(interpreter_state(0, vec![], 0), 1);
    assert!(instance.is_suspended());
    assert!(matches!(instance.engine(), ExecutionEngine::Interpreter));
}

#[test]
fn test_suspended_handle_resume() {
    let instance =
        SuspendedInstance::new_interpreter(interpreter_state(10, vec![WasmValue::I32(42)], 0), 1);
    let mut handle = SuspendedHandle::new(instance);
    assert!(handle.is_suspended());

    let state = handle.resume().unwrap();
    assert!(matches!(state, SuspensionState::Interpreter(_)));
}

#[test]
fn test_resume_fails_when_not_suspended() {
    let instance = SuspendedInstance::new_interpreter(interpreter_state(0, vec![], 0), 1);
    let mut handle = SuspendedHandle::new(instance);

    handle.resume().unwrap();
    assert!(!handle.is_suspended());

    let result = handle.resume();
    assert!(matches!(result, Err(SuspensionError::InstanceNotSuspended(_))));
}

#[test]
fn test_unsupported_state_error() {
    let error = SuspensionError::UnsupportedSuspensionState("preemption not supported".to_string());
    assert!(error.message().contains("Unsupported suspension state"));
}

#[test]
fn test_locals_preserved_after_suspend() {
    let locals = vec![WasmValue::I32(1), WasmValue::I64(2), WasmValue::F32(3.0f32.to_bits())];
    let instance =
        SuspendedInstance::new_interpreter(interpreter_state(100, locals.clone(), 0), 1);
    let mut handle = SuspendedHandle::new(instance);

    let state = handle.resume().unwrap();
    if let SuspensionState::Interpreter(state) = state {
        assert_eq!(state.locals, locals);
    } else {
        panic!("expected interpreter state");
    }
}

#[test]
fn test_stack_preserved_after_suspend() {
    let mut operand_stack = OperandStack::new(1024);
    operand_stack.push(WasmValue::I32(10)).unwrap();
    operand_stack.push(WasmValue::I32(20)).unwrap();
    operand_stack.push(WasmValue::I64(100)).unwrap();

    let instance = SuspendedInstance::new_interpreter(
        InterpreterState {
            pc: 50,
            locals: vec![],
            operand_stack,
            control_stack: ControlStack::new(),
            interpreter_id: 0,
            suspension_epoch: 0,
        },
        1,
    );
    let mut handle = SuspendedHandle::new(instance);

    let state = handle.resume().unwrap();
    if let SuspensionState::Interpreter(state) = state {
        assert_eq!(state.operand_stack.len(), 3);
    } else {
        panic!("expected interpreter state");
    }
}

#[test]
fn test_pc_preserved_after_suspend() {
    let instance = SuspendedInstance::new_interpreter(interpreter_state(1234, vec![], 1), 1);
    let mut handle = SuspendedHandle::new(instance);

    let state = handle.resume().unwrap();
    if let SuspensionState::Interpreter(state) = state {
        assert_eq!(state.pc, 1234);
    } else {
        panic!("expected interpreter state");
    }
}

#[test]
fn test_runtime_suspender_creates_handles() {
    let mut suspender = RuntimeSuspender::new();

    let handle = suspender.suspend_interpreter(
        100,
        vec![WasmValue::I32(42)],
        OperandStack::new(1024),
        ControlStack::new(),
        0,
        0,
    );

    assert!(handle.is_suspended());
    assert!(matches!(handle.engine(), ExecutionEngine::Interpreter));
}

#[test]
fn test_jit_suspension_state() {
    let instance = SuspendedInstance::new_jit(5, vec![WasmValue::I32(7)], 11, 23, 99, 1);

    assert!(instance.is_suspended());
    if let ExecutionEngine::Jit { func_idx } = instance.engine() {
        assert_eq!(*func_idx, 5);
    } else {
        panic!("expected JIT engine");
    }

    match instance.state() {
        SuspensionState::Jit(JitState::Pending { args, jit_id, execution_epoch, context_id, .. }) => {
            assert_eq!(args, &vec![WasmValue::I32(7)]);
            assert_eq!(*jit_id, 11);
            assert_eq!(*execution_epoch, 23);
            assert_eq!(*context_id, 99);
        }
        _ => panic!("expected pending JIT state"),
    }
}

#[test]
fn test_hostcall_pending_state() {
    let mut suspender = RuntimeSuspender::new();
    let mut handle = suspender.suspend_with_pending_hostcall(
        vec![1, 2, 3, 4],
        vec![ValType::Num(NumType::I32)],
        interpreter_state(50, vec![WasmValue::I32(1)], 0),
    );

    let result = handle.resume_after_hostcall(&[WasmValue::I32(7)]);
    assert!(matches!(result, Ok(SuspensionState::Interpreter(_))));
}

#[test]
fn test_double_resume_fails() {
    let mut instance = SuspendedInstance::new_interpreter(interpreter_state(0, vec![], 1), 1);
    instance.set_state(SuspensionState::Empty);

    let mut handle = SuspendedHandle::new(instance);
    let result = handle.resume();

    assert!(matches!(result, Err(SuspensionError::InvalidResumeState(_))));
}

#[test]
fn test_unsupported_suspension_state_error_message() {
    let error = SuspensionError::UnsupportedSuspensionState("nested suspension".to_string());
    assert_eq!(error.message(), "Unsupported suspension state: nested suspension");
}

#[test]
fn test_instance_not_suspended_error_message() {
    let error = SuspensionError::InstanceNotSuspended("already resumed".to_string());
    assert_eq!(error.message(), "Instance not suspended: already resumed");
}

#[test]
fn test_invalid_resume_state_error_message() {
    let error = SuspensionError::InvalidResumeState("corrupted state".to_string());
    assert_eq!(error.message(), "Invalid resume state: corrupted state");
}

#[test]
fn test_hostcall_pending_error_message() {
    let error = SuspensionError::HostcallPending;
    assert_eq!(error.message(), "Hostcall is pending completion");
}

#[test]
fn test_instance_ids_are_unique() {
    let mut suspender = RuntimeSuspender::new();

    let handle1 =
        suspender.suspend_interpreter(0, vec![], OperandStack::new(1024), ControlStack::new(), 0, 0);
    let handle2 =
        suspender.suspend_interpreter(0, vec![], OperandStack::new(1024), ControlStack::new(), 1, 0);

    assert_ne!(handle1.instance_id(), handle2.instance_id());
}

#[test]
fn test_hostcall_resume_state_contains_pending_work() {
    let mut suspender = RuntimeSuspender::new();
    let mut handle = suspender.suspend_with_pending_hostcall(
        vec![0xDE, 0xAD, 0xBE, 0xEF],
        vec![ValType::Num(NumType::I32)],
        interpreter_state(100, vec![WasmValue::I32(42)], 0),
    );

    if let Ok(SuspensionState::Interpreter(state)) =
        handle.resume_after_hostcall(&[WasmValue::I32(9)])
    {
        assert_eq!(state.pc, 100);
        assert_eq!(state.locals.len(), 1);
        let mut operand_stack = state.operand_stack;
        assert_eq!(operand_stack.pop(), Some(WasmValue::I32(9)));
    } else {
        panic!("expected Interpreter state");
    }
}

#[test]
fn test_has_pending_hostcall() {
    let pending_work = vec![1, 2, 3];
    let resume_state = SuspensionState::Interpreter(interpreter_state(0, vec![], 0));

    let instance = SuspendedInstance::with_pending_hostcall(pending_work, resume_state);
    let handle = SuspendedHandle::new(instance);

    assert!(handle.has_pending_hostcall());
    assert_eq!(handle.pending_work(), Some(vec![1, 2, 3]));
}

#[test]
fn test_no_pending_hostcall_on_interpreter_state() {
    let instance = SuspendedInstance::new_interpreter(interpreter_state(0, vec![], 0), 1);
    let handle = SuspendedHandle::new(instance);

    assert!(!handle.has_pending_hostcall());
    assert!(handle.pending_work().is_none());
}

#[test]
fn test_is_suspended_after_external_resume() {
    // A handle owns its suspended execution, so the resume and the check
    // go through the same handle.
    let instance = SuspendedInstance::new_interpreter(interpreter_state(0, vec![], 0), 1);
    let mut handle = SuspendedHandle::from(instance);

    assert!(handle.is_suspended());
    handle.resume().unwrap();
    assert!(!handle.is_suspended());
}

#[test]
fn suspension_error_is_recognised() {
    assert!(is_suspension_error(&WasmError::Suspended(SuspensionKind::Safepoint)));
    assert!(!is_suspension_error(&WasmError::Runtime("x".to_string())));
}

#[test]
fn plain_resume_refused_while_hostcall_pending() {
    let mut suspender = RuntimeSuspender::new();
    let mut handle = suspender.suspend_with_pending_hostcall(
        vec![],
        vec![],
        interpreter_state(0, vec![], 0),
    );
    assert!(matches!(handle.resume(), Err(SuspensionError::HostcallPending)));
    assert!(handle.is_suspended());
    assert!(handle.resume_after_hostcall(&[]).is_ok());
    assert!(!handle.is_suspended());
    assert!(matches!(
        handle.resume_after_hostcall(&[]),
        Err(SuspensionError::InstanceNotSuspended(_))
    ));
    assert!(matches!(handle.resume(), Err(SuspensionError::InstanceNotSuspended(_))));
}

#[test]
fn hostcall_result_count_mismatch_is_reported() {
    let mut suspender = RuntimeSuspender::new();
    let mut handle = suspender.suspend_with_pending_hostcall(
        vec![],
        vec![ValType::Num(NumType::I32), ValType::Num(NumType::I64)],
        interpreter_state(0, vec![], 0),
    );
    match handle.resume_after_hostcall(&[WasmValue::I32(1)]) {
        Err(e) => assert_eq!(
            e.message(),
            "Invalid resume state: hostcall result count mismatch: expected 2, got 1"
        ),
        Ok(_) => panic!("expected a count mismatch"),
    }
    assert!(handle.is_suspended());
    assert!(handle.has_pending_hostcall());
}

#[test]
fn hostcall_result_type_mismatch_is_reported() {
    let mut suspender = RuntimeSuspender::new();
    let mut handle = suspender.suspend_with_pending_hostcall(
        vec![],
        vec![ValType::Num(NumType::I32), ValType::Num(NumType::I64)],
        interpreter_state(0, vec![], 0),
    );
    match handle.resume_after_hostcall(&[WasmValue::I32(1), WasmValue::F64(0)]) {
        Err(SuspensionError::InvalidResumeState(m)) => assert_eq!(
            m,
            "hostcall result 1 type mismatch: expected Num(I64), got Num(F64)"
        ),
        _ => panic!("expected a type mismatch"),
    }
}

#[test]
fn hostcall_results_overflowing_the_stack_are_refused() {
    let mut suspender = RuntimeSuspender::new();
    let state = InterpreterState {
        pc: 0,
        locals: vec![],
        operand_stack: OperandStack::new(1),
        control_stack: ControlStack::new(),
        interpreter_id: 0,
        suspension_epoch: 0,
    };
    let mut handle = suspender.suspend_with_pending_hostcall(
        vec![],
        vec![ValType::Num(NumType::I32), ValType::Num(NumType::I32)],
        state,
    );
    match handle.resume_after_hostcall(&[WasmValue::I32(1), WasmValue::I32(2)]) {
        Err(SuspensionError::InvalidResumeState(m)) => assert_eq!(m, "Trap: StackOverflow"),
        _ => panic!("expected a stack overflow"),
    }
    assert!(handle.is_suspended());
}

#[test]
fn hostcall_completion_needs_interpreter_state() {
    let instance = SuspendedInstance::with_pending_hostcall(vec![], SuspensionState::Empty);
    let mut handle = SuspendedHandle::new(instance);
    match handle.resume_after_hostcall(&[]) {
        Err(SuspensionError::UnsupportedSuspensionState(m)) => {
            assert_eq!(m, "hostcall completion is only supported for interpreter state")
        }
        _ => panic!("expected an unsupported state"),
    }
}

#[test]
fn hostcall_needs_pending_state() {
    let instance = SuspendedInstance::new_interpreter(interpreter_state(0, vec![], 0), 1);
    let mut handle = SuspendedHandle::new(instance);
    match handle.resume_after_hostcall(&[]) {
        Err(SuspensionError::InvalidResumeState(m)) => assert_eq!(m, "not in hostcall pending state"),
        _ => panic!("expected a refusal"),
    }
}

#[test]
fn handle_reports_ids_and_epochs() {
    let mut suspender = RuntimeSuspender::new();
    let state = InterpreterState {
        pc: 0,
        locals: vec![],
        operand_stack: OperandStack::new(4),
        control_stack: ControlStack::new(),
        interpreter_id: 7,
        suspension_epoch: 3,
    };
    let handle = suspender.suspend_with_pending_hostcall(vec![9], vec![], state);
    assert_eq!(handle.instance_id(), 1);
    assert_eq!(handle.interpreter_id(), Some(7));
    assert_eq!(handle.suspension_epoch(), Some(3));
    assert_eq!(handle.jit_id(), None);
    let jit = suspender.suspend_jit(2, vec![], 11, 23, 99);
    assert_eq!(jit.instance_id(), 2);
    assert_eq!(jit.jit_id(), Some(11));
    assert_eq!(jit.jit_execution_epoch(), Some(23));
    assert_eq!(jit.interpreter_id(), None);
    assert!(RuntimeSuspender::is_suspended(&jit));
}

#[test]
fn interpreter_state_restore_copies() {
    let mut stack = OperandStack::new(8);
    stack.push(WasmValue::I32(5)).unwrap();
    let mut controls = ControlStack::new();
    controls.push(1);
    let state = InterpreterState::capture(3, vec![WasmValue::I64(9)], stack, controls, 1, 2);
    let (pc, locals, mut operands, control) = state.restore();
    assert_eq!(pc, 3);
    assert_eq!(locals, vec![WasmValue::I64(9)]);
    assert_eq!(operands.pop(), Some(WasmValue::I32(5)));
    assert_eq!(control.len(), 1);
    assert_eq!(state.operand_stack.len(), 1);
}

#[test]
fn full_operand_stack_refuses_push() {
    let mut stack = OperandStack::new(1);
    assert!(stack.push(WasmValue::I32(1)).is_ok());
    assert!(stack.push(WasmValue::I32(2)).is_err());
    assert_eq!(stack.len(), 1);
    assert_eq!(stack.pop(), Some(WasmValue::I32(1)));
    assert!(stack.is_empty());
}
