//! Checks of snapshot capture, compatibility and restore.

use wasmtiny::memory::Memory;
use wasmtiny::runtime::snapshot::{compute_module_hash, MemorySnapshot};
use wasmtiny::runtime::{
    capture_snapshot, restore_snapshot, validate_snapshot_compatibility, ControlStack, Func, Global,
    GlobalType, InterpreterState, Limits, MemoryType, Module, NumType, OperandStack, RefType,
    SnapshotError, SuspendedHandle, SuspendedInstance, SuspensionState, Table, TableType, ValType,
    WasmValue, SNAPSHOT_FORMAT_VERSION,
};

fn i32_global(mutable: bool, value: i32) -> Global {
    Global { type_: GlobalType::new(ValType::Num(NumType::I32), mutable), value: WasmValue::I32(value) }
}

fn interpreter_handle(pc: usize, locals: Vec<WasmValue>, operand_stack: OperandStack, control_stack: ControlStack) -> SuspendedHandle {
    SuspendedHandle::new(SuspendedInstance::new_interpreter(
        InterpreterState::capture(pc, locals, operand_stack, control_stack, 1, 42),
        1,
    ))
}

#[test]
fn test_snapshot_payload_creation() {
    let module = Module::new();
    let snapshot = capture_snapshot(&module, &[], &[], &[], None, 0).unwrap();
    assert_eq!(snapshot.version, SNAPSHOT_FORMAT_VERSION);
    assert_eq!(snapshot.memory_snapshots.len(), 0);
    assert_eq!(snapshot.global_snapshots.len(), 0);
    assert_eq!(snapshot.table_snapshots.len(), 0);
    assert!(snapshot.execution_state.is_none());
    assert_eq!(snapshot.module_hash, compute_module_hash(&module));
}

#[test]
fn test_snapshot_memory_contents() {
    let mut module = Module::new();
    module.memories.push(MemoryType::new(Limits::Min(1)));
    let mut memory = Memory::new(MemoryType::new(Limits::Min(1)));
    memory.write(0, &[1, 2, 3, 4]).unwrap();
    let snapshot = capture_snapshot(&module, &[memory], &[], &[], None, 0).unwrap();
    assert_eq!(snapshot.memory_snapshots.len(), 1);
    assert_eq!(snapshot.memory_snapshots[0].data[..4], [1, 2, 3, 4]);
    assert_eq!(snapshot.memory_snapshots[0].data.len(), 65536);
}

#[test]
fn test_snapshot_global_values() {
    let mut module = Module::new();
    module.globals.push(GlobalType::new(ValType::Num(NumType::I32), false));
    let snapshot = capture_snapshot(&module, &[], &[i32_global(false, 0)], &[], None, 0).unwrap();
    assert!(!snapshot.global_snapshots.is_empty());
    assert_eq!(snapshot.global_snapshots[0].value, WasmValue::I32(0));
}

#[test]
fn test_snapshot_incompatible_version() {
    let module = Module::new();
    let mut snapshot = capture_snapshot(&module, &[], &[], &[], None, 0).unwrap();
    snapshot.version = 9999;
    let result = validate_snapshot_compatibility(&snapshot, &module);
    assert!(matches!(result, Err(SnapshotError::IncompatibleTarget(_))));
}

#[test]
fn test_restore_snapshot_round_trip() {
    let mut module = Module::new();
    module.globals.push(GlobalType::new(ValType::Num(NumType::I32), true));
    let snapshot = capture_snapshot(&module, &[], &[i32_global(true, 42)], &[], None, 0).unwrap();
    let mut memories = vec![];
    let mut globals = vec![i32_global(true, 0)];
    let mut tables = vec![];
    let handle = restore_snapshot(&snapshot, &module, &mut memories, &mut globals, &mut tables).unwrap();
    assert!(handle.is_none());
    assert_eq!(globals[0].value, WasmValue::I32(42));
}

#[test]
fn test_snapshot_module_hash_mismatch() {
    let mut module = Module::new();
    module.funcs.push(Func { type_idx: 0, locals: vec![], body: vec![] });
    let snapshot = capture_snapshot(&module, &[], &[], &[], None, 0).unwrap();
    let result = validate_snapshot_compatibility(&snapshot, &Module::new());
    assert!(matches!(result, Err(SnapshotError::IncompatibleTarget(_))));
}

#[test]
fn test_snapshot_execution_state_capture() {
    let mut stack = OperandStack::new(1024);
    stack.push(WasmValue::I32(456)).unwrap();
    let handle = interpreter_handle(100, vec![WasmValue::I32(123)], stack, ControlStack::new());
    let snapshot = capture_snapshot(&Module::new(), &[], &[], &[], Some(&handle), 7).unwrap();
    let exec_state = snapshot.execution_state.as_ref().unwrap();
    assert_eq!(exec_state.interpreter_state.pc, 100);
    assert_eq!(exec_state.interpreter_state.locals.len(), 1);
    assert_eq!(exec_state.interpreter_state.operand_stack, vec![WasmValue::I32(456)]);
    assert_eq!(exec_state.interpreter_state.operand_stack_max_size, 1024);
    assert_eq!(snapshot.metadata.timestamp, 7);
    assert_eq!(snapshot.metadata.source_instance_id, Some(1));
}

#[test]
fn test_restore_execution_state_success() {
    let module = Module::new();
    let mut control_stack = ControlStack::new();
    control_stack.push(10);
    control_stack.push(3);
    let handle = interpreter_handle(100, vec![WasmValue::I32(42)], OperandStack::new(1024), control_stack);
    let snapshot = capture_snapshot(&module, &[], &[], &[], Some(&handle), 0).unwrap();
    assert!(snapshot.execution_state.is_some());
    let restored = restore_snapshot(&snapshot, &module, &mut vec![], &mut vec![], &mut vec![]).unwrap().unwrap();
    assert_eq!(restored.instance_id(), 1);
    assert!(restored.is_suspended());
    match restored.suspension_state() {
        SuspensionState::Interpreter(state) => {
            assert_eq!(state.pc, 100);
            assert_eq!(state.locals.len(), 1);
            let mut controls = state.control_stack.duplicate();
            assert_eq!(controls.len(), 2);
            assert_eq!(controls.pop(), Some(3));
            assert_eq!(controls.pop(), Some(10));
        },
        _ => panic!("expected interpreter state"),
    }
}

#[test]
fn test_restore_execution_state_fails_with_incompatible_module() {
    let handle = interpreter_handle(0, vec![], OperandStack::new(1024), ControlStack::new());
    let snapshot = capture_snapshot(&Module::new(), &[], &[], &[], Some(&handle), 0).unwrap();
    let mut different_module = Module::new();
    different_module.funcs.push(Func { type_idx: 0, locals: vec![], body: vec![] });
    let result = restore_snapshot(&snapshot, &different_module, &mut vec![], &mut vec![], &mut vec![]);
    assert!(matches!(result, Err(SnapshotError::IncompatibleTarget(_))));
}

#[test]
fn pending_hostcalls_cannot_be_captured() {
    let mut instance = SuspendedInstance::new_interpreter(
        InterpreterState::capture(0, vec![], OperandStack::new(4), ControlStack::new(), 1, 0),
        1,
    );
    instance.set_state(SuspensionState::HostcallPending {
        pending_work: vec![1],
        result_types: vec![],
        resume_state: Box::new(SuspensionState::Empty),
    });
    let handle = SuspendedHandle::new(instance);
    assert_eq!(
        capture_snapshot(&Module::new(), &[], &[], &[], Some(&handle), 0).unwrap_err(),
        SnapshotError::UnsupportedResource("Hostcall pending state cannot be captured in snapshots".to_string())
    );
}

#[test]
fn restore_stops_at_the_first_part_that_does_not_fit() {
    let module = Module::new();
    let table_type = TableType::new(RefType::FuncRef, Limits::Min(2));
    let mut memory = Memory::new(MemoryType::new(Limits::Min(1)));
    memory.write(0, &[9, 9]).unwrap();
    let tables = [Table { type_: table_type, data: vec![WasmValue::I32(5), WasmValue::I32(6)] }];
    let snapshot = capture_snapshot(&module, &[memory], &[i32_global(true, 1), i32_global(false, 2)], &tables, None, 0)
        .unwrap();
    // The second global's type differs: the first global and the memory are
    // restored, the tables are left alone.
    let mut memories = vec![Memory::new(MemoryType::new(Limits::Min(1)))];
    let mut globals = vec![i32_global(true, 0), i32_global(true, 0)];
    let mut target_tables = vec![Table { type_: table_type, data: vec![] }];
    assert_eq!(
        restore_snapshot(&snapshot, &module, &mut memories, &mut globals, &mut target_tables).unwrap_err(),
        SnapshotError::IncompatibleTarget("global 1 type mismatch".to_string())
    );
    assert_eq!(memories[0].data()[..2], [9, 9]);
    assert_eq!(globals[0].value, WasmValue::I32(1));
    assert_eq!(globals[1].value, WasmValue::I32(0));
    assert!(target_tables[0].data.is_empty());
    // With the globals fixed, the empty table is too small.
    let mut globals = vec![i32_global(true, 0), i32_global(false, 0)];
    assert_eq!(
        restore_snapshot(&snapshot, &module, &mut memories, &mut globals, &mut target_tables).unwrap_err(),
        SnapshotError::InvalidSnapshot("target table is too small for snapshot data".to_string())
    );
    // A memory the target lacks.
    let mut missing = snapshot.clone();
    missing.memory_snapshots.push(MemorySnapshot { index: 3, memory_type: MemoryType::new(Limits::Min(1)), data: vec![] });
    assert_eq!(
        restore_snapshot(&missing, &module, &mut memories, &mut globals, &mut target_tables).unwrap_err(),
        SnapshotError::InvalidSnapshot("memory 3 not found in target instance".to_string())
    );
}
