//! Checks of the planned lowering of functions to LLVM IR.

use wasmtiny::jit::llvm_plan::{
    memory_helper, plan_function, BinaryOp, BlockRole, IntPredicate, LlvmOp,
};
use wasmtiny::runtime::{Func, FunctionType, Local, Module, NumType, ValType, WasmError};

fn module_with(params: Vec<ValType>, results: Vec<ValType>, locals: Vec<Local>, body: Vec<u8>) -> Module {
    let mut module = Module::new();
    module.types.push(FunctionType::new(params, results));
    module.funcs.push(Func { type_idx: 0, locals, body });
    module
}

fn i32t() -> ValType {
    ValType::Num(NumType::I32)
}

fn plan(module: &Module) -> Result<Vec<LlvmOp>, WasmError> {
    plan_function(&module.funcs[0], 0, module)
}

#[test]
fn test_translate_simple_add() {
    let module = module_with(vec![i32t(), i32t()], vec![i32t()], vec![], vec![0x20, 0x00, 0x20, 0x01, 0x6A, 0x0F]);
    let ops = plan(&module).unwrap();
    assert_eq!(
        ops,
        vec![
            LlvmOp::EntryBlock,
            LlvmOp::ParamSlot { index: 0 },
            LlvmOp::ParamSlot { index: 1 },
            LlvmOp::LoadLocal { slot: 1 },
            LlvmOp::LoadLocal { slot: 2 },
            LlvmOp::Binary { opcode: 0x6A, op: BinaryOp::Add, lhs: 3, rhs: 4 },
            LlvmOp::Return { value: 5 },
        ]
    );
}

#[test]
fn test_translate_i32_const() {
    let module = module_with(vec![], vec![i32t()], vec![], vec![0x41, 0x2A, 0x0F]);
    let ops = plan(&module).unwrap();
    assert_eq!(
        ops,
        vec![
            LlvmOp::EntryBlock,
            LlvmOp::ConstInt { ty: NumType::I32, value: 42, sign_extend: true },
            LlvmOp::Return { value: 1 },
        ]
    );
}

#[test]
fn test_translate_i64_arithmetic() {
    let i64t = ValType::Num(NumType::I64);
    let module = module_with(vec![i64t, i64t], vec![i64t], vec![], vec![0x20, 0x00, 0x20, 0x01, 0x7C, 0x0F]);
    assert!(plan(&module).is_ok());
}

#[test]
fn test_translate_f32_arithmetic() {
    let f32t = ValType::Num(NumType::F32);
    let module = module_with(vec![f32t, f32t], vec![f32t], vec![], vec![0x20, 0x00, 0x20, 0x01, 0x8C, 0x0F]);
    let ops = plan(&module).unwrap();
    assert_eq!(ops[5], LlvmOp::Binary { opcode: 0x8C, op: BinaryOp::FAdd, lhs: 3, rhs: 4 });
}

#[test]
fn test_translate_f64_arithmetic() {
    let f64t = ValType::Num(NumType::F64);
    let module = module_with(vec![f64t, f64t], vec![f64t], vec![], vec![0x20, 0x00, 0x20, 0x01, 0x92, 0x0F]);
    assert!(plan(&module).is_ok());
}

#[test]
fn test_translate_i32_comparison() {
    let module = module_with(vec![i32t(), i32t()], vec![i32t()], vec![], vec![0x20, 0x00, 0x20, 0x01, 0x46, 0x0F]);
    let ops = plan(&module).unwrap();
    assert_eq!(ops[5], LlvmOp::IntCompare { opcode: 0x46, pred: IntPredicate::Eq, lhs: 3, rhs: 4 });
    assert_eq!(ops[6], LlvmOp::ZExtToI32 { opcode: 0x46, value: 5 });
    assert_eq!(ops[7], LlvmOp::Return { value: 6 });
}

#[test]
fn test_translate_local_ops() {
    let module = module_with(vec![i32t()], vec![i32t()], vec![], vec![0x20, 0x00, 0x21, 0x00, 0x20, 0x00, 0x0F]);
    let ops = plan(&module).unwrap();
    assert_eq!(ops[3], LlvmOp::StoreLocal { value: 2, slot: 1 });
    assert_eq!(ops[4], LlvmOp::LoadLocal { slot: 1 });
}

#[test]
fn test_translate_void_function() {
    let module = module_with(vec![], vec![], vec![], vec![0x0B]);
    let ops = plan(&module).unwrap();
    assert_eq!(ops, vec![LlvmOp::EntryBlock, LlvmOp::ReturnVoid]);
}

#[test]
fn test_translate_with_locals() {
    let module = module_with(
        vec![i32t()],
        vec![i32t()],
        vec![Local { count: 1, type_: i32t() }],
        vec![0x41, 0x05, 0x21, 0x01, 0x20, 0x01, 0x0F],
    );
    let ops = plan(&module).unwrap();
    assert_eq!(ops[2], LlvmOp::LocalSlot { ty: i32t() });
    assert_eq!(ops[3], LlvmOp::StoreZero { slot: 2, ty: NumType::I32 });
    assert_eq!(ops[5], LlvmOp::StoreLocal { value: 4, slot: 2 });
    assert_eq!(ops[6], LlvmOp::LoadLocal { slot: 2 });
}

#[test]
fn missing_function_type_is_reported() {
    let module = Module::new();
    let func = Func { type_idx: 0, locals: vec![], body: vec![] };
    assert_eq!(
        plan_function(&func, 3, &module),
        Err(WasmError::Runtime("Function type not found for 3".to_string()))
    );
}

#[test]
fn unsupported_and_truncated_instructions_fail() {
    let module = module_with(vec![], vec![], vec![], vec![0x6F]);
    assert_eq!(plan(&module), Err(WasmError::Runtime("Unsupported WASM opcode: 0x6F".to_string())));
    let module = module_with(vec![], vec![], vec![], vec![0x41, 0x80]);
    assert_eq!(plan(&module), Err(WasmError::Runtime("unexpected end of bytecode".to_string())));
    let module = module_with(vec![], vec![], vec![], vec![0x43, 0x00]);
    assert_eq!(
        plan(&module),
        Err(WasmError::Runtime("unexpected end of bytecode reading f32".to_string()))
    );
    let module = module_with(vec![], vec![], vec![], vec![0x11, 0x00, 0x00]);
    assert_eq!(plan(&module), Err(WasmError::Runtime("call_indirect not yet supported".to_string())));
}

#[test]
fn blocks_branch_to_their_ends() {
    // block; i32.const 1; br_if 0; end
    let module = module_with(vec![], vec![], vec![], vec![0x02, 0x40, 0x41, 0x01, 0x0D, 0x00, 0x0B, 0x0B]);
    let ops = plan(&module).unwrap();
    assert_eq!(
        ops,
        vec![
            LlvmOp::EntryBlock,
            LlvmOp::AppendBlock { role: BlockRole::BlockEnd },
            LlvmOp::ConstInt { ty: NumType::I32, value: 1, sign_extend: true },
            LlvmOp::AppendBlock { role: BlockRole::BrIfFall },
            LlvmOp::TruncToI1 { value: 2 },
            LlvmOp::CondBranch { cond: 4, then_target: 1, else_target: 3 },
            LlvmOp::PositionAtEnd { block: 3 },
            LlvmOp::Branch { target: 1 },
            LlvmOp::PositionAtEnd { block: 1 },
            LlvmOp::ReturnVoid,
        ]
    );
}

#[test]
fn loads_add_their_offset_and_call_helpers() {
    let module = module_with(vec![i32t()], vec![i32t()], vec![], vec![0x20, 0x00, 0x28, 0x02, 0x08, 0x0F]);
    let ops = plan(&module).unwrap();
    assert_eq!(ops[3], LlvmOp::ConstInt { ty: NumType::I32, value: 8, sign_extend: false });
    assert_eq!(ops[4], LlvmOp::Binary { opcode: 0x6A, op: BinaryOp::Add, lhs: 2, rhs: 3 });
    assert_eq!(ops[5], LlvmOp::MemLoad { opcode: 0x28, addr: 4 });
    assert_eq!(memory_helper(0x28), Some(("llvm_jit_i32_load", NumType::I32)));
    assert_eq!(memory_helper(0x3E), Some(("llvm_jit_i64_store32", NumType::I64)));
    assert_eq!(memory_helper(0x40), None);
}

#[test]
fn self_calls_pass_their_arguments() {
    let module = module_with(vec![i32t()], vec![i32t()], vec![], vec![0x41, 0x07, 0x10, 0x00, 0x10, 0x05, 0x0F]);
    let ops = plan(&module).unwrap();
    assert_eq!(ops[3], LlvmOp::CallArg { value: 2 });
    assert_eq!(ops[4], LlvmOp::Call { callee: 0, argc: 1 });
    assert_eq!(ops[5], LlvmOp::Return { value: 4 });
}

/// The positions an operation refers to: values, slots and blocks.
fn references(op: &LlvmOp) -> (Vec<usize>, Vec<usize>, Vec<usize>) {
    match *op {
        LlvmOp::StoreZero { slot, .. } | LlvmOp::LoadLocal { slot } => (vec![], vec![slot], vec![]),
        LlvmOp::StoreLocal { value, slot } => (vec![value], vec![slot], vec![]),
        LlvmOp::Binary { lhs, rhs, .. }
        | LlvmOp::IntCompare { lhs, rhs, .. }
        | LlvmOp::FloatCompare { lhs, rhs, .. } => (vec![lhs, rhs], vec![], vec![]),
        LlvmOp::TruncToI8 { value }
        | LlvmOp::ZExtToI32 { value, .. }
        | LlvmOp::FNeg { value, .. }
        | LlvmOp::FPTrunc { value }
        | LlvmOp::FPExt { value }
        | LlvmOp::TruncToI1 { value }
        | LlvmOp::CallArg { value }
        | LlvmOp::Return { value } => (vec![value], vec![], vec![]),
        LlvmOp::MemLoad { addr, .. } => (vec![addr], vec![], vec![]),
        LlvmOp::MemStore { addr, value, .. } => (vec![addr, value], vec![], vec![]),
        LlvmOp::Branch { target } | LlvmOp::PositionAtEnd { block: target } => (vec![], vec![], vec![target]),
        LlvmOp::CondBranch { cond, then_target, else_target } => (vec![cond], vec![], vec![then_target, else_target]),
        _ => (vec![], vec![], vec![]),
    }
}

fn is_block(op: &LlvmOp) -> bool {
    matches!(op, LlvmOp::EntryBlock | LlvmOp::AppendBlock { .. })
}

fn is_slot(op: &LlvmOp) -> bool {
    matches!(op, LlvmOp::ParamSlot { .. } | LlvmOp::LocalSlot { .. })
}

fn is_value(op: &LlvmOp) -> bool {
    !matches!(
        op,
        LlvmOp::EntryBlock
            | LlvmOp::StoreZero { .. }
            | LlvmOp::Unreachable
            | LlvmOp::StoreLocal { .. }
            | LlvmOp::MemStore { .. }
            | LlvmOp::AppendBlock { .. }
            | LlvmOp::Branch { .. }
            | LlvmOp::CondBranch { .. }
            | LlvmOp::PositionAtEnd { .. }
            | LlvmOp::CallArg { .. }
            | LlvmOp::Return { .. }
            | LlvmOp::ReturnVoid
    )
}

#[test]
fn plans_refer_only_to_earlier_operations() {
    // if (local 0) { local 1 = local 0 * 2; loop { br 1 } } else { } ; f32 load at +4; drop; local 1
    let body = vec![
        0x20, 0x00, 0x04, 0x40, 0x20, 0x00, 0x41, 0x02, 0x6C, 0x21, 0x01, 0x03, 0x40, 0x0C, 0x01, 0x0B, 0x05,
        0x0B, 0x20, 0x00, 0x2A, 0x02, 0x04, 0x1A, 0x20, 0x01, 0x0F,
    ];
    let module = module_with(vec![i32t()], vec![i32t()], vec![Local { count: 1, type_: i32t() }], body);
    let ops = plan(&module).unwrap();
    assert!(ops.len() > 10);
    for (i, op) in ops.iter().enumerate() {
        let (values, slots, blocks) = references(op);
        for v in values {
            assert!(v < i && is_value(&ops[v]), "operation {} uses value {}", i, v);
        }
        for s in slots {
            assert!(s < i && is_slot(&ops[s]), "operation {} uses slot {}", i, s);
        }
        for b in blocks {
            assert!(b < i && is_block(&ops[b]), "operation {} uses block {}", i, b);
        }
    }
}
