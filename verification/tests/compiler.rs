//! Checks of the baseline compiler, its cache, call counting and OSR queues.

use std::collections::HashMap;
use wasmtiny::jit::compiler::{
    CompilationTier, CompiledFunction, JitCompiler, OsrCompilationQueue, OsrCompilationTask,
    OsrContext, OsrFrameMetadata, OsrJumpBuffer, OsrQueue, OsrState, OsrValue,
};
use wasmtiny::runtime::{Func, FunctionType, Import, ImportKind, Module, NumType, ValType, WasmError, WasmValue};

/// Compiles the defined functions of modules and keeps their code.
struct JitRuntime {
    compiler: JitCompiler,
    compiled_code: HashMap<u32, Vec<u8>>,
}

impl JitRuntime {
    fn new() -> Self {
        Self { compiler: JitCompiler::new(), compiled_code: HashMap::new() }
    }

    fn compile_module(&mut self, module: &Module) -> Result<(), WasmError> {
        let import_func_count = module.func_import_count_usize() as u32;
        for idx in 0..module.funcs.len() {
            self.compile_function(module, import_func_count + idx as u32)?;
        }
        Ok(())
    }

    fn compile_function(&mut self, module: &Module, func_idx: u32) -> Result<CompiledFunction, WasmError> {
        let compiled = self.compiler.compile(module, func_idx)?;
        self.compiled_code.insert(func_idx, compiled.code.clone());
        Ok(compiled)
    }

    fn execute(&self, module_idx: u32, func_idx: u32, args: &[WasmValue]) -> Result<Vec<WasmValue>, WasmError> {
        let _ = (module_idx, func_idx, args);
        Err(WasmError::Runtime("JIT execution is not implemented".to_string()))
    }
}


#[test]
fn test_compiler_creation() {
    let compiler = JitCompiler::new();
    assert_eq!(compiler.cache_size(), 0);
}

#[test]
fn test_tier_switching() {
    let mut compiler = JitCompiler::new();
    compiler.set_tier(CompilationTier::Optimized);
    assert_eq!(compiler.tier_of(), CompilationTier::Optimized);
}

#[test]
fn test_jit_runtime() {
    let runtime = JitRuntime::new();
    assert_eq!(runtime.compiler.cache_size(), 0);
}

#[test]
fn test_compile_function() {
    let mut module = Module::new();
    module.types.push(FunctionType::new(
        vec![ValType::Num(NumType::I32), ValType::Num(NumType::I32)],
        vec![ValType::Num(NumType::I32)],
    ));
    module.funcs.push(Func {
        type_idx: 0,
        locals: vec![],
        body: vec![0x20, 0x00, 0x20, 0x01, 0x6A, 0x0F],
    });

    let mut compiler = JitCompiler::new();
    let result = compiler.compile(&module, 0);
    assert!(result.is_ok());
    let compiled = result.unwrap();
    assert_eq!(compiled.id, 0);
    assert_eq!(compiled.tier, CompilationTier::Baseline);
}

#[test]
fn test_cache_miss_and_hit() {
    let mut module = Module::new();
    module.types.push(FunctionType::new(vec![], vec![]));
    module.funcs.push(Func {
        type_idx: 0,
        locals: vec![],
        body: vec![0x0F],
    });

    let mut compiler = JitCompiler::new();

    let result1 = compiler.compile(&module, 0);
    assert!(result1.is_ok());
    assert_eq!(compiler.cache_size(), 1);

    let result2 = compiler.compile(&module, 0);
    assert!(result2.is_ok());
    assert_eq!(compiler.cache_size(), 1);
}

#[test]
fn test_ir_translation_local_get() {
    let mut module = Module::new();
    module
        .types
        .push(FunctionType::new(vec![ValType::Num(NumType::I32)], vec![]));
    module.funcs.push(Func {
        type_idx: 0,
        locals: vec![],
        body: vec![0x20, 0x00, 0x0F],
    });

    let mut compiler = JitCompiler::new();
    let result = compiler.compile(&module, 0).unwrap();
    assert!(result.code.len() > 0);
}

#[test]
fn test_ir_translation_i32_add() {
    let mut module = Module::new();
    module.types.push(FunctionType::new(
        vec![ValType::Num(NumType::I32), ValType::Num(NumType::I32)],
        vec![ValType::Num(NumType::I32)],
    ));
    module.funcs.push(Func {
        type_idx: 0,
        locals: vec![],
        body: vec![0x20, 0x00, 0x20, 0x01, 0x6A, 0x0F],
    });

    let mut compiler = JitCompiler::new();
    let result = compiler.compile(&module, 0).unwrap();
    assert!(result.code.len() > 0);
}

#[test]
fn test_ir_translation_decodes_multibyte_local_indices() {
    let mut module = Module::new();
    module.types.push(FunctionType::new(vec![], vec![]));
    module.funcs.push(Func {
        type_idx: 0,
        locals: vec![],
        body: vec![0x20, 0x81, 0x01, 0x0F],
    });

    let mut compiler = JitCompiler::new();
    let result = compiler.compile(&module, 0).unwrap();
    assert!(!result.code.is_empty());
    assert!(result.code.contains(&0xC3));
}

#[test]
fn test_compile_rejects_unsupported_opcode() {
    let mut module = Module::new();
    module.types.push(FunctionType::new(vec![], vec![]));
    module.funcs.push(Func {
        type_idx: 0,
        locals: vec![],
        body: vec![0xFC, 0x00],
    });

    let mut compiler = JitCompiler::new();
    let error = compiler.compile(&module, 0).unwrap_err();
    assert!(
        matches!(error, WasmError::Runtime(message) if message.contains("unsupported opcode"))
    );
}

#[test]
fn test_compile_rejects_truncated_local_immediate() {
    let mut module = Module::new();
    module.types.push(FunctionType::new(vec![], vec![]));
    module.funcs.push(Func {
        type_idx: 0,
        locals: vec![],
        body: vec![0x20],
    });

    let mut compiler = JitCompiler::new();
    let error = compiler.compile(&module, 0).unwrap_err();
    assert!(
        matches!(error, WasmError::Runtime(message) if message.contains("unexpected end of JIT immediate"))
    );
}

#[test]
fn test_compile_multiple_functions() {
    let mut module = Module::new();
    module.types.push(FunctionType::new(vec![], vec![]));
    module.types.push(FunctionType::new(
        vec![ValType::Num(NumType::I32)],
        vec![ValType::Num(NumType::I32)],
    ));
    module.funcs.push(Func {
        type_idx: 0,
        locals: vec![],
        body: vec![0x0F],
    });
    module.funcs.push(Func {
        type_idx: 1,
        locals: vec![],
        body: vec![0x20, 0x00, 0x0F],
    });

    let mut compiler = JitCompiler::new();

    let result0 = compiler.compile(&module, 0);
    assert!(result0.is_ok());

    let result1 = compiler.compile(&module, 1);
    assert!(result1.is_ok());

    assert_eq!(compiler.cache_size(), 2);
}

#[test]
fn test_clear_cache() {
    let mut module = Module::new();
    module.types.push(FunctionType::new(vec![], vec![]));
    module.funcs.push(Func {
        type_idx: 0,
        locals: vec![],
        body: vec![0x0F],
    });

    let mut compiler = JitCompiler::new();
    compiler.compile(&module, 0).unwrap();
    assert_eq!(compiler.cache_size(), 1);

    compiler.clear_cache();
    assert_eq!(compiler.cache_size(), 0);
}

#[test]
fn test_get_compiled_function() {
    let mut module = Module::new();
    module.types.push(FunctionType::new(vec![], vec![]));
    module.funcs.push(Func {
        type_idx: 0,
        locals: vec![],
        body: vec![0x0F],
    });

    let mut compiler = JitCompiler::new();
    compiler.compile(&module, 0).unwrap();

    let compiled = compiler.get_compiled(&module, 0);
    assert!(compiled.is_some());
    assert_eq!(compiled.unwrap().id, 0);

    let not_found = compiler.get_compiled(&module, 1);
    assert!(not_found.is_none());
}

#[test]
fn test_cache_key_distinguishes_modules() {
    let mut first = Module::new();
    first.types.push(FunctionType::new(vec![], vec![]));
    first.funcs.push(Func {
        type_idx: 0,
        locals: vec![],
        body: vec![0x41, 0x01, 0x0F],
    });

    let mut second = Module::new();
    second.types.push(FunctionType::new(vec![], vec![]));
    second.funcs.push(Func {
        type_idx: 0,
        locals: vec![],
        body: vec![0x41, 0x02, 0x0F],
    });

    let mut compiler = JitCompiler::new();
    let first_compiled = compiler.compile(&first, 0).unwrap();
    let second_compiled = compiler.compile(&second, 0).unwrap();

    assert_ne!(first_compiled.code, second_compiled.code);
    assert_eq!(compiler.cache_size(), 2);
}

#[test]
fn test_cache_key_distinguishes_compilation_tiers() {
    let mut module = Module::new();
    module.types.push(FunctionType::new(vec![], vec![]));
    module.funcs.push(Func {
        type_idx: 0,
        locals: vec![],
        body: vec![0x0F],
    });

    let mut compiler = JitCompiler::new();
    let baseline = compiler.compile(&module, 0).unwrap();
    compiler.set_tier(CompilationTier::Optimized);
    let optimised = compiler.compile(&module, 0).unwrap();

    assert_eq!(baseline.tier, CompilationTier::Baseline);
    assert_eq!(optimised.tier, CompilationTier::Optimized);
    assert_eq!(compiler.cache_size(), 2);
}

#[test]
fn test_compile_invalid_function_index() {
    let module = Module::new();

    let mut compiler = JitCompiler::new();
    let result = compiler.compile(&module, 0);
    assert!(result.is_err());
}

#[test]
fn test_compile_rejects_imported_function_index() {
    let mut module = Module::new();
    module.types.push(FunctionType::empty());
    module.imports.push(Import {
        module: "env".to_string(),
        name: "host".to_string(),
        kind: ImportKind::Func(0),
    });

    let mut compiler = JitCompiler::new();
    let error = compiler.compile(&module, 0).unwrap_err();
    assert!(
        matches!(error, WasmError::Runtime(message) if message.contains("imported function"))
    );
}

#[test]
fn test_compile_uses_combined_function_index_space() {
    let mut module = Module::new();
    module.types.push(FunctionType::empty());
    module.imports.push(Import {
        module: "env".to_string(),
        name: "host".to_string(),
        kind: ImportKind::Func(0),
    });
    module.funcs.push(Func {
        type_idx: 0,
        locals: vec![],
        body: vec![0x0F],
    });

    let mut compiler = JitCompiler::new();
    let compiled = compiler.compile(&module, 1).unwrap();

    assert_eq!(compiled.id, 1);
    assert!(compiler.get_compiled(&module, 1).is_some());
}

#[test]
fn test_jit_runtime_compile_module() {
    let mut module = Module::new();
    module.types.push(FunctionType::new(vec![], vec![]));
    module.funcs.push(Func {
        type_idx: 0,
        locals: vec![],
        body: vec![0x0F],
    });

    let mut runtime = JitRuntime::new();
    let result = runtime.compile_module(&module);
    assert!(result.is_ok());
}

#[test]
fn test_jit_runtime_compile_function() {
    let mut module = Module::new();
    module.types.push(FunctionType::new(vec![], vec![]));
    module.funcs.push(Func {
        type_idx: 0,
        locals: vec![],
        body: vec![0x0F],
    });

    let mut runtime = JitRuntime::new();
    let result = runtime.compile_function(&module, 0);
    assert!(result.is_ok());
}

#[test]
fn test_jit_runtime_compile_module_uses_combined_indices() {
    let mut module = Module::new();
    module.types.push(FunctionType::empty());
    module.imports.push(Import {
        module: "env".to_string(),
        name: "host".to_string(),
        kind: ImportKind::Func(0),
    });
    module.funcs.push(Func {
        type_idx: 0,
        locals: vec![],
        body: vec![0x0F],
    });

    let mut runtime = JitRuntime::new();
    runtime.compile_module(&module).unwrap();

    assert!(runtime.compiler.get_compiled(&module, 1).is_some());
}

#[test]
fn test_jit_runtime_execute() {
    let runtime = JitRuntime::new();
    let result = runtime.execute(0, 0, &[]);
    assert!(result.is_err());
}

#[test]
fn test_osr_queue_push_and_pop() {
    let mut queue = OsrQueue::new();
    assert!(queue.is_empty());

    queue.push(1);
    queue.push(2);
    assert_eq!(queue.len(), 2);

    assert_eq!(queue.pop(), Some(1));
    assert_eq!(queue.pop(), Some(2));
    assert!(queue.is_empty());
}

#[test]
fn test_osr_queue_no_duplicates() {
    let mut queue = OsrQueue::new();
    queue.push(1);
    queue.push(1);
    queue.push(2);
    assert_eq!(queue.len(), 2);
}

#[test]
fn test_hot_threshold() {
    let mut compiler = JitCompiler::new();
    assert!(!compiler.is_hot(0));

    compiler.record_call(0);
    assert!(!compiler.is_hot(0));

    for _ in 0..998 {
        compiler.record_call(0);
    }
    assert!(!compiler.is_hot(0));

    compiler.record_call(0);
    assert!(compiler.is_hot(0));
}

#[test]
fn test_should_osr() {
    let mut compiler = JitCompiler::new();
    compiler.enable_osr();

    compiler.record_call(0);
    assert!(!compiler.should_osr(0));

    for _ in 0..998 {
        compiler.record_call(0);
    }
    assert!(!compiler.should_osr(0));

    compiler.record_call(0);
    assert!(compiler.should_osr(0));
}

#[test]
fn test_osr_compilation_queue_priority() {
    let mut queue = OsrCompilationQueue::new();
    queue.push(OsrCompilationTask {
        func_idx: 1,
        module_id: 0,
        priority: 10,
    });
    queue.push(OsrCompilationTask {
        func_idx: 2,
        module_id: 0,
        priority: 5,
    });
    queue.push(OsrCompilationTask {
        func_idx: 3,
        module_id: 0,
        priority: 15,
    });

    assert_eq!(queue.len(), 3);

    let task1 = queue.pop().unwrap();
    assert_eq!(task1.priority, 5);

    let task2 = queue.pop().unwrap();
    assert_eq!(task2.priority, 10);

    let task3 = queue.pop().unwrap();
    assert_eq!(task3.priority, 15);

    assert!(queue.is_empty());
}

#[test]
fn test_osr_context_creation() {
    let context = OsrContext::new(42, 1000);
    assert_eq!(context.func_idx, 42);
    assert_eq!(context.call_count, 1000);
    assert_eq!(context.state, OsrState::Pending);
}

#[test]
fn test_osr_context_state_transitions() {
    let mut context = OsrContext::new(1, 100);
    context.mark_ready();
    assert_eq!(context.state, OsrState::Ready);

    context.mark_transitioning();
    assert_eq!(context.state, OsrState::Transitioning);
}

#[test]
fn test_osr_frame_metadata() {
    let metadata = OsrFrameMetadata::new(1, 100);
    assert_eq!(metadata.func_idx, 1);
    assert_eq!(metadata.pc, 100);
    assert!(metadata.locals.is_empty());
    assert!(metadata.operand_stack.is_empty());

    let metadata = metadata.with_locals(vec![OsrValue::I32(42)]);
    assert_eq!(metadata.locals.len(), 1);
}

#[test]
fn test_osr_value_conversion() {
    let wasm_val = WasmValue::I32(42);
    let osr_val = OsrValue::from_wasm_value(wasm_val);
    assert!(matches!(osr_val, OsrValue::I32(42)));

    let wasm_back = osr_val.to_wasm_value();
    assert!(matches!(wasm_back, WasmValue::I32(42)));
}

#[test]
fn test_osr_jump_buffer_capture_restore() {
    let mut buffer = OsrJumpBuffer::new();
    buffer.capture(
        1,
        100,
        vec![OsrValue::I32(1), OsrValue::I32(2)],
        vec![OsrValue::I64(99)],
    );

    let (pc, locals, stack) = buffer.restore();
    assert_eq!(pc, 100);
    assert_eq!(locals.len(), 2);
    assert_eq!(stack.len(), 1);
}

#[test]
fn test_osr_jump_buffer_transfer() {
    let mut buffer = OsrJumpBuffer::new();
    buffer.capture(
        1,
        0,
        vec![OsrValue::I32(10), OsrValue::I32(20)],
        vec![OsrValue::I64(30)],
    );

    let mut target_locals = vec![OsrValue::I32(0); 2];
    let mut target_stack = Vec::new();
    buffer.transfer_to(&mut target_locals, &mut target_stack);

    assert!(matches!(target_locals[0], OsrValue::I32(10)));
    assert!(matches!(target_locals[1], OsrValue::I32(20)));
    assert!(matches!(target_stack[0], OsrValue::I64(30)));
}

#[test]
fn else_of_an_if_is_found_past_nested_blocks() {
    // if; i32.const 1; else; i32.const 2; end
    assert_eq!(JitCompiler::find_else_offset(&[0x04, 0x40, 0x41, 0x01, 0x05, 0x41, 0x02, 0x0B], 0), 4);
    // if; if; else; end; else; end: the inner else is skipped
    assert_eq!(JitCompiler::find_else_offset(&[0x04, 0x40, 0x04, 0x40, 0x05, 0x0B, 0x05, 0x0B], 0), 6);
    // an if without else
    assert_eq!(JitCompiler::find_else_offset(&[0x04, 0x40, 0x01, 0x0B], 0), 0);
    // an end at the outer level comes first
    assert_eq!(JitCompiler::find_else_offset(&[0x01, 0x0B, 0x05], 0), 0);
}

#[test]
fn block_end_skips_nested_blocks_and_immediates() {
    // i32.const 1; block; end; end
    assert_eq!(JitCompiler::find_block_end(&[0x41, 0x01, 0x02, 0x40, 0x0B, 0x0B], 0), 5);
    // local.get 0x0B (the immediate is not an end); else
    assert_eq!(JitCompiler::find_block_end(&[0x20, 0x0B, 0x05], 0), 2);
    // no end at all
    assert_eq!(JitCompiler::find_block_end(&[0x01, 0x01], 0), 0);
}

#[test]
fn uleb_size_counts_continuation_bytes() {
    assert_eq!(JitCompiler::uleb_size(&[0x80, 0x80, 0x01, 0x00], 0), 3);
    assert_eq!(JitCompiler::uleb_size(&[0x00, 0x05], 1), 1);
    assert_eq!(JitCompiler::uleb_size(&[0x80], 0), 1);
    assert_eq!(JitCompiler::uleb_size(&[0x01], 1), 0);
}

#[test]
fn cached_code_keeps_the_requested_index_and_errors_keep_the_cache() {
    let mut module = Module::new();
    module.types.push(FunctionType::empty());
    module.imports.push(Import { module: "env".to_string(), name: "host".to_string(), kind: ImportKind::Func(0) });
    module.funcs.push(Func { type_idx: 0, locals: vec![], body: vec![0x0F] });
    let mut compiler = JitCompiler::new();
    let first = compiler.compile(&module, 1).unwrap();
    assert_eq!(first.id, 1);
    let again = compiler.compile(&module, 1).unwrap();
    assert_eq!(again.id, 1);
    assert_eq!(compiler.cache_size(), 1);
    assert_eq!(
        compiler.compile(&module, 0).unwrap_err(),
        WasmError::Runtime("cannot JIT-compile imported function 0".to_string())
    );
    assert_eq!(
        compiler.compile(&module, 2).unwrap_err(),
        WasmError::Runtime("function 2 not found".to_string())
    );
    assert_eq!(compiler.cache_size(), 1);
}
