//! Checks of the runtime's errors, modules, imports and exports.

use wasmtiny::runtime::{
    ExportKind, ExportType, Func, FunctionType, Import, ImportKind, Limits, MemoryType, Module,
    NumType, Result, TrapCode, ValType, WasmError,
};

#[test]
fn test_error_display() {
    let err = WasmError::Validation("type mismatch".to_string());
    assert_eq!(err.display_string(), "Validation error: type mismatch");
}

#[test]
fn test_trap_code() {
    assert_eq!(format!("{:?}", TrapCode::MemoryOutOfBounds), "MemoryOutOfBounds");
}

#[test]
fn test_result_alias() {
    let result: Result<i32> = Ok(42);
    assert_eq!(result.unwrap(), 42);
}

#[test]
fn test_module_creation() {
    let mut module = Module::new();
    module.types.push(FunctionType::new(
        vec![ValType::Num(NumType::I32)],
        vec![ValType::Num(NumType::I32)],
    ));
    module.exports.push(ExportType::new_func("add".to_string(), 0));

    assert_eq!(module.types.len(), 1);
    assert_eq!(module.export("add").unwrap().name, "add");
}

#[test]
fn test_func_type_lookup() {
    let mut module = Module::new();
    module.types.push(FunctionType::new(
        vec![ValType::Num(NumType::I32)],
        vec![ValType::Num(NumType::I32)],
    ));
    module.funcs.push(Func { type_idx: 0, locals: vec![], body: vec![] });

    assert!(module.func_type(0).is_some());
    assert!(module.func_type(1).is_none());
}

#[test]
fn test_export_func() {
    let export = ExportType::new_func("add".to_string(), 0);
    assert_eq!(export.name, "add");
    assert!(matches!(export.kind, ExportKind::Func(0)));
}

#[test]
fn test_import() {
    let import = Import {
        module: "env".to_string(),
        name: "memory".to_string(),
        kind: ImportKind::Memory(MemoryType::new(Limits::Min(1))),
    };
    assert_eq!(import.module, "env");
    assert_eq!(import.name, "memory");
}
