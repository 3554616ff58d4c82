//! Checks of runtime values and their serialisation.

use wasmtiny::runtime::{NumType, RefType, ValType, WasmValue};

fn roundtrip(val: WasmValue) -> (WasmValue, usize) {
    let mut bytes = Vec::new();
    val.to_bytes(&mut bytes);
    WasmValue::from_bytes(&bytes).unwrap()
}

#[test]
fn test_val_type() {
    assert_eq!(WasmValue::I32(42).val_type(), ValType::Num(NumType::I32));
    assert_eq!(WasmValue::F64(3.14f64.to_bits()).val_type(), ValType::Num(NumType::F64));
}

#[test]
fn test_accessors() {
    let val = WasmValue::I32(42);
    assert_eq!(val.i32().unwrap(), 42);
}

#[test]
fn test_serialization_roundtrip_i32() {
    let val = WasmValue::I32(42);
    let (restored, _) = roundtrip(val);
    assert_eq!(val, restored);
}

#[test]
fn test_serialization_roundtrip_i64() {
    let val = WasmValue::I64(12345678901234);
    let (restored, _) = roundtrip(val);
    assert_eq!(val, restored);
}

#[test]
fn test_serialization_roundtrip_f32() {
    let val = WasmValue::F32(3.14f32.to_bits());
    let (restored, _) = roundtrip(val);
    assert_eq!(val, restored);
}

#[test]
fn test_serialization_roundtrip_f64() {
    let val = WasmValue::F64(2.718281828459045f64.to_bits());
    let (restored, _) = roundtrip(val);
    assert_eq!(val, restored);
}

#[test]
fn test_serialization_roundtrip_nan() {
    let val = WasmValue::F32(f32::NAN.to_bits());
    let (restored, _) = roundtrip(val);
    assert_eq!(val.val_type(), restored.val_type());
}

#[test]
fn test_serialization_roundtrip_funcref() {
    let val = WasmValue::FuncRef(42);
    let (restored, _) = roundtrip(val);
    assert_eq!(val, restored);
}

#[test]
fn test_serialization_roundtrip_externref() {
    let val = WasmValue::ExternRef(99);
    let (restored, _) = roundtrip(val);
    assert_eq!(val, restored);
}

#[test]
fn test_serialization_roundtrip_nullref() {
    let val = WasmValue::NullRef(RefType::FuncRef);
    let (restored, _) = roundtrip(val);
    assert_eq!(val, restored);
}

#[test]
fn serialised_forms_have_exact_bytes() {
    let mut bytes = Vec::new();
    WasmValue::I32(-2).to_bytes(&mut bytes);
    assert_eq!(bytes, vec![0, 0xFE, 0xFF, 0xFF, 0xFF]);
    let mut bytes = Vec::new();
    WasmValue::NullRef(RefType::ExternRef).to_bytes(&mut bytes);
    assert_eq!(bytes, vec![4, 1]);
    let mut bytes = Vec::new();
    WasmValue::I64(1).to_bytes(&mut bytes);
    assert_eq!(bytes.len(), 9);
    assert_eq!(WasmValue::from_bytes(&bytes), Some((WasmValue::I64(1), 9)));
}

#[test]
fn decoding_reads_one_value_and_reports_its_length() {
    let mut bytes = Vec::new();
    WasmValue::FuncRef(7).to_bytes(&mut bytes);
    WasmValue::I32(1).to_bytes(&mut bytes);
    assert_eq!(WasmValue::from_bytes(&bytes), Some((WasmValue::FuncRef(7), 5)));
    assert_eq!(WasmValue::from_bytes(&bytes[5..]), Some((WasmValue::I32(1), 5)));
}

#[test]
fn truncated_or_unknown_forms_are_refused() {
    assert_eq!(WasmValue::from_bytes(&[]), None);
    assert_eq!(WasmValue::from_bytes(&[0, 1, 2]), None);
    assert_eq!(WasmValue::from_bytes(&[9, 0, 0, 0, 0]), None);
}

#[test]
fn accessors_refuse_other_types() {
    assert!(WasmValue::I64(1).i32().is_err());
    assert_eq!(WasmValue::I64(-5).i64().unwrap(), -5);
    assert_eq!(WasmValue::F32(0x3f80_0000).f32_bits().unwrap(), 0x3f80_0000);
    assert!(WasmValue::I32(0).f64_bits().is_err());
}
