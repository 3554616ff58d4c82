//! Byte-level checks of the x86-64 emitter.

use wasmtiny::jit::{Condition, Emitter, Reg};


#[test]
fn test_emitter_creation() {
    let emitter = Emitter::new();
    assert!(emitter.code().is_empty());
}

#[test]
fn test_mov_rr() {
    let mut emitter = Emitter::new();
    emitter.emit_mov_rr(Reg::Rax, Reg::Rcx);
    assert!(!emitter.code().is_empty());
}

#[test]
fn test_mov_ra() {
    let mut emitter = Emitter::new();
    emitter.emit_mov_ra(Reg::Rax, 42);
    assert!(!emitter.code().is_empty());
}

#[test]
fn test_add_rr() {
    let mut emitter = Emitter::new();
    emitter.emit_add_rr(Reg::Rax, Reg::Rcx);
    assert!(!emitter.code().is_empty());
}

#[test]
fn test_sub_rr() {
    let mut emitter = Emitter::new();
    emitter.emit_sub_rr(Reg::Rax, Reg::Rcx);
    assert!(!emitter.code().is_empty());
}

#[test]
fn test_mul_rr() {
    let mut emitter = Emitter::new();
    emitter.emit_mul_rr(Reg::Rax, Reg::Rcx);
    assert!(!emitter.code().is_empty());
}

#[test]
fn test_jmp_rel32() {
    let mut emitter = Emitter::new();
    emitter.emit_jmp_rel32(100);
    assert!(!emitter.code().is_empty());
}

#[test]
fn test_jcc_rel32() {
    let mut emitter = Emitter::new();
    emitter.emit_jcc_rel32(Condition::Equal, 50);
    assert!(!emitter.code().is_empty());
}

#[test]
fn test_call_rel32() {
    let mut emitter = Emitter::new();
    emitter.emit_call_rel32(1000);
    assert!(!emitter.code().is_empty());
}

#[test]
fn test_ret() {
    let mut emitter = Emitter::new();
    emitter.emit_ret();
    assert_eq!(emitter.code(), &[0xC3]);
}

#[test]
fn test_pop() {
    let mut emitter = Emitter::new();
    emitter.emit_pop(Reg::Rax);
    assert!(!emitter.code().is_empty());
}

#[test]
fn test_push() {
    let mut emitter = Emitter::new();
    emitter.emit_push(Reg::Rax);
    assert!(!emitter.code().is_empty());
}

#[test]
fn test_cmp_rr() {
    let mut emitter = Emitter::new();
    emitter.emit_cmp_rr(Reg::Rax, Reg::Rcx);
    assert!(!emitter.code().is_empty());
}

#[test]
fn test_test_rr() {
    let mut emitter = Emitter::new();
    emitter.emit_test_rr(Reg::Rax, Reg::Rcx);
    assert!(!emitter.code().is_empty());
}

#[test]
fn test_shift_operations() {
    let mut emitter = Emitter::new();
    emitter.emit_shl_ri(Reg::Rax, 4);
    assert!(!emitter.code().is_empty());

    let mut emitter = Emitter::new();
    emitter.emit_shr_ri(Reg::Rax, 2);
    assert!(!emitter.code().is_empty());

    let mut emitter = Emitter::new();
    emitter.emit_sar_ri(Reg::Rax, 1);
    assert!(!emitter.code().is_empty());
}

#[test]
fn test_rotate_operations() {
    let mut emitter = Emitter::new();
    emitter.emit_rol_ri(Reg::Rax, 4);
    assert!(!emitter.code().is_empty());

    let mut emitter = Emitter::new();
    emitter.emit_ror_ri(Reg::Rax, 4);
    assert!(!emitter.code().is_empty());
}

#[test]
fn test_logical_operations() {
    let mut emitter = Emitter::new();
    emitter.emit_xor_rr(Reg::Rax, Reg::Rax);
    assert!(!emitter.code().is_empty());

    let mut emitter = Emitter::new();
    emitter.emit_or_rr(Reg::Rax, Reg::Rcx);
    assert!(!emitter.code().is_empty());

    let mut emitter = Emitter::new();
    emitter.emit_and_rr(Reg::Rax, Reg::Rcx);
    assert!(!emitter.code().is_empty());
}

#[test]
fn test_immediate_operations() {
    let mut emitter = Emitter::new();
    emitter.emit_add_ri(Reg::Rax, 100);
    assert!(!emitter.code().is_empty());

    let mut emitter = Emitter::new();
    emitter.emit_sub_ri(Reg::Rax, 50);
    assert!(!emitter.code().is_empty());

    let mut emitter = Emitter::new();
    emitter.emit_cmp_ri(Reg::Rax, 10);
    assert!(!emitter.code().is_empty());
}

#[test]
fn test_stack_operations() {
    let mut emitter = Emitter::new();
    emitter.emit_sub_rsp(32);
    assert!(!emitter.code().is_empty());

    let mut emitter = Emitter::new();
    emitter.emit_add_rsp(32);
    assert!(!emitter.code().is_empty());
}

#[test]
fn test_div_operations() {
    let mut emitter = Emitter::new();
    emitter.emit_div_i64(Reg::Rcx);
    assert!(!emitter.code().is_empty());

    let mut emitter = Emitter::new();
    emitter.emit_div_u64(Reg::Rcx);
    assert!(!emitter.code().is_empty());
}

#[test]
fn test_byte_emission() {
    let mut emitter = Emitter::new();
    emitter.emit_byte(0x90);
    assert_eq!(emitter.code(), &[0x90]);
}

#[test]
fn test_mov_rr_encoding() {
    let mut emitter = Emitter::new();
    emitter.emit_mov_rr(Reg::Rax, Reg::Rcx);
    let code = emitter.code();
    assert_eq!(code.len(), 3);
    assert_eq!(code[0], 0x48);
    assert_eq!(code[1], 0x89);
    assert_eq!(code[2], 0xc8);
}

#[test]
fn test_add_rr_encoding() {
    let mut emitter = Emitter::new();
    emitter.emit_add_rr(Reg::Rax, Reg::Rcx);
    let code = emitter.code();
    assert_eq!(code.len(), 3);
    assert_eq!(code[0], 0x48);
    assert_eq!(code[1], 0x01);
    assert_eq!(code[2], 0xc8);
}

#[test]
fn test_sub_rr_encoding() {
    let mut emitter = Emitter::new();
    emitter.emit_sub_rr(Reg::Rax, Reg::Rcx);
    let code = emitter.code();
    assert_eq!(code.len(), 3);
    assert_eq!(code[0], 0x48);
    assert_eq!(code[1], 0x29);
    assert_eq!(code[2], 0xc8);
}

#[test]
fn test_cmp_rr_encoding() {
    let mut emitter = Emitter::new();
    emitter.emit_cmp_rr(Reg::Rax, Reg::Rcx);
    let code = emitter.code();
    assert_eq!(code.len(), 3);
    assert_eq!(code[0], 0x48);
    assert_eq!(code[1], 0x39);
    assert_eq!(code[2], 0xc8);
}

#[test]
fn test_ret_encoding() {
    let mut emitter = Emitter::new();
    emitter.emit_ret();
    let code = emitter.code();
    assert_eq!(code, &[0xC3]);
}

#[test]
fn test_push_pop_encoding() {
    let mut emitter = Emitter::new();
    emitter.emit_push(Reg::Rax);
    let code = emitter.code();
    assert_eq!(code, &[0x48, 0x50]);

    let mut emitter = Emitter::new();
    emitter.emit_pop(Reg::Rax);
    let code = emitter.code();
    assert_eq!(code, &[0x48, 0x58]);
}

#[test]
fn test_cdq_encoding() {
    let mut emitter = Emitter::new();
    emitter.emit_cdq();
    let code = emitter.code();
    assert_eq!(code, &[0x99]);
}

#[test]
fn test_jmp_rel32_encoding() {
    let mut emitter = Emitter::new();
    emitter.emit_jmp_rel32(0x00001000);
    let code = emitter.code();
    assert_eq!(code.len(), 5);
    assert_eq!(code[0], 0xE9);
    assert_eq!(code[1..5], 0x00001000u32.to_le_bytes());
}

#[test]
fn test_jcc_rel32_encoding() {
    let mut emitter = Emitter::new();
    emitter.emit_jcc_rel32(Condition::Equal, 0x00001000);
    let code = emitter.code();
    assert_eq!(code.len(), 6);
    assert_eq!(code[0], 0x0F);
    assert_eq!(code[1], 0x80 | Condition::Equal.encode());
    assert_eq!(code[2..6], 0x00001000u32.to_le_bytes());
}

#[test]
fn test_mov_ri32_encoding() {
    let mut emitter = Emitter::new();
    emitter.emit_mov_ri32(Reg::Rax, 0x12345678);
    let code = emitter.code();
    assert_eq!(code.len(), 5);
    assert_eq!(code[0], 0xB8 | Reg::Rax.encode());
    assert_eq!(code[1..5], 0x12345678u32.to_le_bytes());
}

#[test]
fn test_cmp_ri_encoding() {
    let mut emitter = Emitter::new();
    emitter.emit_cmp_ri(Reg::Rax, 42);
    let code = emitter.code();
    assert!(!code.is_empty());
    assert_eq!(code[code.len() - 4..], 42i32.to_le_bytes());
}

#[test]
fn test_div_i32_encoding() {
    let mut emitter = Emitter::new();
    emitter.emit_div_i32(Reg::Rcx);
    let code = emitter.code();
    assert_eq!(code.len(), 2);
    assert_eq!(code[0], 0xF7);
    assert_eq!(code[1], (0x03 << 6) | (0x07 << 3) | Reg::Rcx.encode());
}

#[test]
fn test_div_u32_encoding() {
    let mut emitter = Emitter::new();
    emitter.emit_div_u32(Reg::Rcx);
    let code = emitter.code();
    assert_eq!(code.len(), 2);
    assert_eq!(code[0], 0xF7);
    assert_eq!(code[1], (0x03 << 6) | (0x06 << 3) | Reg::Rcx.encode());
}
