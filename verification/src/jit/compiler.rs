//! The baseline compiler from WebAssembly function bodies to x86-64 code.
//!
//! The translation is a single pass over the body. Each instruction is
//! compiled to a fixed sequence of x86-64 instructions that keeps the operand
//! stack on the machine stack; forward branches are recorded as patch sites
//! and fixed up when the target block ends. The specification below states,
//! instruction by instruction, the bytes emitted and when translation fails.

use super::emitter::{
    alu_ri_bytes, arith_rr_bytes, cqo_bytes, div_i32_bytes, div_i64_bytes, div_u32_bytes,
    div_u64_bytes, jcc_rel32_bytes, jcc_rel8_bytes, jmp_rel32_bytes, logic_rr_bytes,
    mov_mr_bytes, mov_ra_bytes, mov_ri32_bytes, mov_rm_bytes, mov_rr_bytes, push_pop_bytes,
    rsp_adjust_bytes, shift_cl_bytes, Address, Condition, Emitter, Reg,
};
use super::regalloc::{rsp_address, spill_offset, spill_offset_ok, LinearScanAllocator};
use crate::bytes::{le32, le64};
use crate::leb128::{lemma_uleb32_advances, uleb32, uleb32_next, uleb32_scan, uleb32_value, Uleb32};
use crate::runtime::error::WasmError;
use crate::runtime::values::WasmValue;
use crate::runtime::module::{func_import_count, Func, Local, Module};
use crate::text::{decimal_chars, with_decimal};
use vstd::prelude::*;
use vstd::string::StringExecFns;

verus! {

/// `unreachable`
pub const WASM_UNREACHABLE: u8 = 0x00;
/// `nop`
pub const WASM_NOP: u8 = 0x01;
/// `block`
pub const WASM_BLOCK: u8 = 0x02;
/// `loop`
pub const WASM_LOOP: u8 = 0x03;
/// `if`
pub const WASM_IF: u8 = 0x04;
/// `else`
pub const WASM_ELSE: u8 = 0x05;
/// `end`
pub const WASM_END: u8 = 0x0B;
/// `br`
pub const WASM_BR: u8 = 0x0C;
/// `br_if`
pub const WASM_BR_IF: u8 = 0x0D;
/// `br_table`
pub const WASM_BR_TABLE: u8 = 0x0E;
/// `return`
pub const WASM_RETURN: u8 = 0x0F;
/// `call`
pub const WASM_CALL: u8 = 0x10;
/// `drop`
pub const WASM_DROP: u8 = 0x1A;
/// `local.get`
pub const WASM_LOCAL_GET: u8 = 0x20;
/// `local.set`
pub const WASM_LOCAL_SET: u8 = 0x21;
/// `local.tee`
pub const WASM_LOCAL_TEE: u8 = 0x22;
/// `i32.load`
pub const WASM_I32_LOAD: u8 = 0x28;
/// `i64.load`
pub const WASM_I64_LOAD: u8 = 0x29;
/// `f32.load`
pub const WASM_F32_LOAD: u8 = 0x2A;
/// `f64.load`
pub const WASM_F64_LOAD: u8 = 0x2B;
/// `i32.store`
pub const WASM_I32_STORE: u8 = 0x36;
/// `i64.store`
pub const WASM_I64_STORE: u8 = 0x37;
/// `f32.store`
pub const WASM_F32_STORE: u8 = 0x38;
/// `f64.store`
pub const WASM_F64_STORE: u8 = 0x39;
/// `i32.const`
pub const WASM_I32_CONST: u8 = 0x41;
/// `i32.eqz`
pub const WASM_I32_EQZ: u8 = 0x45;
/// `i64.eqz`
pub const WASM_I64_EQZ: u8 = 0x50;
/// `i32.eq`
pub const WASM_I32_EQ: u8 = 0x46;
/// `i32.ne`
pub const WASM_I32_NE: u8 = 0x47;
/// `i32.lt_s`
pub const WASM_I32_LT_S: u8 = 0x48;
/// `i32.lt_u`
pub const WASM_I32_LT_U: u8 = 0x49;
/// `i32.gt_s`
pub const WASM_I32_GT_S: u8 = 0x4A;
/// `i32.gt_u`
pub const WASM_I32_GT_U: u8 = 0x4B;
/// `i32.le_s`
pub const WASM_I32_LE_S: u8 = 0x4C;
/// `i32.le_u`
pub const WASM_I32_LE_U: u8 = 0x4D;
/// `i32.ge_s`
pub const WASM_I32_GE_S: u8 = 0x4E;
/// `i32.ge_u`
pub const WASM_I32_GE_U: u8 = 0x4F;
/// `i64.eq`
pub const WASM_I64_EQ: u8 = 0x51;
/// `i64.ne`
pub const WASM_I64_NE: u8 = 0x52;
/// `i64.lt_s`
pub const WASM_I64_LT_S: u8 = 0x53;
/// `i64.lt_u`
pub const WASM_I64_LT_U: u8 = 0x54;
/// `i64.gt_s`
pub const WASM_I64_GT_S: u8 = 0x55;
/// `i64.gt_u`
pub const WASM_I64_GT_U: u8 = 0x56;
/// `i64.le_s`
pub const WASM_I64_LE_S: u8 = 0x57;
/// `i64.le_u`
pub const WASM_I64_LE_U: u8 = 0x58;
/// `i64.ge_s`
pub const WASM_I64_GE_S: u8 = 0x59;
/// `i64.ge_u`
pub const WASM_I64_GE_U: u8 = 0x5A;
/// `i32.add`
pub const WASM_I32_ADD: u8 = 0x6A;
/// `i32.sub`
pub const WASM_I32_SUB: u8 = 0x6B;
/// `i32.mul`
pub const WASM_I32_MUL: u8 = 0x6C;
/// `i32.div_s`
pub const WASM_I32_DIV_S: u8 = 0x6D;
/// `i32.div_u`
pub const WASM_I32_DIV_U: u8 = 0x6E;
/// `i32.rem_s`
pub const WASM_I32_REM_S: u8 = 0x6F;
/// `i32.rem_u`
pub const WASM_I32_REM_U: u8 = 0x70;
/// `i32.and`
pub const WASM_I32_AND: u8 = 0x71;
/// `i32.or`
pub const WASM_I32_OR: u8 = 0x72;
/// `i32.xor`
pub const WASM_I32_XOR: u8 = 0x73;
/// `i32.shl`
pub const WASM_I32_SHL: u8 = 0x74;
/// `i32.shr_s`
pub const WASM_I32_SHR_S: u8 = 0x75;
/// `i32.shr_u`
pub const WASM_I32_SHR_U: u8 = 0x76;
/// `i64.add`
pub const WASM_I64_ADD: u8 = 0x7C;
/// `i64.sub`
pub const WASM_I64_SUB: u8 = 0x7D;
/// `i64.mul`
pub const WASM_I64_MUL: u8 = 0x7E;
/// `i64.div_s`
pub const WASM_I64_DIV_S: u8 = 0x7F;
/// `i64.div_u`
pub const WASM_I64_DIV_U: u8 = 0x80;
/// `i64.rem_s`
pub const WASM_I64_REM_S: u8 = 0x81;
/// `i64.rem_u`
pub const WASM_I64_REM_U: u8 = 0x82;
/// `i64.and`
pub const WASM_I64_AND: u8 = 0x83;
/// `i64.or`
pub const WASM_I64_OR: u8 = 0x84;
/// `i64.xor`
pub const WASM_I64_XOR: u8 = 0x85;
/// `i64.shl`
pub const WASM_I64_SHL: u8 = 0x86;
/// `i64.shr_s`
pub const WASM_I64_SHR_S: u8 = 0x87;
/// `i64.shr_u`
pub const WASM_I64_SHR_U: u8 = 0x88;

#[derive(Debug, Clone, Copy, PartialEq, Eq, Structural)]
/// Why a function body could not be translated.
pub enum JitError {
    /// The instruction with this opcode found too few operands.
    StackUnderflow(u8),
    /// The body ended inside an immediate.
    UnexpectedEnd,
    /// An immediate was longer than five bytes.
    UlebOverflow,
    /// The translator has no rule for this opcode.
    UnsupportedOpcode(u8),
}

/// The instruction name that an underflow message gives for an opcode.
pub open spec fn underflow_name(op: u8) -> Seq<char> {
    if op == 0x04 {
        "if"@
    } else if op == 0x1A {
        "drop"@
    } else if op == 0x21 {
        "local.set"@
    } else if op == 0x22 {
        "local.tee"@
    } else if op == 0x28 {
        "i32.load"@
    } else if op == 0x29 {
        "i64.load"@
    } else if op == 0x36 {
        "i32.store"@
    } else if op == 0x37 {
        "i64.store"@
    } else if op == 0x45 {
        "i32.eqz"@
    } else if op == 0x46 {
        "i32.eq"@
    } else if op == 0x47 {
        "i32.ne"@
    } else if op == 0x48 {
        "i32.lt_s"@
    } else if op == 0x49 {
        "i32.lt_u"@
    } else if op == 0x4A {
        "i32.gt_s"@
    } else if op == 0x4B {
        "i32.gt_u"@
    } else if op == 0x4C {
        "i32.le_s"@
    } else if op == 0x4D {
        "i32.le_u"@
    } else if op == 0x4E {
        "i32.ge_s"@
    } else if op == 0x4F {
        "i32.ge_u"@
    } else if op == 0x50 {
        "i64.eqz"@
    } else if op == 0x51 {
        "i64.eq"@
    } else if op == 0x52 {
        "i64.ne"@
    } else if op == 0x53 {
        "i64.lt_s"@
    } else if op == 0x54 {
        "i64.lt_u"@
    } else if op == 0x55 {
        "i64.gt_s"@
    } else if op == 0x56 {
        "i64.gt_u"@
    } else if op == 0x57 {
        "i64.le_s"@
    } else if op == 0x58 {
        "i64.le_u"@
    } else if op == 0x59 {
        "i64.ge_s"@
    } else if op == 0x5A {
        "i64.ge_u"@
    } else if op == 0x6A {
        "i32.add"@
    } else if op == 0x6B {
        "i32.sub"@
    } else if op == 0x6C {
        "i32.mul"@
    } else if op == 0x6D {
        "i32.div_s"@
    } else if op == 0x6E {
        "i32.div_u"@
    } else if op == 0x6F {
        "i32.rem_s"@
    } else if op == 0x70 {
        "i32.rem_u"@
    } else if op == 0x71 {
        "bitwise op"@
    } else if op == 0x72 {
        "bitwise op"@
    } else if op == 0x73 {
        "bitwise op"@
    } else if op == 0x74 {
        "i32.shl"@
    } else if op == 0x75 {
        "i32.shr_s"@
    } else if op == 0x76 {
        "i32.shr_u"@
    } else if op == 0x7C {
        "i64.add"@
    } else if op == 0x7D {
        "i64.sub"@
    } else if op == 0x7E {
        "i64.mul"@
    } else if op == 0x7F {
        "i64.div_s"@
    } else if op == 0x80 {
        "i64.div_u"@
    } else if op == 0x81 {
        "i64.rem_s"@
    } else if op == 0x82 {
        "i64.rem_u"@
    } else if op == 0x83 {
        "i64 bitwise"@
    } else if op == 0x84 {
        "i64 bitwise"@
    } else if op == 0x85 {
        "i64 bitwise"@
    } else if op == 0x86 {
        "i64.shl"@
    } else if op == 0x87 {
        "i64.shr_s"@
    } else if op == 0x88 {
        "i64.shr_u"@
    } else {
        ""@
    }
}

/// The message of a translation error.
pub open spec fn jit_error_text(e: JitError) -> Seq<char> {
    match e {
        JitError::StackUnderflow(op) => "stack underflow in "@ + underflow_name(op),
        JitError::UnexpectedEnd => "unexpected end of JIT immediate"@,
        JitError::UlebOverflow => "uleb128 overflow in JIT immediate"@,
        JitError::UnsupportedOpcode(op) => "unsupported opcode in JIT compiler: "@ + crate::text::hex2_chars(op),
    }
}

/// Returns the instruction name that an underflow message gives for an opcode.
fn underflow_name_str(op: u8) -> (s: &'static str)
    ensures
        s@ == underflow_name(op),
{
    proof {
        reveal_strlit("bitwise op");
        reveal_strlit("drop");
        reveal_strlit("i32.add");
        reveal_strlit("i32.div_s");
        reveal_strlit("i32.div_u");
        reveal_strlit("i32.eq");
        reveal_strlit("i32.eqz");
        reveal_strlit("i32.ge_s");
        reveal_strlit("i32.ge_u");
        reveal_strlit("i32.gt_s");
        reveal_strlit("i32.gt_u");
        reveal_strlit("i32.le_s");
        reveal_strlit("i32.le_u");
        reveal_strlit("i32.load");
        reveal_strlit("i32.lt_s");
        reveal_strlit("i32.lt_u");
        reveal_strlit("i32.mul");
        reveal_strlit("i32.ne");
        reveal_strlit("i32.rem_s");
        reveal_strlit("i32.rem_u");
        reveal_strlit("i32.shl");
        reveal_strlit("i32.shr_s");
        reveal_strlit("i32.shr_u");
        reveal_strlit("i32.store");
        reveal_strlit("i32.sub");
        reveal_strlit("i64 bitwise");
        reveal_strlit("i64.add");
        reveal_strlit("i64.div_s");
        reveal_strlit("i64.div_u");
        reveal_strlit("i64.eq");
        reveal_strlit("i64.eqz");
        reveal_strlit("i64.ge_s");
        reveal_strlit("i64.ge_u");
        reveal_strlit("i64.gt_s");
        reveal_strlit("i64.gt_u");
        reveal_strlit("i64.le_s");
        reveal_strlit("i64.le_u");
        reveal_strlit("i64.load");
        reveal_strlit("i64.lt_s");
        reveal_strlit("i64.lt_u");
        reveal_strlit("i64.mul");
        reveal_strlit("i64.ne");
        reveal_strlit("i64.rem_s");
        reveal_strlit("i64.rem_u");
        reveal_strlit("i64.shl");
        reveal_strlit("i64.shr_s");
        reveal_strlit("i64.shr_u");
        reveal_strlit("i64.store");
        reveal_strlit("i64.sub");
        reveal_strlit("if");
        reveal_strlit("local.set");
        reveal_strlit("local.tee");
        reveal_strlit("");
    }
    match op {
        0x04 => "if",
        0x1A => "drop",
        0x21 => "local.set",
        0x22 => "local.tee",
        0x28 => "i32.load",
        0x29 => "i64.load",
        0x36 => "i32.store",
        0x37 => "i64.store",
        0x45 => "i32.eqz",
        0x46 => "i32.eq",
        0x47 => "i32.ne",
        0x48 => "i32.lt_s",
        0x49 => "i32.lt_u",
        0x4A => "i32.gt_s",
        0x4B => "i32.gt_u",
        0x4C => "i32.le_s",
        0x4D => "i32.le_u",
        0x4E => "i32.ge_s",
        0x4F => "i32.ge_u",
        0x50 => "i64.eqz",
        0x51 => "i64.eq",
        0x52 => "i64.ne",
        0x53 => "i64.lt_s",
        0x54 => "i64.lt_u",
        0x55 => "i64.gt_s",
        0x56 => "i64.gt_u",
        0x57 => "i64.le_s",
        0x58 => "i64.le_u",
        0x59 => "i64.ge_s",
        0x5A => "i64.ge_u",
        0x6A => "i32.add",
        0x6B => "i32.sub",
        0x6C => "i32.mul",
        0x6D => "i32.div_s",
        0x6E => "i32.div_u",
        0x6F => "i32.rem_s",
        0x70 => "i32.rem_u",
        0x71 => "bitwise op",
        0x72 => "bitwise op",
        0x73 => "bitwise op",
        0x74 => "i32.shl",
        0x75 => "i32.shr_s",
        0x76 => "i32.shr_u",
        0x7C => "i64.add",
        0x7D => "i64.sub",
        0x7E => "i64.mul",
        0x7F => "i64.div_s",
        0x80 => "i64.div_u",
        0x81 => "i64.rem_s",
        0x82 => "i64.rem_u",
        0x83 => "i64 bitwise",
        0x84 => "i64 bitwise",
        0x85 => "i64 bitwise",
        0x86 => "i64.shl",
        0x87 => "i64.shr_s",
        0x88 => "i64.shr_u",
        _ => "",
    }
}

impl JitError {
    /// Returns the message of this error.
    pub fn message(&self) -> (s: String)
        ensures
            s@ == jit_error_text(*self),
    {
        match self {
            JitError::StackUnderflow(op) => {
                let mut s = String::from_str("stack underflow in ");
                s.append(underflow_name_str(*op));
                s
            },
            JitError::UnexpectedEnd => String::from_str("unexpected end of JIT immediate"),
            JitError::UlebOverflow => String::from_str("uleb128 overflow in JIT immediate"),
            JitError::UnsupportedOpcode(op) => {
                let mut s = String::from_str("unsupported opcode in JIT compiler: ");
                crate::text::push_hex2(&mut s, *op);
                s
            },
        }
    }
}

/// The error for an immediate that could not be decoded.
pub open spec fn immediate_error(u: Uleb32) -> JitError {
    match u {
        Uleb32::Eof { .. } => JitError::UnexpectedEnd,
        _ => JitError::UlebOverflow,
    }
}

/// Reads an unsigned LEB128 immediate of at most five bytes at `*cursor`,
/// moving the cursor past the bytes read.
pub fn read_uleb(bytecode: &[u8], cursor: &mut usize) -> (r: Result<u32, JitError>)
    requires
        *old(cursor) <= bytecode@.len(),
    ensures
        match uleb32(bytecode@, *old(cursor) as int) {
            Uleb32::Done { value, next } => r == Ok::<u32, JitError>(value) && *final(cursor) == next,
            Uleb32::Eof { next } => r == Err::<u32, JitError>(JitError::UnexpectedEnd)
                && *final(cursor) == next,
            Uleb32::TooLong { next } => r == Err::<u32, JitError>(JitError::UlebOverflow)
                && *final(cursor) == next,
        },
{
    let ghost start = *cursor as int;
    let mut value: u32 = 0;
    let mut shift: u32 = 0;
    let ghost mut k: nat = 0;
    loop
        invariant
            start == *old(cursor),
            *cursor == start + k,
            start <= *cursor <= bytecode@.len(),
            k < 5,
            shift == 7 * k,
            value == uleb32_value(bytecode@, start, k),
            uleb32_scan(bytecode@, start, k) == uleb32(bytecode@, start),
        decreases 5 - k,
    {
        if *cursor >= bytecode.len() {
            assert(uleb32_scan(bytecode@, start, k) == (Uleb32::Eof { next: start + k }));
            return Err(JitError::UnexpectedEnd);
        }
        let byte = bytecode[*cursor];
        *cursor = *cursor + 1;
        value = value | (((byte & 0x7F) as u32) << shift);
        assert(value == uleb32_value(bytecode@, start, k + 1));
        if byte & 0x80 == 0 {
            assert(uleb32_scan(bytecode@, start, k) == (Uleb32::Done {
                value: uleb32_value(bytecode@, start, k + 1),
                next: start + k + 1,
            }));
            return Ok(value);
        }
        shift = shift + 7;
        if shift >= 35 {
            assert(uleb32_scan(bytecode@, start, k) == (Uleb32::TooLong { next: start + k + 1 }));
            return Err(JitError::UlebOverflow);
        }
        proof {
            k = k + 1;
        }
    }
}

#[derive(Clone, Copy, Debug, PartialEq, Eq, Structural)]
/// The kind of a structured control block.
pub enum BlockKind {
    /// `block`: branches go to its end.
    Block,
    /// `loop`: branches go to its start.
    Loop,
    /// `if`: branches go to its end.
    If,
}

#[derive(Clone, Copy, Debug, PartialEq, Eq, Structural)]
/// A control block open during translation.
pub struct BlockInfo {
    /// Identifier of the block, in order of opening.
    pub id: usize,
    /// Kind of the block.
    pub kind: BlockKind,
    /// Position in the body after the block header.
    pub wasm_pc: usize,
    /// Position in the code where the block starts.
    pub x64_start: usize,
    /// Position in the code of the `else` jump, if any.
    pub x64_else: Option<usize>,
}

#[derive(Clone, Copy, Debug, PartialEq, Eq, Structural)]
/// A jump whose offset is filled in when its target block ends.
pub struct PatchSite {
    /// Position of the jump instruction in the code.
    pub x64_pos: usize,
    /// Identifier of the target block.
    pub target_block_id: usize,
    /// Whether the jump has an 8-bit offset (else a 32-bit one).
    pub is_rel8: bool,
}

/// The state of a translation in progress.
pub struct TransState {
    /// Position in the body.
    pub pc: int,
    /// Number of operands on the operand stack, as the translator counts them.
    pub depth: int,
    /// Identifier of the next block to open.
    pub next_block: int,
    /// The open blocks, innermost last.
    pub blocks: Seq<BlockInfo>,
    /// The jumps recorded so far.
    pub patches: Seq<PatchSite>,
    /// The code emitted so far.
    pub code: Seq<u8>,
}

/// The outcome of translating one instruction.
pub enum Step {
    /// The instruction was translated.
    Next(TransState),
    /// Translation fails with this error.
    Fail(JitError),
    /// The instruction is one the translator cannot handle without an
    /// arithmetic overflow.
    Abort,
}

/// Bytes of `pop r`.
pub open spec fn pop_bytes(r: Reg) -> Seq<u8> {
    push_pop_bytes(0x58, r)
}

/// Bytes of `push r`.
pub open spec fn push_bytes(r: Reg) -> Seq<u8> {
    push_pop_bytes(0x50, r)
}

/// The address `[r + 0]`.
pub open spec fn base_address(r: Reg) -> Address {
    Address { base: Some(r), index: None, scale: 1, displacement: Some(0) }
}

/// The condition that a comparison opcode tests, if it is one.
pub open spec fn compare_condition(op: u8) -> Option<Condition> {
    if op == 0x46 || op == 0x51 {
        Some(Condition::Equal)
    } else if op == 0x47 || op == 0x52 {
        Some(Condition::NotEqual)
    } else if op == 0x48 || op == 0x53 {
        Some(Condition::LessSigned)
    } else if op == 0x49 || op == 0x54 {
        Some(Condition::Below)
    } else if op == 0x4A || op == 0x55 {
        Some(Condition::GreaterSigned)
    } else if op == 0x4B || op == 0x56 {
        Some(Condition::Above)
    } else if op == 0x4C || op == 0x57 {
        Some(Condition::LessOrEqualSigned)
    } else if op == 0x4D || op == 0x58 {
        Some(Condition::BelowOrEqual)
    } else if op == 0x4E || op == 0x59 {
        Some(Condition::GreaterOrEqualSigned)
    } else if op == 0x4F || op == 0x5A {
        Some(Condition::AboveOrEqual)
    } else {
        None
    }
}

/// A `bits`-wide number `a` (given unsigned) read as signed.
pub open spec fn signed_of(a: int, bits: nat) -> int {
    if a >= vstd::arithmetic::power2::pow2((bits - 1) as nat) {
        a - vstd::arithmetic::power2::pow2(bits)
    } else {
        a
    }
}

/// Whether an x86 condition holds after `cmp a, b` on `bits`-wide operands
/// (given unsigned): `b`/`a`/`be`/`ae` compare the unsigned values,
/// `l`/`g`/`le`/`ge` the signed ones.
pub open spec fn condition_after_cmp(c: Condition, a: int, b: int, bits: nat) -> bool {
    let sa = signed_of(a, bits);
    let sb = signed_of(b, bits);
    match c {
        Condition::Equal => a == b,
        Condition::NotEqual => a != b,
        Condition::Below => a < b,
        Condition::AboveOrEqual => a >= b,
        Condition::BelowOrEqual => a <= b,
        Condition::Above => a > b,
        Condition::LessSigned => sa < sb,
        Condition::GreaterOrEqualSigned => sa >= sb,
        Condition::LessOrEqualSigned => sa <= sb,
        Condition::GreaterSigned => sa > sb,
        _ => false,
    }
}

/// The width of the operands of a WebAssembly comparison: 0x46 to 0x4F
/// compare `i32` values, 0x51 to 0x5A `i64` values.
pub open spec fn compare_width(op: u8) -> nat {
    if op <= 0x4F {
        32
    } else {
        64
    }
}

/// What a WebAssembly integer comparison computes. Both widths list, in
/// order, `eq`, `ne`, then `lt`, `gt`, `le` and `ge`, each signed then
/// unsigned.
pub open spec fn wasm_compare(op: u8, a: int, b: int) -> bool {
    let bits = compare_width(op);
    let k = if op <= 0x4F {
        op - 0x46
    } else {
        op - 0x51
    };
    let (x, y) = if k >= 2 && k % 2 == 0 {
        (signed_of(a, bits), signed_of(b, bits))
    } else {
        (a, b)
    };
    if k == 0 {
        x == y
    } else if k == 1 {
        x != y
    } else if k <= 3 {
        x < y
    } else if k <= 5 {
        x > y
    } else if k <= 7 {
        x <= y
    } else {
        x >= y
    }
}

/// The condition a compiled comparison tests after comparing its first
/// operand with its second gives what the WebAssembly comparison gives,
/// for every pair of operands: signed comparisons test signed conditions
/// and unsigned ones unsigned conditions.
pub proof fn lemma_compare_semantics(op: u8, a: int, b: int)
    requires
        0x46 <= op <= 0x4F || 0x51 <= op <= 0x5A,
        0 <= a < vstd::arithmetic::power2::pow2(compare_width(op)),
        0 <= b < vstd::arithmetic::power2::pow2(compare_width(op)),
    ensures
        compare_condition(op) is Some,
        condition_after_cmp(compare_condition(op)->Some_0, a, b, compare_width(op)) == wasm_compare(op, a, b),
{
}

/// Whether the x86 condition with four-bit code `cc` holds after
/// `cmp a, b` on `bits`-wide operands, as the Intel manual defines the
/// codes: they come in pairs, the odd code negating the even one; the
/// pairs test, from 2 on, carry (unsigned below), zero (equal), carry or
/// zero (unsigned below or equal), and from 12 on, sign differing from
/// overflow (signed less), and that or zero (signed less or equal).
pub open spec fn cc_after_cmp(cc: u8, a: int, b: int, bits: nat) -> bool {
    let sa = signed_of(a, bits);
    let sb = signed_of(b, bits);
    let base = if cc / 2 == 1 {
        a < b
    } else if cc / 2 == 2 {
        a == b
    } else if cc / 2 == 3 {
        a <= b
    } else if cc / 2 == 6 {
        sa < sb
    } else {
        sa <= sb
    };
    if cc % 2 == 0 {
        base
    } else {
        !base
    }
}

/// Each comparison condition is encoded with the x86 code that tests it.
pub proof fn lemma_condition_codes(c: Condition, a: int, b: int, bits: nat)
    requires
        !(c is Overflow || c is NotOverflow || c is Sign || c is NotSign || c is Parity || c is NotParity),
    ensures
        cc_after_cmp(c.spec_encode(), a, b, bits) == condition_after_cmp(c, a, b, bits),
{
}

/// Bytes of a comparison: the result is left in `rax`.
pub open spec fn compare_bytes(c: Condition) -> Seq<u8> {
    pop_bytes(Reg::Rcx) + pop_bytes(Reg::Rax) + arith_rr_bytes(0x38, 0x39, Reg::Rax, Reg::Rcx)
        + mov_ri32_bytes(Reg::Rax, 1) + jcc_rel8_bytes(c, 3) + mov_ri32_bytes(Reg::Rax, 0)
}

/// Bytes that check a divisor in `rcx` for zero, after popping the operands.
pub open spec fn div_guard_bytes() -> Seq<u8> {
    pop_bytes(Reg::Rcx) + pop_bytes(Reg::Rax) + logic_rr_bytes(0x84, 0x85, Reg::Rcx, Reg::Rcx)
        + jcc_rel8_bytes(Condition::NotEqual, 2) + seq![0xCCu8]
}

/// Bytes of `xor rdx, rdx`.
pub open spec fn zero_rdx_bytes() -> Seq<u8> {
    logic_rr_bytes(0x30, 0x31, Reg::Rdx, Reg::Rdx)
}

/// Bytes of a binary operator that pops `rax` then `rcx`, computes into `rax`
/// and pushes it.
pub open spec fn ax_cx_bytes(op_bytes: Seq<u8>) -> Seq<u8> {
    pop_bytes(Reg::Rax) + pop_bytes(Reg::Rcx) + op_bytes + push_bytes(Reg::Rax)
}

/// Bytes of a binary operator that pops `rcx` then `rax`, computes into `rax`
/// and pushes it.
pub open spec fn cx_ax_bytes(op_bytes: Seq<u8>) -> Seq<u8> {
    pop_bytes(Reg::Rcx) + pop_bytes(Reg::Rax) + op_bytes + push_bytes(Reg::Rax)
}

/// The bytes of a binary operator (two operands, one result), if the opcode
/// is one.
pub open spec fn binary_bytes(op: u8) -> Option<Seq<u8>> {
    if op == 0x6A || op == 0x7C {
        Some(ax_cx_bytes(arith_rr_bytes(0x00, 0x01, Reg::Rax, Reg::Rcx)))
    } else if op == 0x6B || op == 0x7D {
        Some(cx_ax_bytes(arith_rr_bytes(0x28, 0x29, Reg::Rax, Reg::Rcx)))
    } else if op == 0x6C || op == 0x7E {
        Some(ax_cx_bytes(logic_rr_bytes(0x0A, 0x0B, Reg::Rax, Reg::Rcx)))
    } else if op == 0x71 || op == 0x83 {
        Some(ax_cx_bytes(logic_rr_bytes(0x20, 0x21, Reg::Rax, Reg::Rcx)))
    } else if op == 0x72 || op == 0x84 {
        Some(ax_cx_bytes(logic_rr_bytes(0x08, 0x09, Reg::Rax, Reg::Rcx)))
    } else if op == 0x73 || op == 0x85 {
        Some(ax_cx_bytes(logic_rr_bytes(0x30, 0x31, Reg::Rax, Reg::Rcx)))
    } else if op == 0x6D {
        Some(div_guard_bytes() + seq![0x99u8] + div_i32_bytes(Reg::Rcx) + push_bytes(Reg::Rax))
    } else if op == 0x6E {
        Some(div_guard_bytes() + zero_rdx_bytes() + div_u32_bytes(Reg::Rcx) + push_bytes(Reg::Rax))
    } else if op == 0x6F {
        Some(div_guard_bytes() + seq![0x99u8] + div_i32_bytes(Reg::Rcx) + push_bytes(Reg::Rdx))
    } else if op == 0x70 {
        Some(div_guard_bytes() + zero_rdx_bytes() + div_u32_bytes(Reg::Rcx) + push_bytes(Reg::Rdx))
    } else if op == 0x7F {
        Some(div_guard_bytes() + cqo_bytes() + div_i64_bytes(Reg::Rcx) + push_bytes(Reg::Rax))
    } else if op == 0x80 {
        Some(div_guard_bytes() + zero_rdx_bytes() + div_u64_bytes(Reg::Rcx) + push_bytes(Reg::Rax))
    } else if op == 0x81 {
        Some(div_guard_bytes() + cqo_bytes() + div_i64_bytes(Reg::Rcx) + push_bytes(Reg::Rdx))
    } else if op == 0x82 {
        Some(div_guard_bytes() + zero_rdx_bytes() + div_u64_bytes(Reg::Rcx) + push_bytes(Reg::Rdx))
    } else if op == 0x74 || op == 0x86 {
        Some(cx_ax_bytes(shift_cl_bytes(0x04, Reg::Rax)))
    } else if op == 0x75 || op == 0x87 {
        Some(cx_ax_bytes(shift_cl_bytes(0x07, Reg::Rax)))
    } else if op == 0x76 || op == 0x88 {
        Some(cx_ax_bytes(shift_cl_bytes(0x05, Reg::Rax)))
    } else {
        match compare_condition(op) {
            Some(c) => Some(compare_bytes(c)),
            None => None,
        }
    }
}

/// What the x86 instruction `op r/m64, r64` with primary opcode `opcode`
/// leaves in its destination `a`, with source `b`, as the Intel manual
/// gives the opcodes: 01 `add`, 09 `or`, 21 `and`, 29 `sub`, 31 `xor`;
/// sums and differences wrap at 64 bits.
pub open spec fn x86_alu(opcode: u8, a: u64, b: u64) -> u64 {
    if opcode == 0x01 {
        ((a + b) % 0x1_0000_0000_0000_0000) as u64
    } else if opcode == 0x09 {
        a | b
    } else if opcode == 0x21 {
        a & b
    } else if opcode == 0x29 {
        ((a - b) % 0x1_0000_0000_0000_0000) as u64
    } else if opcode == 0x31 {
        a ^ b
    } else {
        0
    }
}

/// What a WebAssembly `add`, `sub`, `and`, `or` or `xor` (of either
/// width) computes on operands held in 64-bit registers; the low bits
/// hold an `i32` result.
pub open spec fn wasm_alu(op: u8, a: u64, b: u64) -> u64 {
    if op == 0x6A || op == 0x7C {
        ((a + b) % 0x1_0000_0000_0000_0000) as u64
    } else if op == 0x6B || op == 0x7D {
        ((a - b) % 0x1_0000_0000_0000_0000) as u64
    } else if op == 0x71 || op == 0x83 {
        a & b
    } else if op == 0x72 || op == 0x84 {
        a | b
    } else {
        a ^ b
    }
}

/// The compiled code of `add`, `sub`, `and`, `or` and `xor` uses the x86
/// instruction that computes the operation, for every pair of operands.
pub proof fn lemma_alu_semantics(op: u8, a: u64, b: u64)
    requires
        op == 0x6A || op == 0x7C || op == 0x6B || op == 0x7D || op == 0x71 || op == 0x83 || op == 0x72 || op
            == 0x84 || op == 0x73 || op == 0x85,
    ensures
        binary_bytes(op) is Some,
        binary_bytes(op)->Some_0.len() > 5,
        x86_alu(binary_bytes(op)->Some_0[5], a, b) == wasm_alu(op, a, b),
{
    assert(pop_bytes(Reg::Rax).len() == 2 && pop_bytes(Reg::Rcx).len() == 2);
}

/// The shift that the group-2 extension `ext` names, as the Intel manual
/// numbers them: /4 `shl`, /5 `shr` (logical), /7 `sar` (arithmetic).
pub open spec fn group2_shift(ext: u8) -> Option<crate::jit::llvm_plan::BinaryOp> {
    if ext == 4 {
        Some(crate::jit::llvm_plan::BinaryOp::Shl)
    } else if ext == 5 {
        Some(crate::jit::llvm_plan::BinaryOp::LShr)
    } else if ext == 7 {
        Some(crate::jit::llvm_plan::BinaryOp::AShr)
    } else {
        None
    }
}

/// A compiled WebAssembly shift asks the emitter for the shift-by-`cl`
/// whose extension names the shift of the same kind: the kind whose
/// meaning `llvm_plan::lemma_shift_semantics` proves, a signed shift right
/// being arithmetic and an unsigned one logical.
pub proof fn lemma_shift_extensions(op: u8)
    requires
        op == 0x74 || op == 0x75 || op == 0x76 || op == 0x86 || op == 0x87 || op == 0x88,
    ensures
        exists|e: u8|
            group2_shift(e) == crate::jit::llvm_plan::shift_op(op) && binary_bytes(op) == Some(
                cx_ax_bytes(#[trigger] shift_cl_bytes(e, Reg::Rax)),
            ),
{
    let e: u8 = if op == 0x74 || op == 0x86 {
        4
    } else if op == 0x75 || op == 0x87 {
        7
    } else {
        5
    };
    assert(group2_shift(e) == crate::jit::llvm_plan::shift_op(op));
    assert(binary_bytes(op) == Some(cx_ax_bytes(shift_cl_bytes(e, Reg::Rax))));
}

/// Bytes of `i32.eqz` (`is_i64` false) and `i64.eqz` (true).
pub open spec fn eqz_bytes(is_i64: bool) -> Seq<u8> {
    if is_i64 {
        pop_bytes(Reg::Rax) + logic_rr_bytes(0x84, 0x85, Reg::Rax, Reg::Rax) + mov_ri32_bytes(
            Reg::Rax,
            0,
        ) + mov_ri32_bytes(Reg::Rcx, 1) + jcc_rel8_bytes(Condition::NotEqual, 4) + mov_rr_bytes(
            Reg::Rax,
            Reg::Rcx,
        ) + push_bytes(Reg::Rax)
    } else {
        pop_bytes(Reg::Rax) + alu_ri_bytes(0x07, Reg::Rax, 0) + mov_ra_bytes(Reg::Rax, 0)
            + mov_ri32_bytes(Reg::Rcx, 1) + jcc_rel8_bytes(Condition::NotEqual, 4) + mov_rr_bytes(
            Reg::Rax,
            Reg::Rcx,
        ) + push_bytes(Reg::Rax)
    }
}

/// Bytes of a bounds-checked load at `offset` from the popped address, for
/// addresses up to `limit`.
pub open spec fn load_bytes(offset: i32, limit: i32) -> Seq<u8> {
    pop_bytes(Reg::Rax) + alu_ri_bytes(0x00, Reg::Rax, offset) + alu_ri_bytes(
        0x07,
        Reg::Rax,
        limit,
    ) + jcc_rel8_bytes(Condition::BelowOrEqual, 2) + seq![0xCCu8] + mov_rm_bytes(
        Reg::Rax,
        base_address(Reg::Rax),
    ) + push_bytes(Reg::Rax)
}

/// Bytes of a bounds-checked store at `offset` from the popped address, for
/// addresses up to `limit`.
pub open spec fn store_bytes(offset: i32, limit: i32) -> Seq<u8> {
    pop_bytes(Reg::Rax) + pop_bytes(Reg::Rcx) + alu_ri_bytes(0x00, Reg::Rcx, offset)
        + alu_ri_bytes(0x07, Reg::Rcx, limit) + jcc_rel8_bytes(
        Condition::BelowOrEqual,
        2,
    ) + seq![0xCCu8] + mov_mr_bytes(base_address(Reg::Rcx), Reg::Rax)
}

/// Translation of `local.get`, `local.set` and `local.tee`.
pub open spec fn step_local(bc: Seq<u8>, op: u8, s: TransState) -> Step {
    if op != WASM_LOCAL_GET && s.depth == 0 {
        Step::Fail(JitError::StackUnderflow(op))
    } else {
        match uleb32(bc, s.pc + 1) {
            Uleb32::Done { value, next } => if !spill_offset_ok(value) {
                Step::Abort
            } else {
                let addr = rsp_address(spill_offset(value));
                if op == WASM_LOCAL_GET {
                    Step::Next(
                        TransState {
                            pc: next,
                            depth: s.depth + 1,
                            code: s.code + mov_rm_bytes(Reg::Rax, addr) + push_bytes(Reg::Rax),
                            ..s
                        },
                    )
                } else if op == WASM_LOCAL_SET {
                    Step::Next(
                        TransState {
                            pc: next,
                            depth: s.depth - 1,
                            code: s.code + pop_bytes(Reg::Rax) + mov_mr_bytes(addr, Reg::Rax),
                            ..s
                        },
                    )
                } else {
                    Step::Next(
                        TransState {
                            pc: next,
                            code: s.code + mov_mr_bytes(addr, Reg::Rax) + push_bytes(Reg::Rax),
                            ..s
                        },
                    )
                }
            },
            other => Step::Fail(immediate_error(other)),
        }
    }
}

/// Translation of the integer loads and stores.
pub open spec fn step_memory(bc: Seq<u8>, op: u8, mem: u32, s: TransState) -> Step {
    let is_store = op == WASM_I32_STORE || op == WASM_I64_STORE;
    let size: u32 = if op == WASM_I32_LOAD || op == WASM_I32_STORE {
        4
    } else {
        8
    };
    if (is_store && s.depth < 2) || (!is_store && s.depth == 0) {
        Step::Fail(JitError::StackUnderflow(op))
    } else {
        match uleb32(bc, s.pc + 1) {
            Uleb32::Done { value: _align, next: p2 } => match uleb32(bc, p2) {
                Uleb32::Done { value: offset, next } => if mem < size {
                    Step::Abort
                } else if is_store {
                    Step::Next(
                        TransState {
                            pc: next,
                            depth: s.depth - 2,
                            code: s.code + store_bytes(offset as i32, (mem - size) as i32),
                            ..s
                        },
                    )
                } else {
                    Step::Next(
                        TransState { pc: next, code: s.code + load_bytes(offset as i32, (mem - size) as i32), ..s },
                    )
                },
                other => Step::Fail(immediate_error(other)),
            },
            other => Step::Fail(immediate_error(other)),
        }
    }
}

/// Translation of `i32.const`.
pub open spec fn step_const(bc: Seq<u8>, s: TransState) -> Step {
    match uleb32(bc, s.pc + 1) {
        Uleb32::Done { value, next } => Step::Next(
            TransState {
                pc: next,
                depth: s.depth + 1,
                code: s.code + mov_ri32_bytes(Reg::Rax, value) + push_bytes(Reg::Rax),
                ..s
            },
        ),
        other => Step::Fail(immediate_error(other)),
    }
}

/// Translation of the binary operators and comparisons.
pub open spec fn step_binary(op: u8, s: TransState) -> Step {
    if s.depth < 2 {
        Step::Fail(JitError::StackUnderflow(op))
    } else {
        Step::Next(
            TransState {
                pc: s.pc + 1,
                depth: s.depth - 1,
                code: s.code + binary_bytes(op).unwrap(),
                ..s
            },
        )
    }
}

/// Translation of `i32.eqz` and `i64.eqz`.
pub open spec fn step_eqz(op: u8, s: TransState) -> Step {
    if s.depth == 0 {
        Step::Fail(JitError::StackUnderflow(op))
    } else {
        Step::Next(
            TransState { pc: s.pc + 1, code: s.code + eqz_bytes(op == WASM_I64_EQZ), ..s },
        )
    }
}

/// Translation of `nop`, `drop`, `return` and `unreachable`.
pub open spec fn step_simple(op: u8, frame: u8, s: TransState) -> Step {
    if op == WASM_NOP {
        Step::Next(TransState { pc: s.pc + 1, ..s })
    } else if op == WASM_DROP {
        if s.depth == 0 {
            Step::Fail(JitError::StackUnderflow(op))
        } else {
            Step::Next(
                TransState {
                    pc: s.pc + 1,
                    depth: s.depth - 1,
                    code: s.code + pop_bytes(Reg::Rax),
                    ..s
                },
            )
        }
    } else if op == WASM_RETURN {
        Step::Next(
            TransState { pc: s.pc + 1, code: s.code + rsp_adjust_bytes(0xC4, frame) + seq![0xC3u8], ..s },
        )
    } else {
        Step::Next(TransState { pc: s.pc + 1, code: s.code + seq![0xCCu8], ..s })
    }
}

/// Translation of `block`, `loop` and `if`: the block is opened with the
/// next identifier; `if` pops its condition and records a forward jump.
pub open spec fn step_open(bc: Seq<u8>, op: u8, s: TransState) -> Step {
    if op == WASM_IF && s.depth == 0 {
        Step::Fail(JitError::StackUnderflow(op))
    } else {
        let code1 = if op == WASM_IF {
            s.code + pop_bytes(Reg::Rax) + logic_rr_bytes(0x84, 0x85, Reg::Rax, Reg::Rax)
        } else {
            s.code
        };
        match uleb32(bc, s.pc + 1) {
            Uleb32::Done { value: _block_type, next } => {
                let kind = if op == WASM_BLOCK {
                    BlockKind::Block
                } else if op == WASM_LOOP {
                    BlockKind::Loop
                } else {
                    BlockKind::If
                };
                let block = BlockInfo {
                    id: s.next_block as usize,
                    kind: kind,
                    wasm_pc: next as usize,
                    x64_start: code1.len() as usize,
                    x64_else: None,
                };
                if op == WASM_IF {
                    Step::Next(
                        TransState {
                            pc: next,
                            depth: s.depth - 1,
                            next_block: s.next_block + 1,
                            blocks: s.blocks.push(block),
                            patches: s.patches.push(
                                PatchSite {
                                    x64_pos: code1.len() as usize,
                                    target_block_id: s.next_block as usize,
                                    is_rel8: true,
                                },
                            ),
                            code: code1 + jcc_rel8_bytes(Condition::Equal, 0),
                        },
                    )
                } else {
                    Step::Next(
                        TransState {
                            pc: next,
                            next_block: s.next_block + 1,
                            blocks: s.blocks.push(block),
                            ..s
                        },
                    )
                }
            },
            other => Step::Fail(immediate_error(other)),
        }
    }
}

/// Translation of `else`: the innermost block records where its else jump
/// is, and a forward jump to its end is recorded.
pub open spec fn step_else(s: TransState) -> Step {
    if s.blocks.len() == 0 {
        Step::Next(TransState { pc: s.pc + 1, ..s })
    } else {
        let last = s.blocks.last();
        Step::Next(
            TransState {
                pc: s.pc + 1,
                blocks: s.blocks.update(
                    s.blocks.len() - 1,
                    BlockInfo { x64_else: Some(s.code.len() as usize), ..last },
                ),
                patches: s.patches.push(
                    PatchSite {
                        x64_pos: s.code.len() as usize,
                        target_block_id: last.id,
                        is_rel8: true,
                    },
                ),
                code: s.code + seq![0xEBu8, 0u8],
                ..s
            },
        )
    }
}

/// The code after filling in the offset of one recorded jump, if it targets
/// block `id`, for a block that ends at `end`.
pub open spec fn patch_site(code: Seq<u8>, site: PatchSite, id: usize, end: int) -> Seq<u8> {
    if site.target_block_id != id {
        code
    } else {
        let pos = site.x64_pos as int;
        let offset = end - pos;
        if site.is_rel8 {
            code.update(pos + 1, ((offset - 2) as i8) as u8)
        } else {
            let b = le32(((offset - 5) as i32) as u32);
            code.update(pos + 1, b[0]).update(pos + 2, b[1]).update(pos + 3, b[2]).update(
                pos + 4,
                b[3],
            )
        }
    }
}

/// The code after filling in every recorded jump that targets block `id`.
pub open spec fn patch_all(code: Seq<u8>, sites: Seq<PatchSite>, id: usize, end: int) -> Seq<u8>
    decreases sites.len(),
{
    if sites.len() == 0 {
        code
    } else {
        patch_site(patch_all(code, sites.drop_last(), id, end), sites.last(), id, end)
    }
}

/// Translation of `end`: the innermost block is closed and the jumps to it
/// are filled in.
pub open spec fn step_end(s: TransState) -> Step {
    if s.blocks.len() == 0 {
        Step::Next(TransState { pc: s.pc + 1, ..s })
    } else {
        let block = s.blocks.last();
        Step::Next(
            TransState {
                pc: s.pc + 1,
                blocks: s.blocks.drop_last(),
                code: patch_all(s.code, s.patches, block.id, s.code.len() as int),
                ..s
            },
        )
    }
}

/// Translation of `br` and `br_if`: a backward jump to a loop, or a recorded
/// forward jump to the end of another block; labels beyond the open blocks
/// emit no jump.
pub open spec fn step_branch(bc: Seq<u8>, op: u8, s: TransState) -> Step {
    match uleb32(bc, s.pc + 1) {
        Uleb32::Done { value: label, next } => {
            let code1 = if op == WASM_BR_IF {
                s.code + pop_bytes(Reg::Rax) + logic_rr_bytes(0x84, 0x85, Reg::Rax, Reg::Rax)
            } else {
                s.code
            };
            if label < s.blocks.len() {
                let block = s.blocks[s.blocks.len() - 1 - label];
                if block.kind == BlockKind::Loop {
                    let offset = block.x64_start - code1.len();
                    Step::Next(
                        TransState {
                            pc: next,
                            code: code1 + if op == WASM_BR_IF {
                                jcc_rel32_bytes(Condition::NotEqual, (offset - 6) as i32)
                            } else {
                                jmp_rel32_bytes((offset - 5) as i32)
                            },
                            ..s
                        },
                    )
                } else {
                    Step::Next(
                        TransState {
                            pc: next,
                            patches: s.patches.push(
                                PatchSite {
                                    x64_pos: code1.len() as usize,
                                    target_block_id: block.id,
                                    is_rel8: false,
                                },
                            ),
                            code: code1 + if op == WASM_BR_IF {
                                jcc_rel32_bytes(Condition::NotEqual, 0)
                            } else {
                                jmp_rel32_bytes(0)
                            },
                            ..s
                        },
                    )
                }
            } else {
                Step::Next(TransState { pc: next, code: code1, ..s })
            }
        },
        other => Step::Fail(immediate_error(other)),
    }
}

/// Translation of the instruction at `s.pc`.
pub open spec fn step(bc: Seq<u8>, frame: u8, mem: u32, s: TransState) -> Step {
    let op = bc[s.pc];
    if op == WASM_LOCAL_GET || op == WASM_LOCAL_SET || op == WASM_LOCAL_TEE {
        step_local(bc, op, s)
    } else if op == WASM_I32_LOAD || op == WASM_I64_LOAD || op == WASM_I32_STORE || op
        == WASM_I64_STORE {
        step_memory(bc, op, mem, s)
    } else if op == WASM_I32_CONST {
        step_const(bc, s)
    } else if binary_bytes(op) is Some {
        step_binary(op, s)
    } else if op == WASM_I32_EQZ || op == WASM_I64_EQZ {
        step_eqz(op, s)
    } else if op == WASM_NOP || op == WASM_DROP || op == WASM_RETURN || op == WASM_UNREACHABLE {
        step_simple(op, frame, s)
    } else if op == WASM_BLOCK || op == WASM_LOOP || op == WASM_IF {
        step_open(bc, op, s)
    } else if op == WASM_ELSE {
        step_else(s)
    } else if op == WASM_END {
        step_end(s)
    } else if op == WASM_BR || op == WASM_BR_IF {
        step_branch(bc, op, s)
    } else {
        Step::Fail(JitError::UnsupportedOpcode(op))
    }
}

/// The outcome of translating a whole body.
pub enum Translation {
    /// The body was translated to this code.
    Code(Seq<u8>),
    /// Translation fails with this error.
    Failed(JitError),
    /// The body holds an instruction the translator cannot handle without an
    /// arithmetic overflow.
    Aborted,
}

/// What translating gives, starting in state `s`, for at most `fuel` instructions.
pub open spec fn run(bc: Seq<u8>, frame: u8, mem: u32, s: TransState, fuel: nat) -> Translation
    decreases fuel,
{
    if s.pc >= bc.len() {
        Translation::Code(s.code)
    } else if fuel == 0 {
        Translation::Aborted
    } else {
        match step(bc, frame, mem, s) {
            Step::Next(t) => run(bc, frame, mem, t, (fuel - 1) as nat),
            Step::Fail(e) => Translation::Failed(e),
            Step::Abort => Translation::Aborted,
        }
    }
}

/// The total number of locals declared.
pub open spec fn locals_total(locals: Seq<Local>) -> int
    decreases locals.len(),
{
    if locals.len() == 0 {
        0
    } else {
        locals_total(locals.drop_last()) + locals.last().count
    }
}

/// The stack frame reserved for a function: the locals, rounded to 16 bytes,
/// truncated to a byte, and at least 16.
pub open spec fn frame_size(locals: Seq<Local>) -> u8 {
    let size = ((locals_total(locals) * 8 + 8) / 16 * 16) as u8;
    if size > 16 {
        size
    } else {
        16
    }
}

/// The state a translation starts in: the frame is reserved.
pub open spec fn initial_state(frame: u8) -> TransState {
    TransState {
        pc: 0,
        depth: 0,
        next_block: 0,
        blocks: seq![],
        patches: seq![],
        code: rsp_adjust_bytes(0xEC, frame),
    }
}

/// The translation of a function body with the given locals, for a linear
/// memory of `mem` bytes.
pub open spec fn translation(bc: Seq<u8>, locals: Seq<Local>, mem: u32) -> Translation {
    run(bc, frame_size(locals), mem, initial_state(frame_size(locals)), bc.len())
}

/// A state of translation that the translator can be in: the counters stay
/// below the position in the body, and every recorded jump lies inside the code.
pub open spec fn state_wf(s: TransState, n: int) -> bool {
    &&& 0 <= s.pc <= n
    &&& 0 <= s.depth <= s.pc
    &&& 0 <= s.next_block <= s.pc
    &&& forall|i: int|
        #![trigger s.patches[i]]
        0 <= i < s.patches.len() ==> s.patches[i].x64_pos + (if s.patches[i].is_rel8 {
            2int
        } else {
            5int
        }) <= s.code.len()
}

/// What a translation helper promises: on success the next state, which is
/// well formed and further along the body; on failure the error of the step.
spec fn outcome(st: Step, r: Result<(), JitError>, before: TransState, after: TransState, n: int) -> bool {
    match st {
        Step::Next(t) => r is Ok && after == t && state_wf(after, n) && after.pc > before.pc,
        Step::Fail(e) => r == Err::<(), JitError>(e),
        Step::Abort => false,
    }
}

/// Emits a comparison whose result is left in `rax`.
fn emit_compare(e: &mut Emitter, c: Condition)
    ensures
        final(e)@ == old(e)@ + compare_bytes(c),
{
    e.emit_pop(Reg::Rcx);
    e.emit_pop(Reg::Rax);
    e.emit_cmp_rr(Reg::Rax, Reg::Rcx);
    e.emit_mov_ri32(Reg::Rax, 1);
    e.emit_jcc_rel8(c, 3);
    e.emit_mov_ri32(Reg::Rax, 0);
    proof {
        assert(e@ =~= old(e)@ + compare_bytes(c));
    }
}

/// Emits the operand pops and the zero check of a division.
fn emit_div_guard(e: &mut Emitter)
    ensures
        final(e)@ == old(e)@ + div_guard_bytes(),
{
    e.emit_pop(Reg::Rcx);
    e.emit_pop(Reg::Rax);
    e.emit_test_rr(Reg::Rcx, Reg::Rcx);
    e.emit_jcc_rel8(Condition::NotEqual, 2);
    e.emit_int3();
    proof {
        assert(e@ =~= old(e)@ + div_guard_bytes());
    }
}

/// Emits a division or remainder: `signed` picks the sign extension,
/// `wide` the operand width, `rem` the result register.
fn emit_division(e: &mut Emitter, signed: bool, wide: bool, rem: bool)
    ensures
        final(e)@ == old(e)@ + div_guard_bytes() + (if signed {
            if wide {
                cqo_bytes()
            } else {
                seq![0x99u8]
            }
        } else {
            zero_rdx_bytes()
        }) + (if wide {
            if signed {
                div_i64_bytes(Reg::Rcx)
            } else {
                div_u64_bytes(Reg::Rcx)
            }
        } else {
            if signed {
                div_i32_bytes(Reg::Rcx)
            } else {
                div_u32_bytes(Reg::Rcx)
            }
        }) + push_bytes(
            if rem {
                Reg::Rdx
            } else {
                Reg::Rax
            },
        ),
{
    emit_div_guard(e);
    let ghost e1 = e@;
    if signed {
        if wide {
            e.emit_cqo();
        } else {
            e.emit_cdq();
        }
    } else {
        e.emit_xor_rr(Reg::Rdx, Reg::Rdx);
    }
    let ghost e2 = e@;
    if wide {
        if signed {
            e.emit_div_i64(Reg::Rcx);
        } else {
            e.emit_div_u64(Reg::Rcx);
        }
    } else {
        if signed {
            e.emit_div_i32(Reg::Rcx);
        } else {
            e.emit_div_u32(Reg::Rcx);
        }
    }
    let ghost e3 = e@;
    if rem {
        e.emit_push(Reg::Rdx);
    } else {
        e.emit_push(Reg::Rax);
    }
    proof {
        assert(e1.len() >= old(e)@.len());
        assert(e@ =~= e3 + (e@.subrange(e3.len() as int, e@.len() as int)));
    }
}

/// Emits a binary operator that pops two operands and pushes one result.
fn emit_binary(e: &mut Emitter, op: u8)
    requires
        binary_bytes(op) is Some,
    ensures
        final(e)@ == old(e)@ + binary_bytes(op).unwrap(),
{
    if op == WASM_I32_ADD || op == WASM_I64_ADD {
        e.emit_pop(Reg::Rax);
        e.emit_pop(Reg::Rcx);
        e.emit_add_rr(Reg::Rax, Reg::Rcx);
        e.emit_push(Reg::Rax);
    } else if op == WASM_I32_SUB || op == WASM_I64_SUB {
        e.emit_pop(Reg::Rcx);
        e.emit_pop(Reg::Rax);
        e.emit_sub_rr(Reg::Rax, Reg::Rcx);
        e.emit_push(Reg::Rax);
    } else if op == WASM_I32_MUL || op == WASM_I64_MUL {
        e.emit_pop(Reg::Rax);
        e.emit_pop(Reg::Rcx);
        e.emit_mul_rr(Reg::Rax, Reg::Rcx);
        e.emit_push(Reg::Rax);
    } else if op == WASM_I32_AND || op == WASM_I64_AND {
        e.emit_pop(Reg::Rax);
        e.emit_pop(Reg::Rcx);
        e.emit_and_rr(Reg::Rax, Reg::Rcx);
        e.emit_push(Reg::Rax);
    } else if op == WASM_I32_OR || op == WASM_I64_OR {
        e.emit_pop(Reg::Rax);
        e.emit_pop(Reg::Rcx);
        e.emit_or_rr(Reg::Rax, Reg::Rcx);
        e.emit_push(Reg::Rax);
    } else if op == WASM_I32_XOR || op == WASM_I64_XOR {
        e.emit_pop(Reg::Rax);
        e.emit_pop(Reg::Rcx);
        e.emit_xor_rr(Reg::Rax, Reg::Rcx);
        e.emit_push(Reg::Rax);
    } else if op == WASM_I32_DIV_S {
        emit_division(e, true, false, false);
    } else if op == WASM_I32_DIV_U {
        emit_division(e, false, false, false);
    } else if op == WASM_I32_REM_S {
        emit_division(e, true, false, true);
    } else if op == WASM_I32_REM_U {
        emit_division(e, false, false, true);
    } else if op == WASM_I64_DIV_S {
        emit_division(e, true, true, false);
    } else if op == WASM_I64_DIV_U {
        emit_division(e, false, true, false);
    } else if op == WASM_I64_REM_S {
        emit_division(e, true, true, true);
    } else if op == WASM_I64_REM_U {
        emit_division(e, false, true, true);
    } else if op == WASM_I32_SHL || op == WASM_I64_SHL {
        e.emit_pop(Reg::Rcx);
        e.emit_pop(Reg::Rax);
        e.emit_shl_cl(Reg::Rax);
        e.emit_push(Reg::Rax);
    } else if op == WASM_I32_SHR_S || op == WASM_I64_SHR_S {
        e.emit_pop(Reg::Rcx);
        e.emit_pop(Reg::Rax);
        e.emit_sar_cl(Reg::Rax);
        e.emit_push(Reg::Rax);
    } else if op == WASM_I32_SHR_U || op == WASM_I64_SHR_U {
        e.emit_pop(Reg::Rcx);
        e.emit_pop(Reg::Rax);
        e.emit_shr_cl(Reg::Rax);
        e.emit_push(Reg::Rax);
    } else {
        let c = compare_condition_of(op);
        emit_compare(e, c);
    }
    proof {
        assert(e@ =~= old(e)@ + binary_bytes(op).unwrap());
    }
}

/// Returns the condition that a comparison opcode tests.
fn compare_condition_of(op: u8) -> (c: Condition)
    requires
        compare_condition(op) is Some,
    ensures
        compare_condition(op) == Some(c),
{
    if op == WASM_I32_EQ || op == WASM_I64_EQ {
        Condition::Equal
    } else if op == WASM_I32_NE || op == WASM_I64_NE {
        Condition::NotEqual
    } else if op == WASM_I32_LT_S || op == WASM_I64_LT_S {
        Condition::LessSigned
    } else if op == WASM_I32_LT_U || op == WASM_I64_LT_U {
        Condition::Below
    } else if op == WASM_I32_GT_S || op == WASM_I64_GT_S {
        Condition::GreaterSigned
    } else if op == WASM_I32_GT_U || op == WASM_I64_GT_U {
        Condition::Above
    } else if op == WASM_I32_LE_S || op == WASM_I64_LE_S {
        Condition::LessOrEqualSigned
    } else if op == WASM_I32_LE_U || op == WASM_I64_LE_U {
        Condition::BelowOrEqual
    } else if op == WASM_I32_GE_S || op == WASM_I64_GE_S {
        Condition::GreaterOrEqualSigned
    } else {
        Condition::AboveOrEqual
    }
}

/// Whether an opcode is a binary operator or a comparison.
fn is_binary_op(op: u8) -> (b: bool)
    ensures
        b == binary_bytes(op) is Some,
{
    (0x46 <= op && op <= 0x4F) || (0x51 <= op && op <= 0x5A) || (0x6A <= op && op <= 0x76) || (0x7C
        <= op && op <= 0x88)
}

/// Emits `i32.eqz` (`is_i64` false) or `i64.eqz` (true).
fn emit_eqz(e: &mut Emitter, is_i64: bool)
    ensures
        final(e)@ == old(e)@ + eqz_bytes(is_i64),
{
    e.emit_pop(Reg::Rax);
    if is_i64 {
        e.emit_test_rr(Reg::Rax, Reg::Rax);
        e.emit_mov_ri32(Reg::Rax, 0);
    } else {
        e.emit_cmp_ri(Reg::Rax, 0);
        e.emit_mov_ra(Reg::Rax, 0);
    }
    e.emit_mov_ri32(Reg::Rcx, 1);
    e.emit_jcc_rel8(Condition::NotEqual, 4);
    e.emit_mov_rr(Reg::Rax, Reg::Rcx);
    e.emit_push(Reg::Rax);
    proof {
        assert(e@ =~= old(e)@ + eqz_bytes(is_i64));
    }
}

/// Emits a bounds-checked load of `size` bytes.
fn emit_load(e: &mut Emitter, offset: i32, limit: i32)
    ensures
        final(e)@ == old(e)@ + load_bytes(offset, limit),
{
    e.emit_pop(Reg::Rax);
    e.emit_add_ri(Reg::Rax, offset);
    e.emit_cmp_ri(Reg::Rax, limit);
    e.emit_jcc_rel8(Condition::BelowOrEqual, 2);
    e.emit_int3();
    e.emit_mov_rm(Reg::Rax, &Address::new(Reg::Rax).with_displacement(0));
    e.emit_push(Reg::Rax);
    proof {
        assert(e@ =~= old(e)@ + load_bytes(offset, limit));
    }
}

/// Emits a bounds-checked store of `size` bytes.
fn emit_store(e: &mut Emitter, offset: i32, limit: i32)
    ensures
        final(e)@ == old(e)@ + store_bytes(offset, limit),
{
    e.emit_pop(Reg::Rax);
    e.emit_pop(Reg::Rcx);
    e.emit_add_ri(Reg::Rcx, offset);
    e.emit_cmp_ri(Reg::Rcx, limit);
    e.emit_jcc_rel8(Condition::BelowOrEqual, 2);
    e.emit_int3();
    e.emit_mov_mr(&Address::new(Reg::Rcx).with_displacement(0), Reg::Rax);
    proof {
        assert(e@ =~= old(e)@ + store_bytes(offset, limit));
    }
}

/// Overwrites one byte of the emitted code.
fn patch_byte(e: &mut Emitter, pos: usize, byte: u8)
    requires
        pos < old(e)@.len(),
    ensures
        final(e)@ == old(e)@.update(pos as int, byte),
{
    e.code_mut().set(pos, byte);
}

/// The working state of a translation.
struct Translator {
    pc: usize,
    depth: usize,
    next_block: usize,
    blocks: Vec<BlockInfo>,
    patches: Vec<PatchSite>,
    emitter: Emitter,
}

impl Translator {
    /// The translation state this value stands for.
    spec fn state(&self) -> TransState {
        TransState {
            pc: self.pc as int,
            depth: self.depth as int,
            next_block: self.next_block as int,
            blocks: self.blocks@,
            patches: self.patches@,
            code: self.emitter@,
        }
    }
}

impl Translator {
    /// Translates `local.get`, `local.set` or `local.tee`.
    fn translate_local(&mut self, bc: &[u8], op: u8) -> (r: Result<(), JitError>)
        requires
            state_wf(old(self).state(), bc@.len() as int),
            old(self).pc < bc.len(),
            op == WASM_LOCAL_GET || op == WASM_LOCAL_SET || op == WASM_LOCAL_TEE,
            !(step_local(bc@, op, old(self).state()) is Abort),
        ensures
            outcome(step_local(bc@, op, old(self).state()), r, old(self).state(), final(self).state(), bc@.len() as int),
    {
        if op != WASM_LOCAL_GET && self.depth == 0 {
            return Err(JitError::StackUnderflow(op));
        }
        let mut cursor = self.pc + 1;
        proof {
            lemma_uleb32_advances(bc@, self.pc + 1, 0);
        }
        let idx = match read_uleb(bc, &mut cursor) {
            Ok(v) => v,
            Err(e) => return Err(e),
        };
        let offset = LinearScanAllocator::spill_slot_offset(idx);
        let addr = Address::new(Reg::Rsp).with_displacement(offset);
        assert(addr == rsp_address(spill_offset(idx)));
        if op == WASM_LOCAL_GET {
            self.emitter.emit_mov_rm(Reg::Rax, &addr);
            self.emitter.emit_push(Reg::Rax);
            self.depth = self.depth + 1;
        } else if op == WASM_LOCAL_SET {
            self.emitter.emit_pop(Reg::Rax);
            self.emitter.emit_mov_mr(&addr, Reg::Rax);
            self.depth = self.depth - 1;
        } else {
            self.emitter.emit_mov_mr(&addr, Reg::Rax);
            self.emitter.emit_push(Reg::Rax);
        }
        self.pc = cursor;
        proof {
            assert(self.emitter@ =~= match step_local(bc@, op, old(self).state()) {
                Step::Next(t) => t.code,
                _ => self.emitter@,
            });
        }
        Ok(())
    }

    /// Translates an integer load or store.
    fn translate_memory(&mut self, bc: &[u8], op: u8, mem: u32) -> (r: Result<(), JitError>)
        requires
            state_wf(old(self).state(), bc@.len() as int),
            old(self).pc < bc.len(),
            op == WASM_I32_LOAD || op == WASM_I64_LOAD || op == WASM_I32_STORE || op == WASM_I64_STORE,
            !(step_memory(bc@, op, mem, old(self).state()) is Abort),
        ensures
            outcome(step_memory(bc@, op, mem, old(self).state()), r, old(self).state(), final(self).state(), bc@.len() as int),
    {
        let is_store = op == WASM_I32_STORE || op == WASM_I64_STORE;
        let size: u32 = if op == WASM_I32_LOAD || op == WASM_I32_STORE {
            4
        } else {
            8
        };
        if (is_store && self.depth < 2) || (!is_store && self.depth == 0) {
            return Err(JitError::StackUnderflow(op));
        }
        let mut cursor = self.pc + 1;
        proof {
            lemma_uleb32_advances(bc@, self.pc + 1, 0);
        }
        match read_uleb(bc, &mut cursor) {
            Ok(_) => {},
            Err(e) => return Err(e),
        }
        proof {
            lemma_uleb32_advances(bc@, cursor as int, 0);
        }
        let offset = match read_uleb(bc, &mut cursor) {
            Ok(v) => v,
            Err(e) => return Err(e),
        };
        let limit = #[verifier::truncate] ((mem - size) as i32);
        let offset = #[verifier::truncate] (offset as i32);
        if is_store {
            emit_store(&mut self.emitter, offset, limit);
            self.depth = self.depth - 2;
        } else {
            emit_load(&mut self.emitter, offset, limit);
        }
        self.pc = cursor;
        Ok(())
    }

    /// Translates `i32.const`.
    fn translate_const(&mut self, bc: &[u8]) -> (r: Result<(), JitError>)
        requires
            state_wf(old(self).state(), bc@.len() as int),
            old(self).pc < bc.len(),
        ensures
            outcome(step_const(bc@, old(self).state()), r, old(self).state(), final(self).state(), bc@.len() as int),
    {
        let mut cursor = self.pc + 1;
        proof {
            lemma_uleb32_advances(bc@, self.pc + 1, 0);
        }
        let value = match read_uleb(bc, &mut cursor) {
            Ok(v) => v,
            Err(e) => return Err(e),
        };
        self.emitter.emit_mov_ri32(Reg::Rax, value);
        self.emitter.emit_push(Reg::Rax);
        self.depth = self.depth + 1;
        self.pc = cursor;
        proof {
            assert(self.emitter@ =~= old(self).emitter@ + mov_ri32_bytes(Reg::Rax, value) + push_bytes(Reg::Rax));
        }
        Ok(())
    }

    /// Translates a binary operator or a comparison.
    fn translate_binary(&mut self, bc: &[u8], op: u8) -> (r: Result<(), JitError>)
        requires
            state_wf(old(self).state(), bc@.len() as int),
            old(self).pc < bc.len(),
            binary_bytes(op) is Some,
        ensures
            outcome(step_binary(op, old(self).state()), r, old(self).state(), final(self).state(), bc@.len() as int),
    {
        if self.depth < 2 {
            return Err(JitError::StackUnderflow(op));
        }
        emit_binary(&mut self.emitter, op);
        self.depth = self.depth - 1;
        self.pc = self.pc + 1;
        Ok(())
    }

    /// Translates `i32.eqz` or `i64.eqz`.
    fn translate_eqz(&mut self, bc: &[u8], op: u8) -> (r: Result<(), JitError>)
        requires
            state_wf(old(self).state(), bc@.len() as int),
            old(self).pc < bc.len(),
        ensures
            outcome(step_eqz(op, old(self).state()), r, old(self).state(), final(self).state(), bc@.len() as int),
    {
        if self.depth == 0 {
            return Err(JitError::StackUnderflow(op));
        }
        emit_eqz(&mut self.emitter, op == WASM_I64_EQZ);
        self.pc = self.pc + 1;
        Ok(())
    }

    /// Translates `nop`, `drop`, `return` or `unreachable`.
    fn translate_simple(&mut self, bc: &[u8], op: u8, frame: u8) -> (r: Result<(), JitError>)
        requires
            state_wf(old(self).state(), bc@.len() as int),
            old(self).pc < bc.len(),
        ensures
            outcome(step_simple(op, frame, old(self).state()), r, old(self).state(), final(self).state(), bc@.len() as int),
    {
        if op == WASM_NOP {
        } else if op == WASM_DROP {
            if self.depth == 0 {
                return Err(JitError::StackUnderflow(op));
            }
            self.emitter.emit_pop(Reg::Rax);
            self.depth = self.depth - 1;
        } else if op == WASM_RETURN {
            self.emitter.emit_add_rsp(frame);
            self.emitter.emit_ret();
            proof {
                assert(self.emitter@ =~= old(self).emitter@ + rsp_adjust_bytes(0xC4, frame) + seq![0xC3u8]);
            }
        } else {
            self.emitter.emit_int3();
            proof {
                assert(self.emitter@ =~= old(self).emitter@ + seq![0xCCu8]);
            }
        }
        self.pc = self.pc + 1;
        Ok(())
    }
}

/// Filling in jumps keeps the length of the code, when every jump lies inside it.
proof fn lemma_patch_all_len(code: Seq<u8>, sites: Seq<PatchSite>, id: usize, end: int)
    requires
        forall|i: int|
            #![trigger sites[i]]
            0 <= i < sites.len() ==> sites[i].x64_pos + (if sites[i].is_rel8 {
                2int
            } else {
                5int
            }) <= code.len(),
    ensures
        patch_all(code, sites, id, end).len() == code.len(),
    decreases sites.len(),
{
    if sites.len() > 0 {
        let prefix = sites.drop_last();
        assert forall|i: int| #![trigger prefix[i]] 0 <= i < prefix.len() implies prefix[i].x64_pos
            + (if prefix[i].is_rel8 {
            2int
        } else {
            5int
        }) <= code.len() by {
            assert(prefix[i] == sites[i]);
        }
        lemma_patch_all_len(code, prefix, id, end);
        assert(sites.last() == sites[sites.len() - 1]);
    }
}

impl Translator {
    /// Translates `block`, `loop` or `if`.
    fn translate_open(&mut self, bc: &[u8], op: u8) -> (r: Result<(), JitError>)
        requires
            state_wf(old(self).state(), bc@.len() as int),
            old(self).pc < bc.len(),
            op == WASM_BLOCK || op == WASM_LOOP || op == WASM_IF,
        ensures
            outcome(step_open(bc@, op, old(self).state()), r, old(self).state(), final(self).state(), bc@.len() as int),
    {
        if op == WASM_IF {
            if self.depth == 0 {
                return Err(JitError::StackUnderflow(op));
            }
            self.emitter.emit_pop(Reg::Rax);
            self.emitter.emit_test_rr(Reg::Rax, Reg::Rax);
        }
        let ghost code1 = self.emitter@;
        proof {
            assert(op == WASM_IF ==> code1 =~= old(self).emitter@ + pop_bytes(Reg::Rax) + logic_rr_bytes(0x84, 0x85, Reg::Rax, Reg::Rax));
        }
        let mut cursor = self.pc + 1;
        proof {
            lemma_uleb32_advances(bc@, self.pc + 1, 0);
        }
        match read_uleb(bc, &mut cursor) {
            Ok(_) => {},
            Err(e) => return Err(e),
        }
        let id = self.next_block;
        self.next_block = self.next_block + 1;
        let kind = if op == WASM_BLOCK {
            BlockKind::Block
        } else if op == WASM_LOOP {
            BlockKind::Loop
        } else {
            BlockKind::If
        };
        let start = self.emitter.len();
        self.blocks.push(BlockInfo { id, kind, wasm_pc: cursor, x64_start: start, x64_else: None });
        if op == WASM_IF {
            self.patches.push(PatchSite { x64_pos: start, target_block_id: id, is_rel8: true });
            self.emitter.emit_jcc_rel8(Condition::Equal, 0);
            self.depth = self.depth - 1;
        }
        self.pc = cursor;
        proof {
            let s = self.state();
            assert forall|i: int| #![trigger s.patches[i]] 0 <= i < s.patches.len() implies s.patches[i].x64_pos
                + (if s.patches[i].is_rel8 {
                2int
            } else {
                5int
            }) <= s.code.len() by {
                if i < old(self).patches@.len() {
                    assert(s.patches[i] == old(self).patches@[i]);
                }
            }
        }
        Ok(())
    }

    /// Translates `else`.
    fn translate_else(&mut self, bc: &[u8]) -> (r: Result<(), JitError>)
        requires
            state_wf(old(self).state(), bc@.len() as int),
            old(self).pc < bc.len(),
        ensures
            outcome(step_else(old(self).state()), r, old(self).state(), final(self).state(), bc@.len() as int),
    {
        if self.blocks.len() > 0 {
            let n = self.blocks.len() - 1;
            let mut block = self.blocks[n];
            let id = block.id;
            let pos = self.emitter.len();
            block.x64_else = Some(pos);
            self.blocks.set(n, block);
            self.patches.push(PatchSite { x64_pos: pos, target_block_id: id, is_rel8: true });
            self.emitter.emit_jmp_rel8(0);
            proof {
                let s = self.state();
                assert(s.code =~= old(self).emitter@ + seq![0xEBu8, 0u8]);
                assert forall|i: int| #![trigger s.patches[i]] 0 <= i < s.patches.len() implies s.patches[i].x64_pos
                    + (if s.patches[i].is_rel8 {
                    2int
                } else {
                    5int
                }) <= s.code.len() by {
                    if i < old(self).patches@.len() {
                        assert(s.patches[i] == old(self).patches@[i]);
                    }
                }
            }
        }
        self.pc = self.pc + 1;
        Ok(())
    }

    /// Translates `end`: closes the innermost block and fills in the jumps to it.
    fn translate_end(&mut self, bc: &[u8]) -> (r: Result<(), JitError>)
        requires
            state_wf(old(self).state(), bc@.len() as int),
            old(self).pc < bc.len(),
        ensures
            outcome(step_end(old(self).state()), r, old(self).state(), final(self).state(), bc@.len() as int),
    {
        self.pc = self.pc + 1;
        if self.blocks.len() == 0 {
            return Ok(());
        }
        let block = self.blocks.pop().unwrap();
        let end = self.emitter.len();
        let ghost code0 = self.emitter@;
        let ghost sites = self.patches@;
        let mut i: usize = 0;
        while i < self.patches.len()
            invariant
                0 <= i <= self.patches@.len(),
                self.patches@ == sites,
                self.pc == old(self).pc + 1,
                self.depth == old(self).depth,
                self.next_block == old(self).next_block,
                self.blocks@ == old(self).blocks@.drop_last(),
                block == old(self).blocks@.last(),
                end == code0.len(),
                self.emitter@ == patch_all(code0, sites.subrange(0, i as int), block.id, end as int),
                forall|j: int|
                    #![trigger sites[j]]
                    0 <= j < sites.len() ==> sites[j].x64_pos + (if sites[j].is_rel8 {
                        2int
                    } else {
                        5int
                    }) <= code0.len(),
            decreases self.patches@.len() - i,
        {
            let site = self.patches[i];
            proof {
                let pre = sites.subrange(0, i as int);
                assert forall|j: int| #![trigger pre[j]] 0 <= j < pre.len() implies pre[j].x64_pos + (
                if pre[j].is_rel8 {
                    2int
                } else {
                    5int
                }) <= code0.len() by {
                    assert(pre[j] == sites[j]);
                }
                lemma_patch_all_len(code0, pre, block.id, end as int);
                assert(sites.subrange(0, i + 1).drop_last() =~= pre);
                assert(sites.subrange(0, i + 1).last() == site);
            }
            if site.target_block_id == block.id {
                let pos = site.x64_pos;
                if site.is_rel8 {
                    let off = #[verifier::truncate] (((end as i128) - (pos as i128) - 2) as i8);
                    patch_byte(&mut self.emitter, pos + 1, #[verifier::truncate] (off as u8));
                } else {
                    let v = #[verifier::truncate] ((((end as i128) - (pos as i128) - 5) as i32) as u32);
                    patch_byte(&mut self.emitter, pos + 1, #[verifier::truncate] (v as u8));
                    patch_byte(&mut self.emitter, pos + 2, (v >> 8) as u8);
                    patch_byte(&mut self.emitter, pos + 3, (v >> 16) as u8);
                    patch_byte(&mut self.emitter, pos + 4, (v >> 24) as u8);
                }
            }
            i = i + 1;
        }
        proof {
            assert(sites.subrange(0, sites.len() as int) =~= sites);
            let s = self.state();
            lemma_patch_all_len(code0, sites, block.id, end as int);
            assert forall|j: int| #![trigger s.patches[j]] 0 <= j < s.patches.len() implies s.patches[j].x64_pos
                + (if s.patches[j].is_rel8 {
                2int
            } else {
                5int
            }) <= s.code.len() by {
                assert(s.patches[j] == sites[j]);
            }
        }
        Ok(())
    }
}

impl Translator {
    /// Translates `br` or `br_if`.
    fn translate_branch(&mut self, bc: &[u8], op: u8) -> (r: Result<(), JitError>)
        requires
            state_wf(old(self).state(), bc@.len() as int),
            old(self).pc < bc.len(),
            op == WASM_BR || op == WASM_BR_IF,
        ensures
            outcome(step_branch(bc@, op, old(self).state()), r, old(self).state(), final(self).state(), bc@.len() as int),
    {
        let mut cursor = self.pc + 1;
        proof {
            lemma_uleb32_advances(bc@, self.pc + 1, 0);
        }
        let label = match read_uleb(bc, &mut cursor) {
            Ok(v) => v,
            Err(e) => return Err(e),
        };
        if op == WASM_BR_IF {
            self.emitter.emit_pop(Reg::Rax);
            self.emitter.emit_test_rr(Reg::Rax, Reg::Rax);
        }
        let ghost code1 = self.emitter@;
        proof {
            assert(op == WASM_BR_IF ==> code1 =~= old(self).emitter@ + pop_bytes(Reg::Rax) + logic_rr_bytes(0x84, 0x85, Reg::Rax, Reg::Rax));
        }
        if (label as usize) < self.blocks.len() {
            let block = self.blocks[self.blocks.len() - 1 - label as usize];
            let here = self.emitter.len();
            match block.kind {
                BlockKind::Loop => {
                    let offset: i128 = (block.x64_start as i128) - (here as i128);
                    if op == WASM_BR_IF {
                        self.emitter.emit_jcc_rel32(Condition::NotEqual, #[verifier::truncate] ((offset - 6) as i32));
                    } else {
                        self.emitter.emit_jmp_rel32(#[verifier::truncate] ((offset - 5) as i32));
                    }
                },
                _ => {
                    self.patches.push(PatchSite { x64_pos: here, target_block_id: block.id, is_rel8: false });
                    if op == WASM_BR_IF {
                        self.emitter.emit_jcc_rel32(Condition::NotEqual, 0);
                    } else {
                        self.emitter.emit_jmp_rel32(0);
                    }
                },
            }
        }
        self.pc = cursor;
        proof {
            let s = self.state();
            assert forall|i: int| #![trigger s.patches[i]] 0 <= i < s.patches.len() implies s.patches[i].x64_pos
                + (if s.patches[i].is_rel8 {
                2int
            } else {
                5int
            }) <= s.code.len() by {
                if i < old(self).patches@.len() {
                    assert(s.patches[i] == old(self).patches@[i]);
                }
            }
        }
        Ok(())
    }
}

/// The locals of a prefix of the declarations are no more than all of them.
proof fn lemma_locals_total_prefix(locals: Seq<Local>, i: int)
    requires
        0 <= i <= locals.len(),
    ensures
        0 <= locals_total(locals.subrange(0, i)) <= locals_total(locals),
    decreases locals.len(),
{
    if i == locals.len() {
        assert(locals.subrange(0, i) =~= locals);
        lemma_locals_total_nonneg(locals);
    } else {
        lemma_locals_total_prefix(locals.drop_last(), i);
        assert(locals.drop_last().subrange(0, i) =~= locals.subrange(0, i));
    }
}

/// The total number of locals is never negative.
proof fn lemma_locals_total_nonneg(locals: Seq<Local>)
    ensures
        locals_total(locals) >= 0,
    decreases locals.len(),
{
    if locals.len() > 0 {
        lemma_locals_total_nonneg(locals.drop_last());
    }
}

/// Adds up the counts of the local declarations.
fn sum_locals(locals: &[Local]) -> (total: u32)
    requires
        locals_total(locals@) <= u32::MAX,
    ensures
        total == locals_total(locals@),
{
    let mut total: u32 = 0;
    let mut i: usize = 0;
    while i < locals.len()
        invariant
            0 <= i <= locals@.len(),
            total == locals_total(locals@.subrange(0, i as int)),
            locals_total(locals@) <= u32::MAX,
        decreases locals@.len() - i,
    {
        proof {
            assert(locals@.subrange(0, i + 1).drop_last() =~= locals@.subrange(0, i as int));
            lemma_locals_total_prefix(locals@, i + 1);
        }
        total = total + locals[i].count;
        i = i + 1;
    }
    proof {
        assert(locals@.subrange(0, locals@.len() as int) =~= locals@);
    }
    total
}

/// The size of the stack frame for locals that number `total` in all.
fn frame_size_for(total: u32) -> (size: u8)
    ensures
        forall|locals: Seq<Local>| locals_total(locals) == total ==> size == frame_size(locals),
{
    let rounded: u64 = ((total as u64) * 8 + 8) / 16 * 16;
    let size = #[verifier::truncate] (rounded as u8);
    if size > 16 {
        size
    } else {
        16
    }
}

/// Whether a result agrees with the translation of a body.
pub open spec fn translated(t: Translation, r: Result<Vec<u8>, JitError>) -> bool {
    match t {
        Translation::Code(c) => r is Ok && r->Ok_0@ == c,
        Translation::Failed(e) => r == Err::<Vec<u8>, JitError>(e),
        Translation::Aborted => false,
    }
}

/// Translates a function body with the given locals to x86-64 code, for a
/// linear memory of `mem` bytes.
fn translate_body(bytecode: &[u8], locals: &[Local], mem: u32) -> (r: Result<Vec<u8>, JitError>)
    requires
        locals_total(locals@) <= u32::MAX,
        !(translation(bytecode@, locals@, mem) is Aborted),
    ensures
        translated(translation(bytecode@, locals@, mem), r),
{
    let total = sum_locals(locals);
    let frame = frame_size_for(total);
    let mut t = Translator {
        pc: 0,
        depth: 0,
        next_block: 0,
        blocks: Vec::new(),
        patches: Vec::new(),
        emitter: Emitter::new(),
    };
    t.emitter.emit_sub_rsp(frame);
    let ghost mut fuel: nat = bytecode@.len();
    proof {
        assert(t.state() =~= initial_state(frame));
    }
    while t.pc < bytecode.len()
        invariant
            state_wf(t.state(), bytecode@.len() as int),
            fuel + t.pc >= bytecode@.len(),
            frame == frame_size(locals@),
            run(bytecode@, frame, mem, t.state(), fuel) == translation(bytecode@, locals@, mem),
            !(translation(bytecode@, locals@, mem) is Aborted),
        decreases bytecode@.len() - t.pc,
    {
        let ghost s = t.state();
        let op = bytecode[t.pc];
        assert(run(bytecode@, frame, mem, s, fuel) == match step(bytecode@, frame, mem, s) {
            Step::Next(n) => run(bytecode@, frame, mem, n, (fuel - 1) as nat),
            Step::Fail(e) => Translation::Failed(e),
            Step::Abort => Translation::Aborted,
        });
        let r = if op == WASM_LOCAL_GET || op == WASM_LOCAL_SET || op == WASM_LOCAL_TEE {
            t.translate_local(bytecode, op)
        } else if op == WASM_I32_LOAD || op == WASM_I64_LOAD || op == WASM_I32_STORE || op
            == WASM_I64_STORE {
            t.translate_memory(bytecode, op, mem)
        } else if op == WASM_I32_CONST {
            t.translate_const(bytecode)
        } else if is_binary_op(op) {
            t.translate_binary(bytecode, op)
        } else if op == WASM_I32_EQZ || op == WASM_I64_EQZ {
            t.translate_eqz(bytecode, op)
        } else if op == WASM_NOP || op == WASM_DROP || op == WASM_RETURN || op == WASM_UNREACHABLE {
            t.translate_simple(bytecode, op, frame)
        } else if op == WASM_BLOCK || op == WASM_LOOP || op == WASM_IF {
            t.translate_open(bytecode, op)
        } else if op == WASM_ELSE {
            t.translate_else(bytecode)
        } else if op == WASM_END {
            t.translate_end(bytecode)
        } else if op == WASM_BR || op == WASM_BR_IF {
            t.translate_branch(bytecode, op)
        } else {
            Err(JitError::UnsupportedOpcode(op))
        };
        assert(outcome(step(bytecode@, frame, mem, s), r, s, t.state(), bytecode@.len() as int));
        match r {
            Err(e) => {
                return Err(e);
            },
            Ok(()) => {},
        }
        proof {
            fuel = (fuel - 1) as nat;
        }
    }
    Ok(t.emitter.take_code())
}

#[derive(Clone, Copy, Debug, PartialEq, Eq, Hash, Structural)]
/// JIT compilation tier.
pub enum CompilationTier {
    /// Fast baseline code generation.
    Baseline,
    /// Higher-cost optimised code generation.
    Optimized,
}

#[derive(Clone, Debug)]
/// Compiled machine code for a single WebAssembly function.
pub struct CompiledFunction {
    /// Function identifier within the compiler cache.
    pub id: u64,
    /// Compilation tier used to produce this code.
    pub tier: CompilationTier,
    /// Generated machine-code bytes.
    pub code: Vec<u8>,
}

/// A compiled function as a value: identifier, tier and code.
pub type CompiledView = (u64, CompilationTier, Seq<u8>);

/// What the code of a defined function depends on: its type index, locals and body.
pub type FuncKey = (u32, Seq<Local>, Seq<u8>);

/// What identifies a compiled function in the cache: the tier, the function
/// index and, for a defined function, its contents.
pub type CacheKeyView = (CompilationTier, u32, Option<FuncKey>);

/// A compiled function as a value.
pub open spec fn compiled_view(f: CompiledFunction) -> CompiledView {
    (f.id, f.tier, f.code@)
}

/// The number of imported functions, as the compiler counts them.
pub open spec fn import_funcs(m: Module) -> u32 {
    func_import_count(m.imports@) as u32
}

/// The position among the defined functions of function `idx` of the index
/// space, if it is a defined function.
pub open spec fn defined_index(m: Module, idx: u32) -> Option<int> {
    let n = import_funcs(m);
    if idx < n {
        None
    } else if idx - n < m.funcs@.len() {
        Some(idx - n)
    } else {
        None
    }
}

/// The message for a function index that names no defined function.
pub open spec fn lookup_error(m: Module, idx: u32) -> Seq<char> {
    if idx < import_funcs(m) {
        "cannot JIT-compile imported function "@ + decimal_chars(idx as nat)
    } else {
        "function "@ + decimal_chars(idx as nat) + " not found"@
    }
}

/// The contents of a defined function that its code depends on.
pub open spec fn func_key(f: Func) -> FuncKey {
    (f.type_idx, f.locals@, f.body@)
}

/// The cache key of function `idx` of a module at a tier.
pub open spec fn cache_key(tier: CompilationTier, m: Module, idx: u32) -> CacheKeyView {
    (tier, idx, match defined_index(m, idx) {
        Some(i) => Some(func_key(m.funcs@[i])),
        None => None,
    })
}

/// The latest cache entry under a key.
pub open spec fn lookup(entries: Seq<(CacheKeyView, CompiledView)>, k: CacheKeyView) -> Option<CompiledView>
    decreases entries.len(),
{
    if entries.len() == 0 {
        None
    } else if entries.last().0 == k {
        Some(entries.last().1)
    } else {
        lookup(entries.drop_last(), k)
    }
}

/// Whether compiling function `idx` can be done without an arithmetic
/// overflow: the locals can be counted and every instruction translated.
pub open spec fn translatable(m: Module, idx: u32, mem: u32) -> bool {
    match defined_index(m, idx) {
        Some(i) => locals_total(m.funcs@[i].locals@) <= u32::MAX && !(translation(
            m.funcs@[i].body@,
            m.funcs@[i].locals@,
            mem,
        ) is Aborted),
        None => true,
    }
}

/// The result of compiling function `idx` (its value, or the error message),
/// and the cache afterwards.
pub open spec fn compile_spec(
    entries: Seq<(CacheKeyView, CompiledView)>,
    tier: CompilationTier,
    mem: u32,
    m: Module,
    idx: u32,
) -> (Result<CompiledView, Seq<char>>, Seq<(CacheKeyView, CompiledView)>) {
    let k = cache_key(tier, m, idx);
    match lookup(entries, k) {
        Some(c) => (Ok(c), entries),
        None => match defined_index(m, idx) {
            None => (Err(lookup_error(m, idx)), entries),
            Some(i) => match translation(m.funcs@[i].body@, m.funcs@[i].locals@, mem) {
                Translation::Code(code) => {
                    let c = (idx as u64, tier, code);
                    (Ok(c), entries.push((k, c)))
                },
                Translation::Failed(e) => (Err(jit_error_text(e)), entries),
                Translation::Aborted => (Err(Seq::empty()), entries),
            },
        },
    }
}

/// Whether a compilation result is the expected value or error message.
pub open spec fn compile_result_is(r: Result<CompiledFunction, WasmError>, expected: Result<CompiledView, Seq<char>>) -> bool {
    match expected {
        Ok(c) => r matches Ok(f) && compiled_view(f) == c,
        Err(msg) => r matches Err(WasmError::Runtime(m)) && m@ == msg,
    }
}

/// Compiling a function a second time gives the same result as the first
/// compilation and adds nothing to the cache.
pub proof fn lemma_compile_cached(
    entries: Seq<(CacheKeyView, CompiledView)>,
    tier: CompilationTier,
    mem: u32,
    m: Module,
    idx: u32,
)
    requires
        compile_spec(entries, tier, mem, m, idx).0 is Ok,
    ensures
        ({
            let (r1, e1) = compile_spec(entries, tier, mem, m, idx);
            compile_spec(e1, tier, mem, m, idx) == (r1, e1)
        }),
{
}

/// Functions compiled at different tiers, or with different contents, have
/// different cache keys.
pub proof fn lemma_cache_key_distinguishes(t1: CompilationTier, m1: Module, t2: CompilationTier, m2: Module, idx: u32)
    requires
        t1 != t2 || (defined_index(m1, idx) is Some && defined_index(m2, idx) is Some
            && func_key(m1.funcs@[defined_index(m1, idx)->0]) != func_key(
            m2.funcs@[defined_index(m2, idx)->0],
        )),
    ensures
        cache_key(t1, m1, idx) != cache_key(t2, m2, idx),
{
}

/// Whether every cache entry is one that compiling stores: the key of a
/// defined function, with code of that function index at the key's tier.
pub open spec fn cache_sound(entries: Seq<(CacheKeyView, CompiledView)>) -> bool {
    forall|i: int|
        0 <= i < entries.len() ==> (#[trigger] entries[i]).0.2 is Some && entries[i].1.0
            == entries[i].0.1 as u64 && entries[i].1.1 == entries[i].0.0
}

/// What a sound cache gives back under a key was stored for that key.
proof fn lemma_lookup_sound(entries: Seq<(CacheKeyView, CompiledView)>, k: CacheKeyView)
    requires
        cache_sound(entries),
    ensures
        lookup(entries, k) matches Some(c) ==> k.2 is Some && c.0 == k.1 as u64 && c.1 == k.0,
    decreases entries.len(),
{
    if entries.len() > 0 {
        assert(entries.last() == entries[entries.len() - 1]);
        if entries.last().0 != k {
            let d = entries.drop_last();
            assert forall|i: int| 0 <= i < d.len() implies (#[trigger] d[i]).0.2 is Some && d[i].1.0
                == d[i].0.1 as u64 && d[i].1.1 == d[i].0.0 by {
                assert(d[i] == entries[i]);
            }
            lemma_lookup_sound(d, k);
        }
    }
}

/// Compiling with a sound cache: an index that names no defined function
/// (an imported one, or one past the end) gives its error message; any
/// compiled code carries the requested index and the tier; an error leaves
/// the cache as it was; and the cache stays sound.
pub proof fn lemma_compile_outcome(
    entries: Seq<(CacheKeyView, CompiledView)>,
    tier: CompilationTier,
    mem: u32,
    m: Module,
    idx: u32,
)
    requires
        cache_sound(entries),
    ensures
        cache_sound(compile_spec(entries, tier, mem, m, idx).1),
        defined_index(m, idx) is None ==> compile_spec(entries, tier, mem, m, idx) == (
        Err::<CompiledView, Seq<char>>(lookup_error(m, idx)),
        entries,
        ),
        compile_spec(entries, tier, mem, m, idx).0 matches Ok(c) ==> c.0 == idx as u64 && c.1 == tier,
        compile_spec(entries, tier, mem, m, idx).0 is Err ==> compile_spec(entries, tier, mem, m, idx).1
            == entries,
{
    let k = cache_key(tier, m, idx);
    lemma_lookup_sound(entries, k);
    let e = compile_spec(entries, tier, mem, m, idx).1;
    if e != entries {
        assert forall|i: int| 0 <= i < e.len() implies (#[trigger] e[i]).0.2 is Some && e[i].1.0
            == e[i].0.1 as u64 && e[i].1.1 == e[i].0.0 by {
            if i < entries.len() {
                assert(e[i] == entries[i]);
            }
        }
    }
}

/// The hotness threshold: a function called this many times is hot.
pub const HOT_THRESHOLD: u64 = 1000;

/// A cache key as a value of the program.
struct CacheKey {
    tier: CompilationTier,
    func_idx: u32,
    func: Option<(u32, Vec<Local>, Vec<u8>)>,
}

impl CacheKey {
    spec fn view(&self) -> CacheKeyView {
        (self.tier, self.func_idx, match self.func {
            Some((t, l, b)) => Some((t, l@, b@)),
            None => None,
        })
    }
}

/// Copies a byte buffer.
fn copy_bytes(v: &[u8]) -> (r: Vec<u8>)
    ensures
        r@ == v@,
{
    let mut r: Vec<u8> = Vec::new();
    let mut i: usize = 0;
    while i < v.len()
        invariant
            0 <= i <= v@.len(),
            r@ == v@.subrange(0, i as int),
        decreases v@.len() - i,
    {
        r.push(v[i]);
        i = i + 1;
        proof {
            assert(r@ =~= v@.subrange(0, i as int));
        }
    }
    proof {
        assert(r@ =~= v@);
    }
    r
}

/// Copies a list of local declarations.
fn copy_locals(v: &[Local]) -> (r: Vec<Local>)
    ensures
        r@ == v@,
{
    let mut r: Vec<Local> = Vec::new();
    let mut i: usize = 0;
    while i < v.len()
        invariant
            0 <= i <= v@.len(),
            r@ == v@.subrange(0, i as int),
        decreases v@.len() - i,
    {
        r.push(v[i]);
        i = i + 1;
        proof {
            assert(r@ =~= v@.subrange(0, i as int));
        }
    }
    proof {
        assert(r@ =~= v@);
    }
    r
}

/// Whether two byte buffers are equal.
fn bytes_equal(a: &[u8], b: &[u8]) -> (r: bool)
    ensures
        r == (a@ == b@),
{
    if a.len() != b.len() {
        return false;
    }
    let mut i: usize = 0;
    while i < a.len()
        invariant
            a@.len() == b@.len(),
            0 <= i <= a@.len(),
            forall|j: int| 0 <= j < i ==> a@[j] == b@[j],
        decreases a@.len() - i,
    {
        if a[i] != b[i] {
            return false;
        }
        i = i + 1;
    }
    proof {
        assert(a@ =~= b@);
    }
    true
}

/// Whether two lists of local declarations are equal.
fn locals_equal(a: &[Local], b: &[Local]) -> (r: bool)
    ensures
        r == (a@ == b@),
{
    if a.len() != b.len() {
        return false;
    }
    let mut i: usize = 0;
    while i < a.len()
        invariant
            a@.len() == b@.len(),
            0 <= i <= a@.len(),
            forall|j: int| 0 <= j < i ==> a@[j] == b@[j],
        decreases a@.len() - i,
    {
        if a[i] != b[i] {
            return false;
        }
        i = i + 1;
    }
    proof {
        assert(a@ =~= b@);
    }
    true
}

/// Whether two cache keys are equal.
fn keys_equal(a: &CacheKey, b: &CacheKey) -> (r: bool)
    ensures
        r == (a.view() == b.view()),
{
    if a.tier != b.tier || a.func_idx != b.func_idx {
        return false;
    }
    match (&a.func, &b.func) {
        (None, None) => true,
        (Some((t1, l1, b1)), Some((t2, l2, b2))) => {
            *t1 == *t2 && locals_equal(l1.as_slice(), l2.as_slice()) && bytes_equal(b1.as_slice(), b2.as_slice())
        },
        _ => false,
    }
}

/// Copies a compiled function.
fn copy_compiled(f: &CompiledFunction) -> (r: CompiledFunction)
    ensures
        compiled_view(r) == compiled_view(*f),
{
    CompiledFunction { id: f.id, tier: f.tier, code: copy_bytes(f.code.as_slice()) }
}

/// WebAssembly JIT compiler.
pub struct JitCompiler {
    code_cache: Vec<(CacheKey, CompiledFunction)>,
    compilation_tier: CompilationTier,
    call_counts: std::collections::HashMap<u64, u64>,
    osr_queue: OsrQueue,
    osr_compilation_queue: OsrCompilationQueue,
    osr_enabled: bool,
    memory_size: u32,
}

impl JitCompiler {
    /// The compiled functions in the cache, with their keys, oldest first.
    pub closed spec fn entries(&self) -> Seq<(CacheKeyView, CompiledView)> {
        self.code_cache@.map_values(|e: (CacheKey, CompiledFunction)| (e.0.view(), compiled_view(e.1)))
    }

    /// The tier at which functions are compiled.
    pub closed spec fn tier(&self) -> CompilationTier {
        self.compilation_tier
    }

    /// The size of linear memory that loads and stores are checked against.
    pub closed spec fn memory(&self) -> u32 {
        self.memory_size
    }

    /// The number of recorded calls of each function.
    pub closed spec fn calls(&self) -> Map<u64, u64> {
        self.call_counts@
    }

    /// The functions queued for on-stack replacement, first to be served first.
    pub closed spec fn osr_candidates(&self) -> Seq<u64> {
        self.osr_queue.items()
    }

    /// The queued optimised compilations, first to be served first.
    pub closed spec fn osr_tasks(&self) -> Seq<OsrCompilationTask> {
        self.osr_compilation_queue.tasks()
    }

    /// Whether on-stack replacement is enabled.
    pub closed spec fn osr_on(&self) -> bool {
        self.osr_enabled
    }

    /// The queues hold what their invariants say: no function twice among
    /// the candidates, and the tasks in order of priority.
    pub closed spec fn wf(&self) -> bool {
        self.osr_queue.wf() && self.osr_compilation_queue.wf() && cache_sound(self.entries())
    }

    /// The number of recorded calls of a function.
    pub open spec fn call_count(&self, idx: u64) -> u64 {
        if self.calls().dom().contains(idx) {
            self.calls()[idx]
        } else {
            0
        }
    }

    /// Creates a compiler with an empty cache, at the baseline tier, with OSR
    /// disabled and a 64 KiB linear memory.
    pub fn new() -> (c: Self)
        ensures
            c.entries() == Seq::<(CacheKeyView, CompiledView)>::empty(),
            c.tier() == CompilationTier::Baseline,
            c.memory() == 65536,
            c.calls() == Map::<u64, u64>::empty(),
            c.osr_candidates() == Seq::<u64>::empty(),
            c.osr_tasks() == Seq::<OsrCompilationTask>::empty(),
            !c.osr_on(),
            c.wf(),
    {
        let c = Self {
            code_cache: Vec::new(),
            compilation_tier: CompilationTier::Baseline,
            call_counts: std::collections::HashMap::new(),
            osr_queue: OsrQueue::new(),
            osr_compilation_queue: OsrCompilationQueue::new(),
            osr_enabled: false,
            memory_size: 65536,
        };
        proof {
            assert(c.entries() =~= Seq::<(CacheKeyView, CompiledView)>::empty());
        }
        c
    }

    /// Sets the size of linear memory that loads and stores are checked against.
    pub fn set_memory_size(&mut self, size: u32)
        ensures
            final(self).memory() == size,
            final(self).entries() == old(self).entries(),
            final(self).tier() == old(self).tier(),
            final(self).calls() == old(self).calls(),
            final(self).osr_candidates() == old(self).osr_candidates(),
            final(self).osr_tasks() == old(self).osr_tasks(),
            final(self).osr_on() == old(self).osr_on(),
            final(self).wf() == old(self).wf(),
    {
        self.memory_size = size;
    }

    /// Returns the tier at which functions are compiled.
    pub fn tier_of(&self) -> (t: CompilationTier)
        ensures
            t == self.tier(),
    {
        self.compilation_tier
    }

    /// Returns the number of imported functions of a module.
    fn import_func_count(module: &Module) -> (n: u32)
        ensures
            n == import_funcs(*module),
    {
        #[verifier::truncate]
        (module.func_import_count_usize() as u32)
    }

    /// Returns the defined function at index `func_idx` of the function index
    /// space, or the error for an imported or missing function.
    fn defined_func(module: &Module, func_idx: u32) -> (r: Result<&Func, WasmError>)
        ensures
            match defined_index(*module, func_idx) {
                Some(i) => r == Ok::<&Func, WasmError>(&module.funcs@[i]),
                None => r matches Err(WasmError::Runtime(m)) && m@ == lookup_error(*module, func_idx),
            },
    {
        let import_func_count = Self::import_func_count(module);
        if func_idx < import_func_count {
            return Err(WasmError::Runtime(with_decimal("cannot JIT-compile imported function ", func_idx as u64)));
        }
        let local_idx = func_idx - import_func_count;
        match module.defined_func_at(local_idx) {
            Some(f) => Ok(f),
            None => {
                let mut s = with_decimal("function ", func_idx as u64);
                s.append(" not found");
                Err(WasmError::Runtime(s))
            },
        }
    }

    /// Returns the cache key of a function at the current tier.
    fn compute_cache_key(&self, module: &Module, func_idx: u32) -> (k: CacheKey)
        ensures
            k.view() == cache_key(self.tier(), *module, func_idx),
    {
        let func = match Self::defined_func(module, func_idx) {
            Ok(f) => Some((f.type_idx, copy_locals(f.locals.as_slice()), copy_bytes(f.body.as_slice()))),
            Err(_) => None,
        };
        CacheKey { tier: self.compilation_tier, func_idx, func }
    }

    /// Returns the position of the latest cache entry under a key.
    fn find_cached(&self, key: &CacheKey) -> (r: Option<usize>)
        ensures
            match lookup(self.entries(), key.view()) {
                Some(c) => r matches Some(i) && i < self.code_cache@.len() && compiled_view(self.code_cache@[i as int].1) == c,
                None => r is None,
            },
    {
        let ghost all = self.entries();
        let mut i: usize = self.code_cache.len();
        proof {
            assert(all.subrange(0, i as int) =~= all);
        }
        while i > 0
            invariant
                i <= self.code_cache@.len(),
                all == self.entries(),
                lookup(all, key.view()) == lookup(all.subrange(0, i as int), key.view()),
            decreases i,
        {
            let ghost prefix = all.subrange(0, i as int);
            proof {
                assert(prefix.drop_last() =~= all.subrange(0, i - 1));
                assert(prefix.last() == all[i - 1]);
            }
            if keys_equal(&self.code_cache[i - 1].0, key) {
                return Some(i - 1);
            }
            i = i - 1;
        }
        None
    }

    /// Translates a function body to x86-64 code.
    fn translate_wasm_to_x64(&self, bytecode: &[u8], locals: &[Local]) -> (r: Result<Vec<u8>, JitError>)
        requires
            locals_total(locals@) <= u32::MAX,
            !(translation(bytecode@, locals@, self.memory()) is Aborted),
        ensures
            translated(translation(bytecode@, locals@, self.memory()), r),
    {
        translate_body(bytecode, locals, self.memory_size)
    }

    /// Compiles function `func_idx` of the module's function index space, or
    /// returns the cached code when it was compiled before at this tier with
    /// the same contents.
    pub fn compile(&mut self, module: &Module, func_idx: u32) -> (r: Result<CompiledFunction, WasmError>)
        requires
            lookup(old(self).entries(), cache_key(old(self).tier(), *module, func_idx)) is None
                ==> translatable(*module, func_idx, old(self).memory()),
        ensures
            compile_result_is(r, compile_spec(old(self).entries(), old(self).tier(), old(self).memory(), *module, func_idx).0),
            final(self).entries() == compile_spec(old(self).entries(), old(self).tier(), old(self).memory(), *module, func_idx).1,
            final(self).tier() == old(self).tier(),
            final(self).memory() == old(self).memory(),
            final(self).calls() == old(self).calls(),
            final(self).osr_candidates() == old(self).osr_candidates(),
            final(self).osr_tasks() == old(self).osr_tasks(),
            final(self).osr_on() == old(self).osr_on(),
            final(self).wf() == old(self).wf(),
            old(self).wf() && defined_index(*module, func_idx) is None ==> (r matches Err(WasmError::Runtime(m))
                && m@ == lookup_error(*module, func_idx)),
            old(self).wf() ==> (r matches Ok(f) ==> f.id == func_idx as u64 && f.tier == old(self).tier()),
            r is Err ==> final(self).entries() == old(self).entries(),
    {
        proof {
            if cache_sound(self.entries()) {
                lemma_compile_outcome(self.entries(), self.tier(), self.memory(), *module, func_idx);
            }
        }
        let key = self.compute_cache_key(module, func_idx);
        match self.find_cached(&key) {
            Some(i) => {
                return Ok(copy_compiled(&self.code_cache[i].1));
            },
            None => {},
        }
        let func = match Self::defined_func(module, func_idx) {
            Ok(f) => f,
            Err(e) => return Err(e),
        };
        let code = match self.translate_wasm_to_x64(func.body.as_slice(), func.locals.as_slice()) {
            Ok(c) => c,
            Err(e) => return Err(WasmError::Runtime(e.message())),
        };
        let compiled = CompiledFunction { id: func_idx as u64, tier: self.compilation_tier, code };
        let stored = copy_compiled(&compiled);
        self.code_cache.push((key, stored));
        proof {
            assert(self.entries() =~= old(self).entries().push((key.view(), compiled_view(compiled))));
            let before = old(self).entries();
            if !cache_sound(before) {
                let i = choose|i: int|
                    !(0 <= i < before.len() ==> (#[trigger] before[i]).0.2 is Some && before[i].1.0
                        == before[i].0.1 as u64 && before[i].1.1 == before[i].0.0);
                assert(self.entries()[i] == before[i]);
            }
        }
        Ok(compiled)
    }

    /// Sets the tier at which functions are compiled.
    pub fn set_tier(&mut self, tier: CompilationTier)
        ensures
            final(self).tier() == tier,
            final(self).entries() == old(self).entries(),
            final(self).memory() == old(self).memory(),
            final(self).calls() == old(self).calls(),
            final(self).osr_candidates() == old(self).osr_candidates(),
            final(self).osr_tasks() == old(self).osr_tasks(),
            final(self).osr_on() == old(self).osr_on(),
            final(self).wf() == old(self).wf(),
    {
        self.compilation_tier = tier;
    }

    /// Empties the cache of compiled code.
    pub fn clear_cache(&mut self)
        ensures
            final(self).entries() == Seq::<(CacheKeyView, CompiledView)>::empty(),
            final(self).tier() == old(self).tier(),
            final(self).memory() == old(self).memory(),
            final(self).calls() == old(self).calls(),
            final(self).osr_candidates() == old(self).osr_candidates(),
            final(self).osr_tasks() == old(self).osr_tasks(),
            final(self).osr_on() == old(self).osr_on(),
            old(self).wf() ==> final(self).wf(),
    {
        self.code_cache.clear();
        proof {
            assert(self.entries() =~= Seq::<(CacheKeyView, CompiledView)>::empty());
        }
    }

    /// Returns the number of cached compiled functions.
    pub fn cache_size(&self) -> (n: usize)
        ensures
            n == self.entries().len(),
    {
        self.code_cache.len()
    }

    /// Returns the cached code of a function at the current tier, if any.
    pub fn get_compiled(&self, module: &Module, func_idx: u32) -> (r: Option<&CompiledFunction>)
        ensures
            match lookup(self.entries(), cache_key(self.tier(), *module, func_idx)) {
                Some(c) => r matches Some(f) && compiled_view(*f) == c,
                None => r is None,
            },
    {
        let key = self.compute_cache_key(module, func_idx);
        match self.find_cached(&key) {
            Some(i) => Some(&self.code_cache[i].1),
            None => None,
        }
    }
}

/// The queue of functions waiting for on-stack replacement: first come,
/// first served, and no function twice.
pub struct OsrQueue {
    queue: std::collections::VecDeque<u64>,
}

impl OsrQueue {
    /// The queued functions, first to be served first.
    pub closed spec fn items(&self) -> Seq<u64> {
        self.queue@
    }

    /// The queue holds no function twice.
    pub closed spec fn wf(&self) -> bool {
        self.queue@.no_duplicates()
    }

    /// Creates an empty queue.
    pub fn new() -> (q: Self)
        ensures
            q.items() == Seq::<u64>::empty(),
            q.wf(),
    {
        Self { queue: std::collections::VecDeque::new() }
    }

    /// Returns whether a function is queued.
    pub fn contains(&self, func_idx: u64) -> (b: bool)
        ensures
            b == self.items().contains(func_idx),
    {
        let mut i: usize = 0;
        while i < self.queue.len()
            invariant
                0 <= i <= self.queue@.len(),
                forall|j: int| 0 <= j < i ==> self.queue@[j] != func_idx,
            decreases self.queue@.len() - i,
        {
            if self.queue[i] == func_idx {
                return true;
            }
            i = i + 1;
        }
        false
    }

    /// Queues a function, unless it is queued already.
    pub fn push(&mut self, func_idx: u64)
        requires
            old(self).wf(),
        ensures
            final(self).items() == if old(self).items().contains(func_idx) {
                old(self).items()
            } else {
                old(self).items().push(func_idx)
            },
            final(self).wf(),
            final(self).items().no_duplicates(),
    {
        if !self.contains(func_idx) {
            self.queue.push_back(func_idx);
        }
    }

    /// Removes and returns the first queued function, if any.
    pub fn pop(&mut self) -> (r: Option<u64>)
        requires
            old(self).wf(),
        ensures
            old(self).items().len() == 0 ==> r is None && final(self).items() == old(self).items(),
            old(self).items().len() > 0 ==> r == Some(old(self).items()[0]) && final(self).items()
                == old(self).items().drop_first(),
            final(self).wf(),
    {
        let r = self.queue.pop_front();
        proof {
            assert(old(self).items().len() > 0 ==> self.queue@ =~= old(self).items().drop_first());
        }
        r
    }

    /// Returns the number of queued functions.
    pub fn len(&self) -> (n: usize)
        ensures
            n == self.items().len(),
    {
        self.queue.len()
    }

    /// Returns whether no function is queued.
    pub fn is_empty(&self) -> (b: bool)
        ensures
            b == (self.items().len() == 0),
    {
        self.queue.len() == 0
    }
}

impl Default for OsrQueue {
    fn default() -> (q: Self)
        ensures
            q.items() == Seq::<u64>::empty(),
            q.wf(),
    {
        Self::new()
    }
}

#[derive(Clone, Copy, Debug, PartialEq, Eq, Structural)]
/// A queued request to compile an OSR target.
pub struct OsrCompilationTask {
    /// Function index to compile.
    pub func_idx: u64,
    /// Module identifier used to resolve the function.
    pub module_id: u64,
    /// Scheduling priority for the task: lower numbers are served first.
    pub priority: u32,
}

/// The position at which a task of priority `p` is inserted: before the
/// first task of a greater priority, else at the end.
pub open spec fn task_insert_pos(tasks: Seq<OsrCompilationTask>, p: u32) -> int
    decreases tasks.len(),
{
    if tasks.len() == 0 {
        0
    } else if tasks.last().priority > p {
        task_insert_pos(tasks.drop_last(), p)
    } else {
        tasks.len() as int
    }
}

/// Whether tasks are in order of priority.
pub open spec fn tasks_sorted(tasks: Seq<OsrCompilationTask>) -> bool {
    forall|i: int, j: int| 0 <= i < j < tasks.len() ==> tasks[i].priority <= tasks[j].priority
}

/// In a sorted queue, a new task goes after every task of its priority or
/// less and before every task of a greater one.
pub proof fn lemma_task_insert_pos(tasks: Seq<OsrCompilationTask>, p: u32)
    requires
        tasks_sorted(tasks),
    ensures
        0 <= task_insert_pos(tasks, p) <= tasks.len(),
        forall|i: int| 0 <= i < task_insert_pos(tasks, p) ==> tasks[i].priority <= p,
        forall|i: int| task_insert_pos(tasks, p) <= i < tasks.len() ==> tasks[i].priority > p,
    decreases tasks.len(),
{
    if tasks.len() > 0 {
        let prefix = tasks.drop_last();
        assert(tasks_sorted(prefix));
        lemma_task_insert_pos(prefix, p);
        let pos = task_insert_pos(tasks, p);
        if tasks.last().priority <= p {
            assert forall|i: int| 0 <= i < tasks.len() implies tasks[i].priority <= p by {
                if i < tasks.len() - 1 {
                    assert(tasks[i].priority <= tasks[tasks.len() - 1].priority);
                }
            }
        } else {
            assert forall|i: int| 0 <= i < pos implies tasks[i].priority <= p by {
                assert(prefix[i] == tasks[i]);
            }
            assert forall|i: int| pos <= i < tasks.len() implies tasks[i].priority > p by {
                if i < tasks.len() - 1 {
                    assert(prefix[i] == tasks[i]);
                }
            }
        }
    }
}

/// Inserting a task at its position keeps a queue in order of priority.
pub proof fn lemma_task_insert_sorted(tasks: Seq<OsrCompilationTask>, t: OsrCompilationTask)
    requires
        tasks_sorted(tasks),
    ensures
        tasks_sorted(tasks.insert(task_insert_pos(tasks, t.priority), t)),
{
    lemma_task_insert_pos(tasks, t.priority);
    let pos = task_insert_pos(tasks, t.priority);
    let r = tasks.insert(pos, t);
    assert forall|i: int, j: int| 0 <= i < j < r.len() implies r[i].priority <= r[j].priority by {
        if i < pos && j < pos {
        } else if i < pos && j == pos {
        } else if i < pos {
            assert(r[j] == tasks[j - 1]);
        } else if i == pos {
            assert(r[j] == tasks[j - 1]);
        } else {
            assert(r[i] == tasks[i - 1]);
            assert(r[j] == tasks[j - 1]);
        }
    }
}

/// The queue of optimised compilations: served in order of priority, and
/// among tasks of equal priority in order of arrival.
pub struct OsrCompilationQueue {
    tasks: Vec<OsrCompilationTask>,
}

impl OsrCompilationQueue {
    /// The queued tasks, first to be served first.
    pub closed spec fn tasks(&self) -> Seq<OsrCompilationTask> {
        self.tasks@
    }

    /// The tasks are in order of priority.
    pub closed spec fn wf(&self) -> bool {
        tasks_sorted(self.tasks@)
    }

    /// Creates an empty queue.
    pub fn new() -> (q: Self)
        ensures
            q.tasks() == Seq::<OsrCompilationTask>::empty(),
            q.wf(),
    {
        Self { tasks: Vec::new() }
    }

    /// Queues a task after every task of its priority or less.
    pub fn push(&mut self, task: OsrCompilationTask)
        requires
            old(self).wf(),
        ensures
            final(self).tasks() == old(self).tasks().insert(task_insert_pos(old(self).tasks(), task.priority), task),
            final(self).wf(),
            tasks_sorted(final(self).tasks()),
    {
        let mut pos: usize = 0;
        while pos < self.tasks.len()
            invariant
                0 <= pos <= self.tasks@.len(),
                forall|j: int| 0 <= j < pos ==> self.tasks@[j].priority <= task.priority,
            ensures
                0 <= pos <= self.tasks@.len(),
                forall|j: int| 0 <= j < pos ==> self.tasks@[j].priority <= task.priority,
                pos == self.tasks@.len() || self.tasks@[pos as int].priority > task.priority,
            decreases self.tasks@.len() - pos,
        {
            if self.tasks[pos].priority > task.priority {
                break;
            }
            pos = pos + 1;
        }
        proof {
            lemma_task_insert_pos(self.tasks@, task.priority);
            lemma_task_insert_sorted(self.tasks@, task);
            let p = task_insert_pos(self.tasks@, task.priority);
            if (pos as int) < p {
                assert(self.tasks@[pos as int].priority <= task.priority);
            }
            if (pos as int) > p {
                assert(self.tasks@[p].priority <= task.priority);
            }
        }
        self.tasks.insert(pos, task);
    }

    /// Removes and returns the first task, if any.
    pub fn pop(&mut self) -> (r: Option<OsrCompilationTask>)
        requires
            old(self).wf(),
        ensures
            final(self).wf(),
            old(self).tasks().len() == 0 ==> r is None && final(self).tasks() == old(self).tasks(),
            old(self).tasks().len() > 0 ==> r == Some(old(self).tasks()[0]) && final(self).tasks()
                == old(self).tasks().drop_first(),
            forall|i: int|
                0 <= i < final(self).tasks().len() ==> (r matches Some(t) && t.priority
                    <= #[trigger] final(self).tasks()[i].priority),
    {
        if self.tasks.len() == 0 {
            None
        } else {
            let t = self.tasks.remove(0);
            proof {
                assert(self.tasks@ =~= old(self).tasks().drop_first());
            }
            Some(t)
        }
    }

    /// Returns the number of queued tasks.
    pub fn len(&self) -> (n: usize)
        ensures
            n == self.tasks().len(),
    {
        self.tasks.len()
    }

    /// Returns whether no task is queued.
    pub fn is_empty(&self) -> (b: bool)
        ensures
            b == (self.tasks().len() == 0),
    {
        self.tasks.len() == 0
    }
}

impl Default for OsrCompilationQueue {
    fn default() -> (q: Self)
        ensures
            q.tasks() == Seq::<OsrCompilationTask>::empty(),
            q.wf(),
    {
        Self::new()
    }
}

impl JitCompiler {
    /// Records a call of a function. When OSR is enabled, the function has
    /// become hot and no candidate is waiting, it is queued for OSR.
    pub fn record_call(&mut self, func_idx: u64)
        requires
            old(self).wf(),
            old(self).call_count(func_idx) < u64::MAX,
        ensures
            final(self).wf(),
            final(self).calls() == old(self).calls().insert(func_idx, (old(self).call_count(func_idx) + 1) as u64),
            final(self).osr_candidates() == if old(self).osr_on() && old(self).call_count(func_idx) + 1 >= HOT_THRESHOLD
                && old(self).osr_candidates().len() == 0 {
                seq![func_idx]
            } else {
                old(self).osr_candidates()
            },
            final(self).entries() == old(self).entries(),
            final(self).tier() == old(self).tier(),
            final(self).memory() == old(self).memory(),
            final(self).osr_tasks() == old(self).osr_tasks(),
            final(self).osr_on() == old(self).osr_on(),
    {
        broadcast use vstd::std_specs::hash::group_hash_axioms;

        let count: u64 = match self.call_counts.get(&func_idx) {
            Some(c) => *c + 1,
            None => 1,
        };
        self.call_counts.insert(func_idx, count);
        if self.osr_enabled && count >= HOT_THRESHOLD && !self.has_osr_candidates() {
            self.queue_for_osr(func_idx);
            proof {
                assert(self.osr_candidates() =~= seq![func_idx]);
            }
        }
    }

    /// Returns the number of recorded calls of a function.
    pub fn get_call_count(&self, func_idx: u64) -> (n: u64)
        ensures
            n == self.call_count(func_idx),
    {
        broadcast use vstd::std_specs::hash::group_hash_axioms;

        match self.call_counts.get(&func_idx) {
            Some(c) => *c,
            None => 0,
        }
    }

    /// Returns whether a function has been called at least `HOT_THRESHOLD` times.
    pub fn is_hot(&self, func_idx: u64) -> (b: bool)
        ensures
            b == (self.call_count(func_idx) >= HOT_THRESHOLD),
    {
        self.get_call_count(func_idx) >= HOT_THRESHOLD
    }

    /// Returns whether a function should be considered for OSR: OSR is
    /// enabled and the function is hot.
    pub fn should_osr(&self, func_idx: u64) -> (b: bool)
        ensures
            b == (self.osr_on() && self.call_count(func_idx) >= HOT_THRESHOLD),
    {
        self.osr_enabled && self.is_hot(func_idx)
    }

    /// Queues a function for on-stack replacement, unless it is queued already.
    pub fn queue_for_osr(&mut self, func_idx: u64)
        requires
            old(self).wf(),
        ensures
            final(self).wf(),
            final(self).osr_candidates() == if old(self).osr_candidates().contains(func_idx) {
                old(self).osr_candidates()
            } else {
                old(self).osr_candidates().push(func_idx)
            },
            final(self).entries() == old(self).entries(),
            final(self).tier() == old(self).tier(),
            final(self).memory() == old(self).memory(),
            final(self).calls() == old(self).calls(),
            final(self).osr_tasks() == old(self).osr_tasks(),
            final(self).osr_on() == old(self).osr_on(),
    {
        self.osr_queue.push(func_idx);
    }

    /// Removes and returns the first OSR candidate, if any.
    pub fn get_next_osr_candidate(&mut self) -> (r: Option<u64>)
        requires
            old(self).wf(),
        ensures
            final(self).wf(),
            old(self).osr_candidates().len() == 0 ==> r is None && final(self).osr_candidates()
                == old(self).osr_candidates(),
            old(self).osr_candidates().len() > 0 ==> r == Some(old(self).osr_candidates()[0])
                && final(self).osr_candidates() == old(self).osr_candidates().drop_first(),
            final(self).entries() == old(self).entries(),
            final(self).tier() == old(self).tier(),
            final(self).memory() == old(self).memory(),
            final(self).calls() == old(self).calls(),
            final(self).osr_tasks() == old(self).osr_tasks(),
            final(self).osr_on() == old(self).osr_on(),
    {
        self.osr_queue.pop()
    }

    /// Returns whether a function is waiting for OSR.
    pub fn has_osr_candidates(&self) -> (b: bool)
        ensures
            b == (self.osr_candidates().len() > 0),
    {
        !self.osr_queue.is_empty()
    }

    /// Enables on-stack replacement.
    pub fn enable_osr(&mut self)
        ensures
            final(self).osr_on(),
            final(self).wf() == old(self).wf(),
            final(self).entries() == old(self).entries(),
            final(self).tier() == old(self).tier(),
            final(self).memory() == old(self).memory(),
            final(self).calls() == old(self).calls(),
            final(self).osr_candidates() == old(self).osr_candidates(),
            final(self).osr_tasks() == old(self).osr_tasks(),
    {
        self.osr_enabled = true;
    }

    /// Disables on-stack replacement.
    pub fn disable_osr(&mut self)
        ensures
            !final(self).osr_on(),
            final(self).wf() == old(self).wf(),
            final(self).entries() == old(self).entries(),
            final(self).tier() == old(self).tier(),
            final(self).memory() == old(self).memory(),
            final(self).calls() == old(self).calls(),
            final(self).osr_candidates() == old(self).osr_candidates(),
            final(self).osr_tasks() == old(self).osr_tasks(),
    {
        self.osr_enabled = false;
    }

    /// Returns whether on-stack replacement is enabled.
    pub fn is_osr_enabled(&self) -> (b: bool)
        ensures
            b == self.osr_on(),
    {
        self.osr_enabled
    }

    /// Queues an optimised compilation of a function.
    pub fn queue_osr_compilation(&mut self, func_idx: u64, module_id: u64, priority: u32)
        requires
            old(self).wf(),
        ensures
            final(self).wf(),
            final(self).osr_tasks() == old(self).osr_tasks().insert(
                task_insert_pos(old(self).osr_tasks(), priority),
                OsrCompilationTask { func_idx, module_id, priority },
            ),
            final(self).entries() == old(self).entries(),
            final(self).tier() == old(self).tier(),
            final(self).memory() == old(self).memory(),
            final(self).calls() == old(self).calls(),
            final(self).osr_candidates() == old(self).osr_candidates(),
            final(self).osr_on() == old(self).osr_on(),
    {
        let task = OsrCompilationTask { func_idx, module_id, priority };
        self.osr_compilation_queue.push(task);
    }

    /// Removes and returns the first queued optimised compilation, if any.
    pub fn get_next_osr_task(&mut self) -> (r: Option<OsrCompilationTask>)
        requires
            old(self).wf(),
        ensures
            final(self).wf(),
            old(self).osr_tasks().len() == 0 ==> r is None && final(self).osr_tasks() == old(self).osr_tasks(),
            old(self).osr_tasks().len() > 0 ==> r == Some(old(self).osr_tasks()[0]) && final(self).osr_tasks()
                == old(self).osr_tasks().drop_first(),
            final(self).entries() == old(self).entries(),
            final(self).tier() == old(self).tier(),
            final(self).memory() == old(self).memory(),
            final(self).calls() == old(self).calls(),
            final(self).osr_candidates() == old(self).osr_candidates(),
            final(self).osr_on() == old(self).osr_on(),
    {
        self.osr_compilation_queue.pop()
    }

    /// Returns whether an optimised compilation is queued.
    pub fn has_pending_osr_tasks(&self) -> (b: bool)
        ensures
            b == (self.osr_tasks().len() > 0),
    {
        !self.osr_compilation_queue.is_empty()
    }

    /// Compiles a function at the optimised tier, leaving the compiler's
    /// tier as it was.
    pub fn compile_optimized(&mut self, module: &Module, func_idx: u32) -> (r: Result<CompiledFunction, WasmError>)
        requires
            lookup(old(self).entries(), cache_key(CompilationTier::Optimized, *module, func_idx)) is None
                ==> translatable(*module, func_idx, old(self).memory()),
        ensures
            compile_result_is(r, compile_spec(old(self).entries(), CompilationTier::Optimized, old(self).memory(), *module, func_idx).0),
            final(self).entries() == compile_spec(old(self).entries(), CompilationTier::Optimized, old(self).memory(), *module, func_idx).1,
            final(self).tier() == old(self).tier(),
            final(self).memory() == old(self).memory(),
            final(self).calls() == old(self).calls(),
            final(self).osr_candidates() == old(self).osr_candidates(),
            final(self).osr_tasks() == old(self).osr_tasks(),
            final(self).osr_on() == old(self).osr_on(),
            final(self).wf() == old(self).wf(),
    {
        let prev_tier = self.compilation_tier;
        self.compilation_tier = CompilationTier::Optimized;
        let result = self.compile(module, func_idx);
        self.compilation_tier = prev_tier;
        result
    }

    /// Returns the code of an OSR entry point into compiled code: a copy of the code.
    pub fn create_osr_entry_point(&self, _func_idx: u64, code: &[u8]) -> (entry: Vec<u8>)
        ensures
            entry@ == code@,
    {
        copy_bytes(code)
    }
}

#[derive(Clone, Copy, Debug, PartialEq, Eq, Structural)]
/// A value carried through an on-stack replacement transition. Floats are
/// held as their bit patterns.
pub enum OsrValue {
    /// A 32-bit integer value.
    I32(i32),
    /// A 64-bit integer value.
    I64(i64),
    /// A 32-bit floating-point value, by its bits.
    F32(u32),
    /// A 64-bit floating-point value, by its bits.
    F64(u64),
    /// A nullable reference encoded as an optional raw handle.
    Ref(Option<u64>),
}

/// The OSR representation of a WebAssembly value.
pub open spec fn osr_of_wasm(v: WasmValue) -> OsrValue {
    match v {
        WasmValue::I32(x) => OsrValue::I32(x),
        WasmValue::I64(x) => OsrValue::I64(x),
        WasmValue::F32(x) => OsrValue::F32(x),
        WasmValue::F64(x) => OsrValue::F64(x),
        WasmValue::FuncRef(idx) => OsrValue::Ref(Some(idx as u64)),
        WasmValue::ExternRef(idx) => OsrValue::Ref(Some(idx as u64)),
        WasmValue::NullRef(_) => OsrValue::Ref(None),
    }
}

/// The WebAssembly value of an OSR value: a reference becomes a function
/// reference, a null one to function 0, and a handle is truncated to 32 bits.
pub open spec fn wasm_of_osr(v: OsrValue) -> WasmValue {
    match v {
        OsrValue::I32(x) => WasmValue::I32(x),
        OsrValue::I64(x) => WasmValue::I64(x),
        OsrValue::F32(x) => WasmValue::F32(x),
        OsrValue::F64(x) => WasmValue::F64(x),
        OsrValue::Ref(idx) => WasmValue::FuncRef(
            match idx {
                Some(i) => i as u32,
                None => 0,
            },
        ),
    }
}

/// Numbers and function references come back unchanged from their OSR form.
pub proof fn lemma_osr_value_roundtrip(v: WasmValue)
    requires
        !(v is NullRef),
        !(v is ExternRef),
    ensures
        wasm_of_osr(osr_of_wasm(v)) == v,
{
}

impl OsrValue {
    /// Converts a WebAssembly value into its OSR representation.
    pub fn from_wasm_value(wasm: WasmValue) -> (v: Self)
        ensures
            v == osr_of_wasm(wasm),
    {
        match wasm {
            WasmValue::I32(v) => OsrValue::I32(v),
            WasmValue::I64(v) => OsrValue::I64(v),
            WasmValue::F32(v) => OsrValue::F32(v),
            WasmValue::F64(v) => OsrValue::F64(v),
            WasmValue::FuncRef(idx) => OsrValue::Ref(Some(idx as u64)),
            WasmValue::ExternRef(idx) => OsrValue::Ref(Some(idx as u64)),
            WasmValue::NullRef(_) => OsrValue::Ref(None),
        }
    }

    /// Converts this OSR value back into a WebAssembly value.
    pub fn to_wasm_value(&self) -> (v: WasmValue)
        ensures
            v == wasm_of_osr(*self),
    {
        match self {
            OsrValue::I32(v) => WasmValue::I32(*v),
            OsrValue::I64(v) => WasmValue::I64(*v),
            OsrValue::F32(v) => WasmValue::F32(*v),
            OsrValue::F64(v) => WasmValue::F64(*v),
            OsrValue::Ref(idx) => WasmValue::FuncRef(
                match idx {
                    Some(i) => #[verifier::truncate] (*i as u32),
                    None => 0,
                },
            ),
        }
    }
}

#[derive(Clone, Copy, Debug, PartialEq, Eq, Structural)]
/// Control-frame metadata captured for on-stack replacement.
pub struct OsrControlFrame {
    /// Encoded block type for the frame.
    pub block_type: u32,
    /// Start program-counter offset for the frame.
    pub start_pc: u32,
    /// End program-counter offset for the frame.
    pub end_pc: u32,
}

/// Copies a list of OSR values.
fn copy_values(v: &[OsrValue]) -> (r: Vec<OsrValue>)
    ensures
        r@ == v@,
{
    let mut r: Vec<OsrValue> = Vec::new();
    let mut i: usize = 0;
    while i < v.len()
        invariant
            0 <= i <= v@.len(),
            r@ == v@.subrange(0, i as int),
        decreases v@.len() - i,
    {
        r.push(v[i]);
        i = i + 1;
        proof {
            assert(r@ =~= v@.subrange(0, i as int));
        }
    }
    proof {
        assert(r@ =~= v@);
    }
    r
}

/// Copies a list of control frames.
fn copy_frames(v: &[OsrControlFrame]) -> (r: Vec<OsrControlFrame>)
    ensures
        r@ == v@,
{
    let mut r: Vec<OsrControlFrame> = Vec::new();
    let mut i: usize = 0;
    while i < v.len()
        invariant
            0 <= i <= v@.len(),
            r@ == v@.subrange(0, i as int),
        decreases v@.len() - i,
    {
        r.push(v[i]);
        i = i + 1;
        proof {
            assert(r@ =~= v@.subrange(0, i as int));
        }
    }
    proof {
        assert(r@ =~= v@);
    }
    r
}

/// The target storage after copying `values` over its first slots: slots
/// past the end of either keep their contents.
pub open spec fn transferred(target: Seq<OsrValue>, values: Seq<OsrValue>) -> Seq<OsrValue> {
    Seq::new(target.len(), |j: int| if j < values.len() { values[j] } else { target[j] })
}

/// Copies values over the first slots of a target.
fn transfer_values(values: &[OsrValue], target: &mut [OsrValue])
    ensures
        final(target)@ == transferred(old(target)@, values@),
{
    let mut i: usize = 0;
    while i < values.len()
        invariant
            0 <= i <= values@.len(),
            target@.len() == old(target)@.len(),
            forall|j: int| 0 <= j < target@.len() ==> #[trigger] target@[j] == if j < i {
                values@[j]
            } else {
                old(target)@[j]
            },
        decreases values@.len() - i,
    {
        if i < target.len() {
            target[i] = values[i];
        }
        i = i + 1;
    }
    proof {
        assert(target@ =~= transferred(old(target)@, values@));
    }
}

/// Replaces the contents of a target with values.
fn replace_values(values: &[OsrValue], target: &mut Vec<OsrValue>)
    ensures
        final(target)@ == values@,
{
    target.clear();
    let mut i: usize = 0;
    while i < values.len()
        invariant
            0 <= i <= values@.len(),
            target@ == values@.subrange(0, i as int),
        decreases values@.len() - i,
    {
        target.push(values[i]);
        i = i + 1;
        proof {
            assert(target@ =~= values@.subrange(0, i as int));
        }
    }
    proof {
        assert(target@ =~= values@);
    }
}

#[derive(Clone, Debug)]
/// Captured frame metadata used for on-stack replacement.
pub struct OsrFrameMetadata {
    /// Function index associated with the captured frame.
    pub func_idx: u64,
    /// Program-counter offset within the function.
    pub pc: u32,
    /// The local values.
    pub locals: Vec<OsrValue>,
    /// Operand-stack values captured at the transition point.
    pub operand_stack: Vec<OsrValue>,
    /// Control-flow frames captured at the transition point.
    pub control_frames: Vec<OsrControlFrame>,
}

impl OsrFrameMetadata {
    /// Creates metadata for a frame with no values captured.
    pub fn new(func_idx: u64, pc: u32) -> (m: Self)
        ensures
            m.func_idx == func_idx,
            m.pc == pc,
            m.locals@ == Seq::<OsrValue>::empty(),
            m.operand_stack@ == Seq::<OsrValue>::empty(),
            m.control_frames@ == Seq::<OsrControlFrame>::empty(),
    {
        Self { func_idx, pc, locals: Vec::new(), operand_stack: Vec::new(), control_frames: Vec::new() }
    }

    /// Returns this metadata with the given local values.
    pub fn with_locals(self, locals: Vec<OsrValue>) -> (m: Self)
        ensures
            m.locals@ == locals@,
            m.func_idx == self.func_idx,
            m.pc == self.pc,
            m.operand_stack@ == self.operand_stack@,
            m.control_frames@ == self.control_frames@,
    {
        let mut m = self;
        m.locals = locals;
        m
    }

    /// Returns this metadata with the given operand stack.
    pub fn with_operand_stack(self, stack: Vec<OsrValue>) -> (m: Self)
        ensures
            m.operand_stack@ == stack@,
            m.func_idx == self.func_idx,
            m.pc == self.pc,
            m.locals@ == self.locals@,
            m.control_frames@ == self.control_frames@,
    {
        let mut m = self;
        m.operand_stack = stack;
        m
    }

    /// Returns this metadata with the given control frames.
    pub fn with_control_frames(self, frames: Vec<OsrControlFrame>) -> (m: Self)
        ensures
            m.control_frames@ == frames@,
            m.func_idx == self.func_idx,
            m.pc == self.pc,
            m.locals@ == self.locals@,
            m.operand_stack@ == self.operand_stack@,
    {
        let mut m = self;
        m.control_frames = frames;
        m
    }

    /// Copies the captured local values over the first slots of the target.
    pub fn transfer_locals(&self, target: &mut [OsrValue])
        ensures
            final(target)@ == transferred(old(target)@, self.locals@),
    {
        transfer_values(self.locals.as_slice(), target);
    }

    /// Replaces the target's contents with the captured operand stack.
    pub fn transfer_stack(&self, target: &mut Vec<OsrValue>)
        ensures
            final(target)@ == self.operand_stack@,
    {
        replace_values(self.operand_stack.as_slice(), target);
    }
}

#[derive(Clone, Copy, Debug, PartialEq, Eq, Structural)]
/// Lifecycle state for an OSR candidate.
pub enum OsrState {
    /// The function is queued but not yet being compiled.
    Pending,
    /// An optimised version is currently being compiled.
    Compiling,
    /// An optimised version is ready for transition.
    Ready,
    /// Execution is actively transitioning into optimised code.
    Transitioning,
}

/// Runtime state tracked for a function considered for OSR.
pub struct OsrContext {
    /// Function index associated with the context.
    pub func_idx: u64,
    /// Number of observed calls for the function.
    pub call_count: u64,
    /// Current OSR state for the function.
    pub state: OsrState,
    /// Captured frame metadata, when available.
    pub frame_metadata: Option<OsrFrameMetadata>,
}

impl OsrContext {
    /// Creates a pending context with no captured frame.
    pub fn new(func_idx: u64, call_count: u64) -> (c: Self)
        ensures
            c.func_idx == func_idx,
            c.call_count == call_count,
            c.state == OsrState::Pending,
            c.frame_metadata is None,
    {
        Self { func_idx, call_count, state: OsrState::Pending, frame_metadata: None }
    }

    /// Returns this context with the given captured frame.
    pub fn with_metadata(self, metadata: OsrFrameMetadata) -> (c: Self)
        ensures
            c.frame_metadata == Some(metadata),
            c.func_idx == self.func_idx,
            c.call_count == self.call_count,
            c.state == self.state,
    {
        let mut c = self;
        c.frame_metadata = Some(metadata);
        c
    }

    /// Returns the captured local values (none without a captured frame).
    pub fn extract_locals(&self) -> (v: Vec<OsrValue>)
        ensures
            v@ == match self.frame_metadata {
                Some(m) => m.locals@,
                None => Seq::<OsrValue>::empty(),
            },
    {
        match &self.frame_metadata {
            Some(m) => copy_values(m.locals.as_slice()),
            None => Vec::new(),
        }
    }

    /// Returns the captured operand stack (empty without a captured frame).
    pub fn extract_operand_stack(&self) -> (v: Vec<OsrValue>)
        ensures
            v@ == match self.frame_metadata {
                Some(m) => m.operand_stack@,
                None => Seq::<OsrValue>::empty(),
            },
    {
        match &self.frame_metadata {
            Some(m) => copy_values(m.operand_stack.as_slice()),
            None => Vec::new(),
        }
    }

    /// Returns the captured control frames (none without a captured frame).
    pub fn extract_control_frames(&self) -> (v: Vec<OsrControlFrame>)
        ensures
            v@ == match self.frame_metadata {
                Some(m) => m.control_frames@,
                None => Seq::<OsrControlFrame>::empty(),
            },
    {
        match &self.frame_metadata {
            Some(m) => copy_frames(m.control_frames.as_slice()),
            None => Vec::new(),
        }
    }

    /// Sets the state.
    pub fn set_state(&mut self, state: OsrState)
        ensures
            final(self).state == state,
            final(self).func_idx == old(self).func_idx,
            final(self).call_count == old(self).call_count,
            final(self).frame_metadata == old(self).frame_metadata,
    {
        self.state = state;
    }

    /// Marks the transition as ready.
    pub fn mark_ready(&mut self)
        ensures
            final(self).state == OsrState::Ready,
            final(self).func_idx == old(self).func_idx,
            final(self).call_count == old(self).call_count,
            final(self).frame_metadata == old(self).frame_metadata,
    {
        self.state = OsrState::Ready;
    }

    /// Marks the transition as in progress.
    pub fn mark_transitioning(&mut self)
        ensures
            final(self).state == OsrState::Transitioning,
            final(self).func_idx == old(self).func_idx,
            final(self).call_count == old(self).call_count,
            final(self).frame_metadata == old(self).frame_metadata,
    {
        self.state = OsrState::Transitioning;
    }
}

#[derive(Clone, Copy, Debug, PartialEq, Eq, Structural)]
/// An entry point into optimised code for a specific program-counter offset.
pub struct OsrEntryPoint {
    /// WebAssembly program-counter offset for the transition site.
    pub pc_offset: u32,
    /// Native target address for the transition.
    pub target_address: u64,
}

/// Transition stub used to enter optimised code during OSR.
pub struct OsrTrampoline {
    /// Source compilation tier for the transition.
    pub from_tier: CompilationTier,
    /// Destination compilation tier for the transition.
    pub to_tier: CompilationTier,
    /// The encoded bytes.
    pub code: Vec<u8>,
    /// OSR entry points available in the generated code.
    pub entry_points: Vec<OsrEntryPoint>,
}

/// The code after patching one entry point: at its offset, if inside the
/// code, a `jmp` opcode followed by the bytes of the target address that
/// fit before the end.
pub open spec fn patch_entry(code: Seq<u8>, e: OsrEntryPoint) -> Seq<u8> {
    let p = e.pc_offset as int;
    if p < code.len() {
        Seq::new(
            code.len(),
            |j: int|
                if j == p {
                    0xE9u8
                } else if p + 1 <= j < p + 9 {
                    le64(e.target_address)[j - p - 1]
                } else {
                    code[j]
                },
        )
    } else {
        code
    }
}

/// The code after patching entry points in order.
pub open spec fn patch_entries(code: Seq<u8>, entries: Seq<OsrEntryPoint>) -> Seq<u8>
    decreases entries.len(),
{
    if entries.len() == 0 {
        code
    } else {
        patch_entry(patch_entries(code, entries.drop_last()), entries.last())
    }
}

impl OsrTrampoline {
    /// Creates a trampoline with no code and no entry points.
    pub fn new(from_tier: CompilationTier, to_tier: CompilationTier) -> (t: Self)
        ensures
            t.from_tier == from_tier,
            t.to_tier == to_tier,
            t.code@ == Seq::<u8>::empty(),
            t.entry_points@ == Seq::<OsrEntryPoint>::empty(),
    {
        Self { from_tier, to_tier, code: Vec::new(), entry_points: Vec::new() }
    }

    /// Adds an entry point.
    pub fn add_entry_point(&mut self, pc_offset: u32, target_address: u64)
        ensures
            final(self).entry_points@ == old(self).entry_points@.push(OsrEntryPoint { pc_offset, target_address }),
            final(self).from_tier == old(self).from_tier,
            final(self).to_tier == old(self).to_tier,
            final(self).code@ == old(self).code@,
    {
        self.entry_points.push(OsrEntryPoint { pc_offset, target_address });
    }

    /// Writes a jump to each entry point's target address at its offset, in
    /// the order the entry points were added; always succeeds.
    pub fn patch_code(&self, code: &mut [u8], _target_func_idx: u64) -> (r: Result<(), WasmError>)
        ensures
            r is Ok,
            final(code)@ == patch_entries(old(code)@, self.entry_points@),
    {
        let mut k: usize = 0;
        while k < self.entry_points.len()
            invariant
                0 <= k <= self.entry_points@.len(),
                code@ == patch_entries(old(code)@, self.entry_points@.subrange(0, k as int)),
                code@.len() == old(code)@.len(),
            decreases self.entry_points@.len() - k,
        {
            let entry = self.entry_points[k];
            let ghost before = code@;
            proof {
                assert(self.entry_points@.subrange(0, k + 1).drop_last() =~= self.entry_points@.subrange(0, k as int));
            }
            if (entry.pc_offset as usize) < code.len() {
                let patch_offset = entry.pc_offset as usize;
                code[patch_offset] = 0xE9;
                let addr = entry.target_address;
                let mut i: usize = 0;
                while i < 8
                    invariant
                        0 <= i <= 8,
                        patch_offset < code@.len(),
                        code@.len() == before.len(),
                        addr == entry.target_address,
                        forall|j: int| 0 <= j < code@.len() ==> #[trigger] code@[j] == if j == patch_offset {
                            0xE9u8
                        } else if patch_offset + 1 <= j < patch_offset + 1 + i {
                            le64(addr)[j - patch_offset - 1]
                        } else {
                            before[j]
                        },
                    decreases 8 - i,
                {
                    if code.len() - patch_offset > 1 + i {
                        let byte = #[verifier::truncate] ((addr >> ((8 * i) as u64)) as u8);
                        proof {
                            assert(byte == le64(addr)[i as int]) by {
                                if i == 0 {
                                    assert(addr >> 0u64 == addr) by (bit_vector);
                                }
                            }
                        }
                        code[patch_offset + 1 + i] = byte;
                    }
                    i = i + 1;
                }
                proof {
                    assert(code@ =~= patch_entry(before, entry));
                }
            }
            k = k + 1;
        }
        proof {
            assert(self.entry_points@.subrange(0, self.entry_points@.len() as int) =~= self.entry_points@);
        }
        Ok(())
    }
}

/// Captured execution state for a jump into optimised code.
pub struct OsrJumpBuffer {
    /// The local values.
    pub locals: Vec<OsrValue>,
    /// Operand-stack values captured for the jump.
    pub operand_stack: Vec<OsrValue>,
    /// Program-counter offset to resume from.
    pub pc: u32,
    /// Function index associated with the buffer.
    pub func_idx: u64,
}

impl OsrJumpBuffer {
    /// Creates an empty buffer.
    pub fn new() -> (b: Self)
        ensures
            b.locals@ == Seq::<OsrValue>::empty(),
            b.operand_stack@ == Seq::<OsrValue>::empty(),
            b.pc == 0,
            b.func_idx == 0,
    {
        Self { locals: Vec::new(), operand_stack: Vec::new(), pc: 0, func_idx: 0 }
    }

    /// Captures an execution state.
    pub fn capture(&mut self, func_idx: u64, pc: u32, locals: Vec<OsrValue>, stack: Vec<OsrValue>)
        ensures
            final(self).func_idx == func_idx,
            final(self).pc == pc,
            final(self).locals@ == locals@,
            final(self).operand_stack@ == stack@,
    {
        self.func_idx = func_idx;
        self.pc = pc;
        self.locals = locals;
        self.operand_stack = stack;
    }

    /// Returns the captured program counter, locals and operand stack.
    pub fn restore(&self) -> (r: (u32, Vec<OsrValue>, Vec<OsrValue>))
        ensures
            r.0 == self.pc,
            r.1@ == self.locals@,
            r.2@ == self.operand_stack@,
    {
        (self.pc, copy_values(self.locals.as_slice()), copy_values(self.operand_stack.as_slice()))
    }

    /// Copies the captured locals over the first slots of the target locals
    /// and replaces the target stack with the captured operand stack.
    pub fn transfer_to(&self, target_locals: &mut [OsrValue], target_stack: &mut Vec<OsrValue>)
        ensures
            final(target_locals)@ == transferred(old(target_locals)@, self.locals@),
            final(target_stack)@ == self.operand_stack@,
    {
        transfer_values(self.locals.as_slice(), target_locals);
        replace_values(self.operand_stack.as_slice(), target_stack);
    }
}

impl Default for OsrJumpBuffer {
    fn default() -> (b: Self)
        ensures
            b.locals@ == Seq::<OsrValue>::empty(),
            b.operand_stack@ == Seq::<OsrValue>::empty(),
            b.pc == 0,
            b.func_idx == 0,
    {
        Self::new()
    }
}

/// Whether an opcode is followed by one LEB128 immediate.
pub open spec fn has_one_immediate(op: u8) -> bool {
    op == WASM_BLOCK || op == WASM_LOOP || op == WASM_IF || op == WASM_BR || op == WASM_BR_IF || op
        == WASM_LOCAL_GET || op == WASM_LOCAL_SET || op == WASM_LOCAL_TEE || op == WASM_I32_CONST
}

/// Whether an opcode is a memory access, followed by two LEB128 immediates.
pub open spec fn is_memory_op(op: u8) -> bool {
    op == WASM_I32_LOAD || op == WASM_I64_LOAD || op == WASM_F32_LOAD || op == WASM_F64_LOAD || op
        == WASM_I32_STORE || op == WASM_I64_STORE || op == WASM_F32_STORE || op == WASM_F64_STORE
}

/// The position after the instruction at `i` and its immediates, as the
/// block scanner skips them.
pub open spec fn skip_instr(bc: Seq<u8>, i: int) -> int {
    let op = bc[i];
    if has_one_immediate(op) {
        uleb32_next(uleb32(bc, i + 1))
    } else if is_memory_op(op) {
        uleb32_next(uleb32(bc, uleb32_next(uleb32(bc, i + 1))))
    } else {
        i + 1
    }
}

/// Skipping an instruction moves forward and stays within the body.
pub proof fn lemma_skip_instr(bc: Seq<u8>, i: int)
    requires
        0 <= i < bc.len(),
    ensures
        i < skip_instr(bc, i) <= bc.len(),
{
    lemma_uleb32_advances(bc, i + 1, 0);
    let p = uleb32_next(uleb32(bc, i + 1));
    lemma_uleb32_advances(bc, p, 0);
}

/// The position of the `else` or `end` that closes the block the scan from
/// `i` is in, `depth` blocks deep; 0 when the body ends first.
pub open spec fn block_end_from(bc: Seq<u8>, i: int, depth: nat) -> int
    decreases bc.len() - i,
{
    if i < 0 || i >= bc.len() {
        0
    } else {
        let op = bc[i];
        if op == WASM_ELSE || op == WASM_END {
            if depth == 0 {
                i
            } else {
                block_end_from(bc, i + 1, (depth - 1) as nat)
            }
        } else {
            proof {
                lemma_skip_instr(bc, i);
            }
            if op == WASM_BLOCK || op == WASM_LOOP || op == WASM_IF {
                block_end_from(bc, skip_instr(bc, i), depth + 1)
            } else {
                block_end_from(bc, skip_instr(bc, i), depth)
            }
        }
    }
}

/// The position of the `else` of the block the scan from `i` is in, `depth`
/// blocks deep; 0 when that block ends without one or the body ends first.
pub open spec fn else_from(bc: Seq<u8>, i: int, depth: nat) -> int
    decreases bc.len() - i,
{
    if i < 0 || i >= bc.len() {
        0
    } else {
        let op = bc[i];
        if op == WASM_ELSE && depth == 1 {
            i
        } else if op == WASM_END && depth == 0 {
            0
        } else if op == WASM_END {
            else_from(bc, i + 1, (depth - 1) as nat)
        } else if op == WASM_ELSE {
            else_from(bc, i + 1, depth)
        } else {
            proof {
                lemma_skip_instr(bc, i);
            }
            if op == WASM_BLOCK || op == WASM_LOOP || op == WASM_IF {
                else_from(bc, skip_instr(bc, i), depth + 1)
            } else {
                else_from(bc, skip_instr(bc, i), depth)
            }
        }
    }
}

/// The number of bytes of the LEB128 number at `i`: up to and including the
/// first byte without the continuation bit, or to the end of the input.
pub open spec fn uleb_len_from(bc: Seq<u8>, i: int) -> int
    decreases bc.len() - i,
{
    if i < 0 || i >= bc.len() {
        0
    } else if bc[i] & 0x80u8 == 0 {
        1
    } else {
        1 + uleb_len_from(bc, i + 1)
    }
}

/// Returns the position after the instruction at `i` and its immediates.
fn skip_instruction(bytecode: &[u8], i: usize) -> (next: usize)
    requires
        i < bytecode@.len(),
    ensures
        next == skip_instr(bytecode@, i as int),
{
    let op = bytecode[i];
    let mut cursor = i + 1;
    if op == WASM_BLOCK || op == WASM_LOOP || op == WASM_IF || op == WASM_BR || op == WASM_BR_IF || op
        == WASM_LOCAL_GET || op == WASM_LOCAL_SET || op == WASM_LOCAL_TEE || op == WASM_I32_CONST {
        let _ = read_uleb(bytecode, &mut cursor);
    } else if op == WASM_I32_LOAD || op == WASM_I64_LOAD || op == WASM_F32_LOAD || op == WASM_F64_LOAD
        || op == WASM_I32_STORE || op == WASM_I64_STORE || op == WASM_F32_STORE || op == WASM_F64_STORE {
        proof {
            lemma_uleb32_advances(bytecode@, i + 1, 0);
        }
        let _ = read_uleb(bytecode, &mut cursor);
        let _ = read_uleb(bytecode, &mut cursor);
    }
    cursor
}

impl JitCompiler {
    /// Returns the position of the `else` of the block whose body starts at
    /// `start`, or 0 when the block has none.
    pub fn find_else_offset(bytecode: &[u8], start: usize) -> (r: usize)
        ensures
            r == else_from(bytecode@, start as int, 0),
    {
        let mut depth: usize = 0;
        let mut i: usize = start;
        while i < bytecode.len()
            invariant
                depth <= i,
                else_from(bytecode@, i as int, depth as nat) == else_from(bytecode@, start as int, 0),
            decreases bytecode@.len() - i,
        {
            let opcode = bytecode[i];
            if opcode == WASM_ELSE && depth == 1 {
                return i;
            } else if opcode == WASM_END && depth == 0 {
                return 0;
            } else if opcode == WASM_END {
                depth = depth - 1;
                i = i + 1;
            } else if opcode == WASM_ELSE {
                i = i + 1;
            } else {
                proof {
                    lemma_skip_instr(bytecode@, i as int);
                }
                if opcode == WASM_BLOCK || opcode == WASM_LOOP || opcode == WASM_IF {
                    depth = depth + 1;
                }
                i = skip_instruction(bytecode, i);
            }
        }
        0
    }

    /// Returns the position of the `else` or `end` that closes the block
    /// whose body starts at `start`, or 0 when the body ends first.
    pub fn find_block_end(bytecode: &[u8], start: usize) -> (r: usize)
        ensures
            r == block_end_from(bytecode@, start as int, 0),
    {
        let mut depth: usize = 0;
        let mut i: usize = start;
        while i < bytecode.len()
            invariant
                depth <= i,
                block_end_from(bytecode@, i as int, depth as nat) == block_end_from(bytecode@, start as int, 0),
            decreases bytecode@.len() - i,
        {
            let opcode = bytecode[i];
            if opcode == WASM_ELSE || opcode == WASM_END {
                if depth == 0 {
                    return i;
                }
                depth = depth - 1;
                i = i + 1;
            } else {
                proof {
                    lemma_skip_instr(bytecode@, i as int);
                }
                if opcode == WASM_BLOCK || opcode == WASM_LOOP || opcode == WASM_IF {
                    depth = depth + 1;
                }
                i = skip_instruction(bytecode, i);
            }
        }
        0
    }

    /// Returns the number of bytes of the LEB128 number at `start`.
    pub fn uleb_size(bytecode: &[u8], start: usize) -> (size: usize)
        ensures
            size == uleb_len_from(bytecode@, start as int),
    {
        let mut size: usize = 0;
        let mut i: usize = start;
        while i < bytecode.len()
            invariant
                start <= i,
                size == i - start,
                uleb_len_from(bytecode@, start as int) == size + uleb_len_from(bytecode@, i as int),
            decreases bytecode@.len() - i,
        {
            size = size + 1;
            if bytecode[i] & 0x80 == 0 {
                return size;
            }
            i = i + 1;
        }
        size
    }
}

} // verus!
