//! Lowering of a function to LLVM IR, planned as the list of builder
//! operations that produce it.
//!
//! The plan is what the LLVM translator does, decided here and carried out
//! by whoever owns the LLVM context: each operation that makes a value or a
//! basic block is referred to later by its position in the plan. The
//! function starts with its entry block and a stack slot for every
//! parameter and local; the body is then lowered instruction by instruction
//! over a stack of values and a stack of open blocks.

use crate::bytes::{read_u32_at, read_u64_at, u32_at, u64_at};
use crate::jit::compiler::{read_uleb, JitError};
use crate::leb128::{uleb32, uleb64, uleb64_scan, uleb64_value, Uleb32, Uleb64};
use crate::runtime::error::WasmError;
use crate::runtime::module::{Func, Local, Module};
use crate::runtime::types::{FunctionType, NumType, ValType};
use crate::text::{decimal_chars, push_decimal};
use vstd::prelude::*;
use vstd::string::StringExecFns;

verus! {

#[derive(Debug, Clone, Copy, PartialEq, Eq, Structural)]
/// The kind of an open block.
pub enum BlockKind {
    Block,
    Loop,
    If,
}

#[derive(Debug, Clone, Copy, PartialEq, Eq, Structural)]
/// An open block: its kind and the basic blocks (by number, in order of
/// creation) where it starts and where it ends.
pub struct BlockFrame {
    pub kind: BlockKind,
    pub start: usize,
    pub end: usize,
}

#[derive(Debug, Clone, Copy, PartialEq, Eq, Structural)]
/// Two-operand instructions.
pub enum BinaryOp {
    Add,
    Sub,
    Mul,
    SDiv,
    UDiv,
    And,
    Or,
    Xor,
    Shl,
    AShr,
    LShr,
    FAdd,
    FSub,
    FMul,
    FDiv,
    FRem,
}

#[derive(Debug, Clone, Copy, PartialEq, Eq, Structural)]
/// Integer comparison predicates.
pub enum IntPredicate {
    Eq,
    Ne,
    Slt,
    Ult,
    Sgt,
    Ugt,
    Sle,
    Ule,
    Sge,
    Uge,
}

#[derive(Debug, Clone, Copy, PartialEq, Eq, Structural)]
/// Ordered floating-point comparison predicates.
pub enum RealPredicate {
    Oeq,
    One,
    Olt,
    Ogt,
    Ole,
    Oge,
}

#[derive(Debug, Clone, Copy, PartialEq, Eq, Structural)]
/// What a basic block is made for.
pub enum BlockRole {
    BlockEnd,
    LoopHeader,
    LoopExit,
    IfThen,
    IfElse,
    IfEnd,
    BrIfFall,
}

#[derive(Debug, Clone, Copy, PartialEq, Eq, Structural)]
/// One builder operation. Values, stack slots and basic blocks are referred
/// to by the position of the operation that made them.
pub enum LlvmOp {
    /// Appends the entry block and moves the builder to it.
    EntryBlock,
    /// A stack slot holding parameter `index`.
    ParamSlot { index: u32 },
    /// A stack slot for a local of the given type.
    LocalSlot { ty: ValType },
    /// Stores zero of the given type in a slot.
    StoreZero { slot: usize, ty: NumType },
    /// Marks the code unreachable.
    Unreachable,
    /// Loads the value of a slot.
    LoadLocal { slot: usize },
    /// Stores a value in a slot.
    StoreLocal { value: usize, slot: usize },
    /// An integer constant of type `ty` with the given 64 bits.
    ConstInt { ty: NumType, value: u64, sign_extend: bool },
    /// A single-precision constant, by its bits.
    ConstF32 { bits: u32 },
    /// A double-precision constant, by its bits.
    ConstF64 { bits: u64 },
    /// A two-operand instruction, for the instruction `opcode`.
    Binary { opcode: u8, op: BinaryOp, lhs: usize, rhs: usize },
    /// Truncates a value to 8 bits (a shift amount).
    TruncToI8 { value: usize },
    /// An integer comparison.
    IntCompare { opcode: u8, pred: IntPredicate, lhs: usize, rhs: usize },
    /// A floating-point comparison.
    FloatCompare { opcode: u8, pred: RealPredicate, lhs: usize, rhs: usize },
    /// Zero-extends a comparison result to 32 bits.
    ZExtToI32 { opcode: u8, value: usize },
    /// Negates a floating-point value.
    FNeg { opcode: u8, value: usize },
    /// Narrows a value to single precision.
    FPTrunc { value: usize },
    /// Widens a value to double precision.
    FPExt { value: usize },
    /// Calls the runtime helper that loads for the instruction `opcode`.
    MemLoad { opcode: u8, addr: usize },
    /// Calls the runtime helper that stores for the instruction `opcode`.
    MemStore { opcode: u8, addr: usize, value: usize },
    /// Appends a basic block to the function.
    AppendBlock { role: BlockRole },
    /// Branches to a block.
    Branch { target: usize },
    /// Truncates a value to one bit (a condition).
    TruncToI1 { value: usize },
    /// Branches on a condition.
    CondBranch { cond: usize, then_target: usize, else_target: usize },
    /// Moves the builder to the end of a block.
    PositionAtEnd { block: usize },
    /// An argument of the next call.
    CallArg { value: usize },
    /// Calls function `callee` with the `argc` arguments given just before.
    Call { callee: u32, argc: usize },
    /// Returns a value.
    Return { value: usize },
    /// Returns nothing.
    ReturnVoid,
}

/// What the lowering of a body needs of its function: the stack slot of each
/// local index, the function's own index, its number of parameters and
/// whether it returns a value.
pub struct PlanContext {
    pub locals: Map<u32, usize>,
    pub own: u32,
    pub params: nat,
    pub returns: bool,
}

/// The state of a lowering in progress.
#[verifier::ext_equal]
pub struct PlanState {
    /// Position in the body.
    pub pc: int,
    /// The values on the operand stack.
    pub stack: Seq<usize>,
    /// The open blocks, innermost last.
    pub frames: Seq<BlockFrame>,
    /// The basic blocks in order of creation, by the operation that made them.
    pub blocks: Seq<usize>,
    /// The number of the block the builder is in.
    pub current: int,
    /// The operations planned so far.
    pub ops: Seq<LlvmOp>,
}

/// The outcome of lowering one instruction.
pub enum PlanStep {
    /// Lowering goes on in this state.
    Next(PlanState),
    /// The function is complete with these operations.
    Finish(Seq<LlvmOp>),
    /// Lowering fails with this message.
    Fail(Seq<char>),
}

/// The outcome of lowering a whole body.
pub enum Plan {
    /// The operations of the function.
    Ops(Seq<LlvmOp>),
    /// Lowering fails with this message.
    Failed(Seq<char>),
    /// The instruction budget ran out (never the case for a whole body).
    Stuck,
}

/// The state after planning an operation.
pub open spec fn emit(s: PlanState, op: LlvmOp) -> PlanState {
    PlanState { ops: s.ops.push(op), ..s }
}

/// The state after planning an operation whose value goes on the stack.
pub open spec fn emit_value(s: PlanState, op: LlvmOp) -> PlanState {
    PlanState { stack: s.stack.push(s.ops.len() as usize), ops: s.ops.push(op), ..s }
}

/// The state at another position.
pub open spec fn at(s: PlanState, pc: int) -> PlanState {
    PlanState { pc, ..s }
}

/// The state with the top `n` values taken off the stack.
pub open spec fn popped(s: PlanState, n: int) -> PlanState {
    PlanState { stack: s.stack.subrange(0, s.stack.len() - n), ..s }
}

/// The value `k` places below the top of the stack.
pub open spec fn from_top(s: PlanState, k: int) -> usize {
    s.stack[s.stack.len() - 1 - k]
}

/// The message of a failed immediate.
pub open spec fn uleb_message(u: Uleb32) -> Seq<char> {
    match u {
        Uleb32::TooLong { .. } => "uleb128 overflow"@,
        _ => "unexpected end of bytecode"@,
    }
}

/// The uppercase hexadecimal digit of a number below 16.
pub open spec fn upper_hex_digit(d: nat) -> char {
    if d < 10 {
        crate::text::digit_char(d)
    } else if d == 10 {
        'A'
    } else if d == 11 {
        'B'
    } else if d == 12 {
        'C'
    } else if d == 13 {
        'D'
    } else if d == 14 {
        'E'
    } else {
        'F'
    }
}

/// The message for an opcode the lowering has no rule for.
pub open spec fn unsupported_message(op: u8) -> Seq<char> {
    "Unsupported WASM opcode: 0x"@ + seq![
        upper_hex_digit((op / 16) as nat),
        upper_hex_digit((op % 16) as nat),
    ]
}

/// The two-operand instruction of an opcode, if it is one.
pub open spec fn binary_op(op: u8) -> Option<BinaryOp> {
    if op == 0x6A || op == 0x7C {
        Some(BinaryOp::Add)
    } else if op == 0x6B || op == 0x7D {
        Some(BinaryOp::Sub)
    } else if op == 0x6C || op == 0x7E {
        Some(BinaryOp::Mul)
    } else if op == 0x6D || op == 0x7F {
        Some(BinaryOp::SDiv)
    } else if op == 0x6E || op == 0x80 {
        Some(BinaryOp::UDiv)
    } else if op == 0x71 || op == 0x83 {
        Some(BinaryOp::And)
    } else if op == 0x72 || op == 0x84 {
        Some(BinaryOp::Or)
    } else if op == 0x73 || op == 0x85 {
        Some(BinaryOp::Xor)
    } else if op == 0x8C || op == 0x92 {
        Some(BinaryOp::FAdd)
    } else if op == 0x8D || op == 0x93 {
        Some(BinaryOp::FSub)
    } else if op == 0x8E || op == 0x94 {
        Some(BinaryOp::FMul)
    } else if op == 0x8F || op == 0x95 {
        Some(BinaryOp::FDiv)
    } else if op == 0x90 || op == 0x96 {
        Some(BinaryOp::FRem)
    } else {
        None
    }
}

/// The shift instruction of an opcode, if it is one.
pub open spec fn shift_op(op: u8) -> Option<BinaryOp> {
    if op == 0x74 || op == 0x86 {
        Some(BinaryOp::Shl)
    } else if op == 0x75 || op == 0x87 {
        Some(BinaryOp::AShr)
    } else if op == 0x76 || op == 0x88 {
        Some(BinaryOp::LShr)
    } else {
        None
    }
}

/// The integer comparison of an opcode, if it is one.
pub open spec fn int_predicate(op: u8) -> Option<IntPredicate> {
    if op == 0x46 {
        Some(IntPredicate::Eq)
    } else if op == 0x47 {
        Some(IntPredicate::Ne)
    } else if op == 0x48 {
        Some(IntPredicate::Slt)
    } else if op == 0x49 {
        Some(IntPredicate::Ult)
    } else if op == 0x4A {
        Some(IntPredicate::Sgt)
    } else if op == 0x4B {
        Some(IntPredicate::Ugt)
    } else if op == 0x4C {
        Some(IntPredicate::Sle)
    } else if op == 0x4D {
        Some(IntPredicate::Ule)
    } else if op == 0x4E {
        Some(IntPredicate::Sge)
    } else if op == 0x4F {
        Some(IntPredicate::Uge)
    } else {
        None
    }
}

/// The floating-point comparison of an opcode, if it is one.
pub open spec fn real_predicate(op: u8) -> Option<RealPredicate> {
    if op == 0x5B || op == 0x61 {
        Some(RealPredicate::Oeq)
    } else if op == 0x5C || op == 0x62 {
        Some(RealPredicate::One)
    } else if op == 0x5D || op == 0x63 {
        Some(RealPredicate::Olt)
    } else if op == 0x5E || op == 0x64 {
        Some(RealPredicate::Ogt)
    } else if op == 0x5F || op == 0x65 {
        Some(RealPredicate::Ole)
    } else if op == 0x60 || op == 0x66 {
        Some(RealPredicate::Oge)
    } else {
        None
    }
}

/// Whether an opcode loads through a runtime helper.
pub open spec fn is_load(op: u8) -> bool {
    0x28 <= op <= 0x35
}

/// Whether an opcode stores through a runtime helper.
pub open spec fn is_store(op: u8) -> bool {
    0x36 <= op <= 0x3E
}

/// The state after an instruction with no immediate that takes `n` operands
/// and makes one value with `make` from them, or leaves the stack alone
/// when it holds fewer than `n`.
pub open spec fn step_operands(s: PlanState, n: int, op: LlvmOp) -> PlanStep {
    if s.stack.len() >= n {
        PlanStep::Next(at(emit_value(popped(s, n), op), s.pc + 1))
    } else {
        PlanStep::Next(at(s, s.pc + 1))
    }
}

/// Lowering a two-operand instruction.
pub open spec fn step_binary(op: u8, s: PlanState) -> PlanStep {
    if s.stack.len() >= 2 {
        step_operands(
            s,
            2,
            LlvmOp::Binary {
                opcode: op,
                op: binary_op(op)->Some_0,
                lhs: from_top(s, 1),
                rhs: from_top(s, 0),
            },
        )
    } else {
        PlanStep::Next(at(s, s.pc + 1))
    }
}

/// Lowering a shift: the amount is truncated to 8 bits first.
pub open spec fn step_shift(op: u8, s: PlanState) -> PlanStep {
    if s.stack.len() >= 2 {
        let t = emit(popped(s, 2), LlvmOp::TruncToI8 { value: from_top(s, 0) });
        PlanStep::Next(
            at(
                emit_value(
                    t,
                    LlvmOp::Binary {
                        opcode: op,
                        op: shift_op(op)->Some_0,
                        lhs: from_top(s, 1),
                        rhs: s.ops.len() as usize,
                    },
                ),
                s.pc + 1,
            ),
        )
    } else {
        PlanStep::Next(at(s, s.pc + 1))
    }
}

/// Lowering a comparison: compare, then widen the bit to 32 bits.
pub open spec fn step_compare(op: u8, s: PlanState) -> PlanStep {
    if s.stack.len() >= 2 {
        let test = if int_predicate(op) is Some {
            LlvmOp::IntCompare {
                opcode: op,
                pred: int_predicate(op)->Some_0,
                lhs: from_top(s, 1),
                rhs: from_top(s, 0),
            }
        } else {
            LlvmOp::FloatCompare {
                opcode: op,
                pred: real_predicate(op)->Some_0,
                lhs: from_top(s, 1),
                rhs: from_top(s, 0),
            }
        };
        let t = emit(popped(s, 2), test);
        PlanStep::Next(
            at(emit_value(t, LlvmOp::ZExtToI32 { opcode: op, value: s.ops.len() as usize }), s.pc + 1),
        )
    } else {
        PlanStep::Next(at(s, s.pc + 1))
    }
}

/// Lowering `i32.eqz`: compare with a zero constant, then widen.
pub open spec fn step_eqz(s: PlanState) -> PlanStep {
    if s.stack.len() >= 1 {
        let z = emit(popped(s, 1), LlvmOp::ConstInt { ty: NumType::I32, value: 0, sign_extend: false });
        let c = emit(
            z,
            LlvmOp::IntCompare {
                opcode: 0x45,
                pred: IntPredicate::Eq,
                lhs: from_top(s, 0),
                rhs: s.ops.len() as usize,
            },
        );
        PlanStep::Next(
            at(
                emit_value(c, LlvmOp::ZExtToI32 { opcode: 0x45, value: (s.ops.len() + 1) as usize }),
                s.pc + 1,
            ),
        )
    } else {
        PlanStep::Next(at(s, s.pc + 1))
    }
}

/// Lowering a local access.
pub open spec fn step_local(bc: Seq<u8>, op: u8, cx: PlanContext, s: PlanState) -> PlanStep {
    match uleb32(bc, s.pc + 1) {
        Uleb32::Done { value: idx, next } => if op == 0x20 {
            if cx.locals.contains_key(idx) {
                PlanStep::Next(at(emit_value(s, LlvmOp::LoadLocal { slot: cx.locals[idx] }), next))
            } else {
                PlanStep::Next(at(s, next))
            }
        } else if op == 0x21 {
            if s.stack.len() >= 1 {
                if cx.locals.contains_key(idx) {
                    PlanStep::Next(
                        at(
                            emit(
                                popped(s, 1),
                                LlvmOp::StoreLocal { value: from_top(s, 0), slot: cx.locals[idx] },
                            ),
                            next,
                        ),
                    )
                } else {
                    PlanStep::Next(at(popped(s, 1), next))
                }
            } else {
                PlanStep::Next(at(s, next))
            }
        } else {
            if s.stack.len() >= 1 && cx.locals.contains_key(idx) {
                PlanStep::Next(
                    at(
                        emit(s, LlvmOp::StoreLocal { value: from_top(s, 0), slot: cx.locals[idx] }),
                        next,
                    ),
                )
            } else {
                PlanStep::Next(at(s, next))
            }
        },
        u => PlanStep::Fail(uleb_message(u)),
    }
}

/// Lowering a constant.
pub open spec fn step_const(bc: Seq<u8>, op: u8, s: PlanState) -> PlanStep {
    if op == 0x41 {
        match uleb32(bc, s.pc + 1) {
            Uleb32::Done { value, next } => PlanStep::Next(
                at(
                    emit_value(
                        s,
                        LlvmOp::ConstInt {
                            ty: NumType::I32,
                            value: (value as i32) as u64,
                            sign_extend: true,
                        },
                    ),
                    next,
                ),
            ),
            u => PlanStep::Fail(uleb_message(u)),
        }
    } else if op == 0x42 {
        match uleb64(bc, s.pc + 1) {
            Uleb64::Done { value, next } => PlanStep::Next(
                at(
                    emit_value(s, LlvmOp::ConstInt { ty: NumType::I64, value, sign_extend: true }),
                    next,
                ),
            ),
            Uleb64::TooLong => PlanStep::Fail("uleb128 overflow"@),
            Uleb64::Eof => PlanStep::Fail("unexpected end of bytecode"@),
        }
    } else if op == 0x43 {
        if s.pc + 1 + 4 > bc.len() {
            PlanStep::Fail("unexpected end of bytecode reading f32"@)
        } else {
            PlanStep::Next(at(emit_value(s, LlvmOp::ConstF32 { bits: u32_at(bc, s.pc + 1) }), s.pc + 5))
        }
    } else {
        if s.pc + 1 + 8 > bc.len() {
            PlanStep::Fail("unexpected end of bytecode reading f64"@)
        } else {
            PlanStep::Next(at(emit_value(s, LlvmOp::ConstF64 { bits: u64_at(bc, s.pc + 1) }), s.pc + 9))
        }
    }
}

/// The state after adding a static offset to an address (no operation for a
/// zero offset), with the position of the effective address.
pub open spec fn effective(s: PlanState, addr: usize, offset: u32) -> (PlanState, usize) {
    if offset == 0 {
        (s, addr)
    } else {
        let c = emit(s, LlvmOp::ConstInt { ty: NumType::I32, value: offset as u64, sign_extend: false });
        (
            emit(c, LlvmOp::Binary { opcode: 0x6A, op: BinaryOp::Add, lhs: addr, rhs: s.ops.len() as usize }),
            (s.ops.len() + 1) as usize,
        )
    }
}

/// Lowering a load or store through a runtime helper. With too few operands
/// nothing is read past the opcode.
pub open spec fn step_memory(bc: Seq<u8>, op: u8, s: PlanState) -> PlanStep {
    let n: int = if is_load(op) {
        1
    } else {
        2
    };
    if s.stack.len() >= n {
        let addr = from_top(s, n - 1);
        match uleb32(bc, s.pc + 1) {
            Uleb32::Done { next: p1, .. } => match uleb32(bc, p1) {
                Uleb32::Done { value: offset, next: p2 } => {
                    let (t, eff) = effective(popped(s, n), addr, offset);
                    if is_load(op) {
                        PlanStep::Next(at(emit_value(t, LlvmOp::MemLoad { opcode: op, addr: eff }), p2))
                    } else {
                        PlanStep::Next(
                            at(emit(t, LlvmOp::MemStore { opcode: op, addr: eff, value: from_top(s, 0) }), p2),
                        )
                    }
                },
                u => PlanStep::Fail(uleb_message(u)),
            },
            u => PlanStep::Fail(uleb_message(u)),
        }
    } else {
        PlanStep::Next(at(s, s.pc + 1))
    }
}

/// The state after appending a basic block made for `role`.
pub open spec fn append_block(s: PlanState, role: BlockRole) -> PlanState {
    PlanState {
        blocks: s.blocks.push(s.ops.len() as usize),
        ops: s.ops.push(LlvmOp::AppendBlock { role }),
        ..s
    }
}

/// The state after moving the builder to block number `b`.
pub open spec fn position(s: PlanState, b: int) -> PlanState {
    PlanState { ops: s.ops.push(LlvmOp::PositionAtEnd { block: s.blocks[b] }), current: b, ..s }
}

/// Lowering `block`, `loop` and `if`.
pub open spec fn step_open(bc: Seq<u8>, op: u8, s: PlanState) -> PlanStep {
    match uleb32(bc, s.pc + 1) {
        Uleb32::Done { next, .. } => if op == 0x02 {
            let t = append_block(s, BlockRole::BlockEnd);
            PlanStep::Next(
                at(
                    PlanState {
                        frames: s.frames.push(
                            BlockFrame {
                                kind: BlockKind::Block,
                                start: s.current as usize,
                                end: s.blocks.len() as usize,
                            },
                        ),
                        ..t
                    },
                    next,
                ),
            )
        } else if op == 0x03 {
            let nb = s.blocks.len() as int;
            let t = append_block(append_block(s, BlockRole::LoopHeader), BlockRole::LoopExit);
            let u = position(emit(t, LlvmOp::Branch { target: t.blocks[nb] }), nb);
            PlanStep::Next(
                at(
                    PlanState {
                        frames: s.frames.push(
                            BlockFrame { kind: BlockKind::Loop, start: nb as usize, end: (nb + 1) as usize },
                        ),
                        ..u
                    },
                    next,
                ),
            )
        } else {
            if s.stack.len() >= 1 {
                let nb = s.blocks.len() as int;
                let t = append_block(
                    append_block(append_block(popped(s, 1), BlockRole::IfThen), BlockRole::IfElse),
                    BlockRole::IfEnd,
                );
                let c = emit(t, LlvmOp::TruncToI1 { value: from_top(s, 0) });
                let b = emit(
                    c,
                    LlvmOp::CondBranch {
                        cond: t.ops.len() as usize,
                        then_target: t.blocks[nb],
                        else_target: t.blocks[nb + 1],
                    },
                );
                let u = position(b, nb);
                PlanStep::Next(
                    at(
                        PlanState {
                            frames: s.frames.push(
                                BlockFrame { kind: BlockKind::If, start: nb as usize, end: (nb + 2) as usize },
                            ),
                            ..u
                        },
                        next,
                    ),
                )
            } else {
                PlanStep::Next(at(s, next))
            }
        },
        u => PlanStep::Fail(uleb_message(u)),
    }
}

/// Lowering `else`: inside an `if`, branch to its end and move on to the
/// block created after the current one, if there is one.
pub open spec fn step_else(s: PlanState) -> PlanStep {
    if s.frames.len() > 0 && s.frames.last().kind == BlockKind::If {
        let t = emit(s, LlvmOp::Branch { target: s.blocks[s.frames.last().end as int] });
        if s.current + 1 < s.blocks.len() {
            PlanStep::Next(at(position(t, s.current + 1), s.pc + 1))
        } else {
            PlanStep::Next(at(t, s.pc + 1))
        }
    } else {
        PlanStep::Next(at(s, s.pc + 1))
    }
}

/// Lowering `end`: close the innermost block, branching to its end block and
/// moving there.
pub open spec fn step_end(s: PlanState) -> PlanStep {
    if s.frames.len() > 0 {
        let f = s.frames.last();
        let t = emit(
            PlanState { frames: s.frames.drop_last(), ..s },
            LlvmOp::Branch { target: s.blocks[f.end as int] },
        );
        PlanStep::Next(at(position(t, f.end as int), s.pc + 1))
    } else {
        PlanStep::Next(at(s, s.pc + 1))
    }
}

/// The block a branch to an open block goes to: a loop's start, else its end.
pub open spec fn branch_target(f: BlockFrame) -> int {
    if f.kind == BlockKind::Loop {
        f.start as int
    } else {
        f.end as int
    }
}

/// Lowering `br` and `br_if`.
pub open spec fn step_branch(bc: Seq<u8>, op: u8, s: PlanState) -> PlanStep {
    match uleb32(bc, s.pc + 1) {
        Uleb32::Done { value: label, next } => if op == 0x0C {
            if label < s.frames.len() {
                let f = s.frames[s.frames.len() - 1 - label];
                PlanStep::Next(at(emit(s, LlvmOp::Branch { target: s.blocks[branch_target(f)] }), next))
            } else {
                PlanStep::Next(at(s, next))
            }
        } else {
            if s.stack.len() >= 1 {
                let p = popped(s, 1);
                if label < s.frames.len() {
                    let f = s.frames[s.frames.len() - 1 - label];
                    let nb = s.blocks.len() as int;
                    let t = append_block(p, BlockRole::BrIfFall);
                    let c = emit(t, LlvmOp::TruncToI1 { value: from_top(s, 0) });
                    let b = emit(
                        c,
                        LlvmOp::CondBranch {
                            cond: t.ops.len() as usize,
                            then_target: s.blocks[branch_target(f)],
                            else_target: t.blocks[nb],
                        },
                    );
                    PlanStep::Next(at(position(b, nb), next))
                } else {
                    PlanStep::Next(at(p, next))
                }
            } else {
                PlanStep::Next(at(s, next))
            }
        },
        u => PlanStep::Fail(uleb_message(u)),
    }
}

/// The operations that pass the arguments of a call.
pub open spec fn call_args(args: Seq<usize>) -> Seq<LlvmOp> {
    args.map_values(|v: usize| LlvmOp::CallArg { value: v })
}

/// Lowering `call`: only the function itself is known to its own module, so
/// only a call to itself is planned, with as many arguments as it has
/// parameters (or the values there are).
pub open spec fn step_call(bc: Seq<u8>, cx: PlanContext, s: PlanState) -> PlanStep {
    match uleb32(bc, s.pc + 1) {
        Uleb32::Done { value: callee, next } => if callee == cx.own {
            let argc: int = if cx.params <= s.stack.len() {
                cx.params as int
            } else {
                s.stack.len() as int
            };
            let args = s.stack.subrange(s.stack.len() - argc, s.stack.len() as int);
            let p = popped(s, argc);
            let t = PlanState { ops: p.ops + call_args(args), ..p };
            let c = if cx.returns {
                emit_value(t, LlvmOp::Call { callee, argc: argc as usize })
            } else {
                emit(t, LlvmOp::Call { callee, argc: argc as usize })
            };
            PlanStep::Next(at(c, next))
        } else {
            PlanStep::Next(at(s, next))
        },
        u => PlanStep::Fail(uleb_message(u)),
    }
}

/// Lowering `call_indirect`, which is not supported once its immediates are read.
pub open spec fn step_call_indirect(bc: Seq<u8>, s: PlanState) -> PlanStep {
    match uleb32(bc, s.pc + 1) {
        Uleb32::Done { next, .. } => match uleb32(bc, next) {
            Uleb32::Done { .. } => PlanStep::Fail("call_indirect not yet supported"@),
            u => PlanStep::Fail(uleb_message(u)),
        },
        u => PlanStep::Fail(uleb_message(u)),
    }
}

/// The return that ends a function: the value on top of the stack, if any.
pub open spec fn return_op(s: PlanState) -> LlvmOp {
    if s.stack.len() > 0 {
        LlvmOp::Return { value: s.stack.last() }
    } else {
        LlvmOp::ReturnVoid
    }
}

/// Lowering the instruction at the current position.
pub open spec fn plan_step(bc: Seq<u8>, cx: PlanContext, s: PlanState) -> PlanStep {
    let op = bc[s.pc];
    if op == 0x00 {
        PlanStep::Finish(s.ops.push(LlvmOp::Unreachable))
    } else if op == 0x01 {
        PlanStep::Next(at(s, s.pc + 1))
    } else if op == 0x0F {
        PlanStep::Finish(s.ops.push(return_op(s)))
    } else if op == 0x1A {
        if s.stack.len() >= 1 {
            PlanStep::Next(at(popped(s, 1), s.pc + 1))
        } else {
            PlanStep::Next(at(s, s.pc + 1))
        }
    } else if op == 0x20 || op == 0x21 || op == 0x22 {
        step_local(bc, op, cx, s)
    } else if op == 0x41 || op == 0x42 || op == 0x43 || op == 0x44 {
        step_const(bc, op, s)
    } else if binary_op(op) is Some {
        step_binary(op, s)
    } else if shift_op(op) is Some {
        step_shift(op, s)
    } else if op == 0x45 {
        step_eqz(s)
    } else if int_predicate(op) is Some || real_predicate(op) is Some {
        step_compare(op, s)
    } else if op == 0x91 || op == 0x97 {
        if s.stack.len() >= 1 {
            step_operands(s, 1, LlvmOp::FNeg { opcode: op, value: from_top(s, 0) })
        } else {
            PlanStep::Next(at(s, s.pc + 1))
        }
    } else if op == 0x98 {
        if s.stack.len() >= 1 {
            step_operands(s, 1, LlvmOp::FPTrunc { value: from_top(s, 0) })
        } else {
            PlanStep::Next(at(s, s.pc + 1))
        }
    } else if op == 0x99 {
        if s.stack.len() >= 1 {
            step_operands(s, 1, LlvmOp::FPExt { value: from_top(s, 0) })
        } else {
            PlanStep::Next(at(s, s.pc + 1))
        }
    } else if is_load(op) || is_store(op) {
        step_memory(bc, op, s)
    } else if op == 0x02 || op == 0x03 || op == 0x04 {
        step_open(bc, op, s)
    } else if op == 0x05 {
        step_else(s)
    } else if op == 0x0B {
        step_end(s)
    } else if op == 0x0C || op == 0x0D {
        step_branch(bc, op, s)
    } else if op == 0x10 {
        step_call(bc, cx, s)
    } else if op == 0x11 {
        step_call_indirect(bc, s)
    } else {
        PlanStep::Fail(unsupported_message(op))
    }
}

/// Lowering from state `s` on, for at most `fuel` instructions; at the end of
/// the body the function returns the value on top of the stack, if any.
pub open spec fn plan_run(bc: Seq<u8>, cx: PlanContext, s: PlanState, fuel: nat) -> Plan
    decreases fuel,
{
    if s.pc >= bc.len() {
        Plan::Ops(s.ops.push(return_op(s)))
    } else if fuel == 0 {
        Plan::Stuck
    } else {
        match plan_step(bc, cx, s) {
            PlanStep::Next(t) => plan_run(bc, cx, t, (fuel - 1) as nat),
            PlanStep::Finish(ops) => Plan::Ops(ops),
            PlanStep::Fail(m) => Plan::Failed(m),
        }
    }
}

/// Whether a local's type has a stack slot that is zeroed and recorded.
pub open spec fn numeric(t: ValType) -> bool {
    t is Num
}

/// The slots of the declared locals from entry `i`, count `j` on: each
/// gets a slot, numeric ones are zeroed and recorded under the index
/// `offset + i * count + j`.
pub open spec fn local_slots(
    locals: Seq<Local>,
    offset: int,
    i: int,
    j: int,
    ops: Seq<LlvmOp>,
    map: Map<u32, usize>,
) -> (Seq<LlvmOp>, Map<u32, usize>)
    decreases locals.len() - i, (if 0 <= i < locals.len() {
        locals[i].count - j
    } else {
        0
    }),
{
    if i < 0 || i >= locals.len() {
        (ops, map)
    } else if j >= locals[i].count {
        local_slots(locals, offset, i + 1, 0, ops, map)
    } else {
        let ty = locals[i].type_;
        let slot = ops.len() as usize;
        let with_slot = ops.push(LlvmOp::LocalSlot { ty });
        if numeric(ty) {
            local_slots(
                locals,
                offset,
                i,
                j + 1,
                with_slot.push(LlvmOp::StoreZero { slot, ty: ty->Num_0 }),
                map.insert((offset + i * locals[i].count + j) as u32, slot),
            )
        } else {
            local_slots(locals, offset, i, j + 1, with_slot, map)
        }
    }
}

/// The operations that open a function with `params` parameters: the entry
/// block, then a slot for each parameter, recorded under its index.
pub open spec fn param_ops(params: nat) -> Seq<LlvmOp> {
    seq![LlvmOp::EntryBlock] + Seq::new(params, |i: int| LlvmOp::ParamSlot { index: i as u32 })
}

/// The slots of the parameters, by index.
pub open spec fn param_map(params: nat) -> Map<u32, usize> {
    Map::new(|k: u32| k < params, |k: u32| (k + 1) as usize)
}

/// The opening of a function: its operations and the slot of each local index.
pub open spec fn prologue(params: nat, locals: Seq<Local>) -> (Seq<LlvmOp>, Map<u32, usize>) {
    local_slots(locals, params as int, 0, 0, param_ops(params), param_map(params))
}

/// Whether the local indices of the prologue fit in 32 bits.
pub open spec fn prologue_fits(params: nat, locals: Seq<Local>) -> bool {
    &&& params <= u32::MAX
    &&& locals.len() <= u32::MAX
    &&& forall|i: int|
        0 <= i < locals.len() && #[trigger] locals[i].count > 0 ==> params + i * locals[i].count
            + locals[i].count - 1 <= u32::MAX
}

/// The state a body's lowering starts in, after the prologue `ops`.
pub open spec fn start_state(ops: Seq<LlvmOp>) -> PlanState {
    PlanState { pc: 0, stack: seq![], frames: seq![], blocks: seq![0usize], current: 0, ops }
}

/// The type of a defined function, as the module gives it.
pub open spec fn defined_type(m: Module, idx: u32) -> Option<FunctionType> {
    if idx < m.funcs@.len() && m.funcs@[idx as int].type_idx < m.types@.len() {
        Some(m.types@[m.funcs@[idx as int].type_idx as int])
    } else {
        None
    }
}

/// The plan of a function: its opening, then its body.
pub open spec fn function_plan(func: Func, idx: u32, m: Module) -> Plan {
    match defined_type(m, idx) {
        None => Plan::Failed("Function type not found for "@ + decimal_chars(idx as nat)),
        Some(ft) => {
            let (ops, map) = prologue(ft.params@.len(), func.locals@);
            let cx = PlanContext {
                locals: map,
                own: idx,
                params: ft.params@.len(),
                returns: ft.results@.len() > 0,
            };
            plan_run(func.body@, cx, start_state(ops), func.body@.len())
        },
    }
}


/// A state the lowering can be in: inside the body, in an existing block,
/// and with every open block's start and end existing.
pub open spec fn plan_wf(s: PlanState, n: int) -> bool {
    &&& 0 <= s.pc <= n
    &&& 0 <= s.current < s.blocks.len()
    &&& forall|i: int|
        #![trigger s.frames[i]]
        0 <= i < s.frames.len() ==> s.frames[i].start < s.blocks.len() && s.frames[i].end
            < s.blocks.len()
}

/// What lowering one instruction promises: `Ok(false)` and the next state,
/// well formed and further along; `Ok(true)` and the finished operations;
/// or the failure's message.
pub open spec fn stepped(st: PlanStep, r: Result<bool, String>, before: PlanState, after: PlanState, n: int) -> bool {
    match st {
        PlanStep::Next(t) => r == Ok::<bool, String>(false) && after == t && plan_wf(after, n)
            && after.pc > before.pc,
        PlanStep::Finish(ops) => r == Ok::<bool, String>(true) && after.ops == ops,
        PlanStep::Fail(m) => r is Err && r->Err_0@ == m,
    }
}

/// Reads an unsigned 32-bit LEB128 immediate at `p`.
fn immediate(bc: &[u8], p: usize) -> (r: Result<(u32, usize), String>)
    requires
        p <= bc@.len(),
    ensures
        match uleb32(bc@, p as int) {
            Uleb32::Done { value, next } => r == Ok::<(u32, usize), String>((value, next as usize))
                && next <= bc@.len(),
            u => r is Err && r->Err_0@ == uleb_message(u),
        },
{
    proof {
        crate::leb128::lemma_uleb32_advances(bc@, p as int, 0);
    }
    let mut cursor = p;
    match read_uleb(bc, &mut cursor) {
        Ok(v) => Ok((v, cursor)),
        Err(JitError::UlebOverflow) => {
            proof {
                reveal_strlit("uleb128 overflow");
            }
            Err(String::from_str("uleb128 overflow"))
        },
        Err(_) => {
            proof {
                reveal_strlit("unexpected end of bytecode");
            }
            Err(String::from_str("unexpected end of bytecode"))
        },
    }
}

/// Reads an unsigned 64-bit LEB128 immediate at `p`.
fn immediate64(bc: &[u8], p: usize) -> (r: Result<(u64, usize), String>)
    requires
        p <= bc@.len(),
    ensures
        match uleb64(bc@, p as int) {
            Uleb64::Done { value, next } => r == Ok::<(u64, usize), String>((value, next as usize))
                && p < next <= bc@.len(),
            Uleb64::TooLong => r is Err && r->Err_0@ == "uleb128 overflow"@,
            Uleb64::Eof => r is Err && r->Err_0@ == "unexpected end of bytecode"@,
        },
{
    proof {
        reveal_strlit("uleb128 overflow");
        reveal_strlit("unexpected end of bytecode");
    }
    let mut value: u64 = 0;
    let mut k: usize = 0;
    loop
        invariant
            k < 10,
            p + k <= bc@.len(),
            value == uleb64_value(bc@, p as int, k as nat),
            uleb64_scan(bc@, p as int, k as nat) == uleb64(bc@, p as int),
            p <= bc@.len(),
        decreases 10 - k,
    {
        if k >= bc.len() - p {
            return Err(String::from_str("unexpected end of bytecode"));
        }
        let byte = bc[p + k];
        let shift: u64 = 7 * k as u64;
        value = value | (((byte & 0x7F) as u64) << shift);
        if byte & 0x80 == 0 {
            return Ok((value, p + k + 1));
        }
        if k + 1 >= 10 {
            return Err(String::from_str("uleb128 overflow"));
        }
        k = k + 1;
    }
}

/// The message for an opcode the lowering has no rule for.
fn unsupported(op: u8) -> (m: String)
    ensures
        m@ == unsupported_message(op),
{
    let mut m = String::from_str("Unsupported WASM opcode: 0x");
    m.append(upper_hex_str(op / 16));
    m.append(upper_hex_str(op % 16));
    proof {
        reveal_strlit("Unsupported WASM opcode: 0x");
        assert(m@ =~= unsupported_message(op));
    }
    m
}

/// The uppercase hexadecimal digit of a number below 16.
fn upper_hex_str(d: u8) -> (s: &'static str)
    requires
        d < 16,
    ensures
        s@ == seq![upper_hex_digit(d as nat)],
{
    proof {
        reveal_strlit("0");
        reveal_strlit("1");
        reveal_strlit("2");
        reveal_strlit("3");
        reveal_strlit("4");
        reveal_strlit("5");
        reveal_strlit("6");
        reveal_strlit("7");
        reveal_strlit("8");
        reveal_strlit("9");
        reveal_strlit("A");
        reveal_strlit("B");
        reveal_strlit("C");
        reveal_strlit("D");
        reveal_strlit("E");
        reveal_strlit("F");
    }
    if d == 0 {
        "0"
    } else if d == 1 {
        "1"
    } else if d == 2 {
        "2"
    } else if d == 3 {
        "3"
    } else if d == 4 {
        "4"
    } else if d == 5 {
        "5"
    } else if d == 6 {
        "6"
    } else if d == 7 {
        "7"
    } else if d == 8 {
        "8"
    } else if d == 9 {
        "9"
    } else if d == 10 {
        "A"
    } else if d == 11 {
        "B"
    } else if d == 12 {
        "C"
    } else if d == 13 {
        "D"
    } else if d == 14 {
        "E"
    } else {
        "F"
    }
}


/// What the lowering of a body needs of its function.
struct Context {
    locals: std::collections::HashMap<u32, usize>,
    own: u32,
    params: usize,
    returns: bool,
}

impl Context {
    spec fn view(&self) -> PlanContext {
        PlanContext { locals: self.locals@, own: self.own, params: self.params as nat, returns: self.returns }
    }
}

/// A lowering in progress.
struct Planner {
    pc: usize,
    stack: Vec<usize>,
    frames: Vec<BlockFrame>,
    blocks: Vec<usize>,
    current: usize,
    ops: Vec<LlvmOp>,
}

impl Planner {
    spec fn state(&self) -> PlanState {
        PlanState {
            pc: self.pc as int,
            stack: self.stack@,
            frames: self.frames@,
            blocks: self.blocks@,
            current: self.current as int,
            ops: self.ops@,
        }
    }

    fn emit_op(&mut self, op: LlvmOp)
        ensures
            final(self).state() == emit(old(self).state(), op),
    {
        self.ops.push(op);
        proof {
            assert(self.state() =~= emit(old(self).state(), op));
        }
    }

    fn emit_value_op(&mut self, op: LlvmOp)
        ensures
            final(self).state() == emit_value(old(self).state(), op),
    {
        let id = self.ops.len();
        self.ops.push(op);
        self.stack.push(id);
        proof {
            assert(self.state() =~= emit_value(old(self).state(), op));
        }
    }

    fn pop_values(&mut self, n: usize)
        requires
            n <= old(self).stack@.len(),
        ensures
            final(self).state() == popped(old(self).state(), n as int),
    {
        let keep = self.stack.len() - n;
        self.stack.truncate(keep);
        proof {
            assert(self.state() =~= popped(old(self).state(), n as int));
        }
    }

    fn top(&self, k: usize) -> (v: usize)
        requires
            k < self.stack@.len(),
        ensures
            v == from_top(self.state(), k as int),
    {
        self.stack[self.stack.len() - 1 - k]
    }

    fn append(&mut self, role: BlockRole)
        ensures
            final(self).state() == append_block(old(self).state(), role),
    {
        let id = self.ops.len();
        self.ops.push(LlvmOp::AppendBlock { role });
        self.blocks.push(id);
        proof {
            assert(self.state() =~= append_block(old(self).state(), role));
        }
    }

    fn position_at(&mut self, b: usize)
        requires
            b < old(self).blocks@.len(),
        ensures
            final(self).state() == position(old(self).state(), b as int),
    {
        let block = self.blocks[b];
        self.ops.push(LlvmOp::PositionAtEnd { block });
        self.current = b;
        proof {
            assert(self.state() =~= position(old(self).state(), b as int));
        }
    }

    fn step_local(&mut self, bc: &[u8], op: u8, cx: &Context) -> (r: Result<bool, String>)
        requires
            plan_wf(old(self).state(), bc@.len() as int),
            old(self).pc < bc@.len(),
            op == 0x20 || op == 0x21 || op == 0x22,
        ensures
            stepped(step_local(bc@, op, cx.view(), old(self).state()), r, old(self).state(), final(self).state(), bc@.len() as int),
    {
        broadcast use vstd::std_specs::hash::group_hash_axioms;

        let len = bc.len();
        proof {
            crate::leb128::lemma_uleb32_advances(bc@, self.pc + 1, 0);
        }
        let (idx, next) = match immediate(bc, self.pc + 1) {
            Ok(v) => v,
            Err(m) => {
                return Err(m);
            },
        };
        let slot = cx.locals.get(&idx);
        assert(slot is Some <==> cx.view().locals.contains_key(idx));
        assert(slot is Some ==> *slot->Some_0 == cx.view().locals[idx]);
        if op == 0x20 {
            if let Some(slot) = slot {
                self.emit_value_op(LlvmOp::LoadLocal { slot: *slot });
            }
        } else if op == 0x21 {
            if self.stack.len() >= 1 {
                let value = self.top(0);
                self.pop_values(1);
                if let Some(slot) = slot {
                    self.emit_op(LlvmOp::StoreLocal { value, slot: *slot });
                }
            }
        } else {
            if self.stack.len() >= 1 {
                if let Some(slot) = slot {
                    let value = self.top(0);
                    self.emit_op(LlvmOp::StoreLocal { value, slot: *slot });
                }
            }
        }
        self.pc = next;
        Ok(false)
    }

    fn step_const(&mut self, bc: &[u8], op: u8) -> (r: Result<bool, String>)
        requires
            plan_wf(old(self).state(), bc@.len() as int),
            old(self).pc < bc@.len(),
            op == 0x41 || op == 0x42 || op == 0x43 || op == 0x44,
        ensures
            stepped(step_const(bc@, op, old(self).state()), r, old(self).state(), final(self).state(), bc@.len() as int),
    {
        let len = bc.len();
        let at = self.pc + 1;
        proof {
            crate::leb128::lemma_uleb32_advances(bc@, at as int, 0);
        }
        if op == 0x41 {
            let (v, next) = match immediate(bc, at) {
                Ok(x) => x,
                Err(m) => {
                    return Err(m);
                },
            };
            self.emit_value_op(LlvmOp::ConstInt { ty: NumType::I32, value: v as i32 as u64, sign_extend: true });
            self.pc = next;
        } else if op == 0x42 {
            let (v, next) = match immediate64(bc, at) {
                Ok(x) => x,
                Err(m) => {
                    return Err(m);
                },
            };
            self.emit_value_op(LlvmOp::ConstInt { ty: NumType::I64, value: v, sign_extend: true });
            self.pc = next;
        } else if op == 0x43 {
            if len - at < 4 {
                proof {
                    reveal_strlit("unexpected end of bytecode reading f32");
                }
                return Err(String::from_str("unexpected end of bytecode reading f32"));
            }
            let bits = read_u32_at(bc, at);
            self.emit_value_op(LlvmOp::ConstF32 { bits });
            self.pc = at + 4;
        } else {
            if len - at < 8 {
                proof {
                    reveal_strlit("unexpected end of bytecode reading f64");
                }
                return Err(String::from_str("unexpected end of bytecode reading f64"));
            }
            let bits = read_u64_at(bc, at);
            self.emit_value_op(LlvmOp::ConstF64 { bits });
            self.pc = at + 8;
        }
        Ok(false)
    }

    fn step_stack_op(&mut self, op: u8) -> (r: Result<bool, String>)
        requires
            binary_op(op) is Some || shift_op(op) is Some || op == 0x45 || int_predicate(op) is Some
                || real_predicate(op) is Some || op == 0x91 || op == 0x97 || op == 0x98 || op == 0x99
                || op == 0x1A,
            old(self).pc < usize::MAX,
            plan_wf(old(self).state(), old(self).pc + 1),
        ensures
            r == Ok::<bool, String>(false),
            binary_op(op) is Some ==> PlanStep::Next(final(self).state()) == step_binary(op, old(self).state()),
            binary_op(op) is None && shift_op(op) is Some ==> PlanStep::Next(final(self).state()) == step_shift(op, old(self).state()),
            op == 0x45 ==> PlanStep::Next(final(self).state()) == step_eqz(old(self).state()),
            (int_predicate(op) is Some || real_predicate(op) is Some) ==> PlanStep::Next(final(self).state()) == step_compare(op, old(self).state()),
            (op == 0x91 || op == 0x97) ==> PlanStep::Next(final(self).state()) == (if old(self).state().stack.len() >= 1 {
                step_operands(old(self).state(), 1, LlvmOp::FNeg { opcode: op, value: from_top(old(self).state(), 0) })
            } else {
                PlanStep::Next(at(old(self).state(), old(self).state().pc + 1))
            }),
            op == 0x98 ==> PlanStep::Next(final(self).state()) == (if old(self).state().stack.len() >= 1 {
                step_operands(old(self).state(), 1, LlvmOp::FPTrunc { value: from_top(old(self).state(), 0) })
            } else {
                PlanStep::Next(at(old(self).state(), old(self).state().pc + 1))
            }),
            op == 0x99 ==> PlanStep::Next(final(self).state()) == (if old(self).state().stack.len() >= 1 {
                step_operands(old(self).state(), 1, LlvmOp::FPExt { value: from_top(old(self).state(), 0) })
            } else {
                PlanStep::Next(at(old(self).state(), old(self).state().pc + 1))
            }),
            op == 0x1A ==> final(self).state() == (if old(self).state().stack.len() >= 1 {
                at(popped(old(self).state(), 1), old(self).state().pc + 1)
            } else {
                at(old(self).state(), old(self).state().pc + 1)
            }),
            plan_wf(final(self).state(), old(self).pc + 1),
            final(self).pc == old(self).pc + 1,
    {
        let next = self.pc + 1;
        let n = self.stack.len();
        let base = self.ops.len();
        if op == 0x1A {
            if n >= 1 {
                self.pop_values(1);
            }
        } else if binary_op_exec(op).is_some() {
            if n >= 2 {
                let lhs = self.top(1);
                let rhs = self.top(0);
                self.pop_values(2);
                let bop = binary_op_exec(op).unwrap();
                self.emit_value_op(LlvmOp::Binary { opcode: op, op: bop, lhs, rhs });
            }
        } else if shift_op_exec(op).is_some() {
            if n >= 2 {
                let lhs = self.top(1);
                let rhs = self.top(0);
                self.pop_values(2);
                self.emit_op(LlvmOp::TruncToI8 { value: rhs });
                let sop = shift_op_exec(op).unwrap();
                self.emit_value_op(LlvmOp::Binary { opcode: op, op: sop, lhs, rhs: base });
            }
        } else if op == 0x45 {
            if n >= 1 {
                let a = self.top(0);
                self.pop_values(1);
                self.emit_op(LlvmOp::ConstInt { ty: NumType::I32, value: 0, sign_extend: false });
                let test = self.ops.len();
                self.emit_op(LlvmOp::IntCompare { opcode: 0x45, pred: IntPredicate::Eq, lhs: a, rhs: base });
                self.emit_value_op(LlvmOp::ZExtToI32 { opcode: 0x45, value: test });
            }
        } else if int_predicate_exec(op).is_some() || real_predicate_exec(op).is_some() {
            if n >= 2 {
                let lhs = self.top(1);
                let rhs = self.top(0);
                self.pop_values(2);
                let test = match int_predicate_exec(op) {
                    Some(pred) => LlvmOp::IntCompare { opcode: op, pred, lhs, rhs },
                    None => LlvmOp::FloatCompare { opcode: op, pred: real_predicate_exec(op).unwrap(), lhs, rhs },
                };
                self.emit_op(test);
                self.emit_value_op(LlvmOp::ZExtToI32 { opcode: op, value: base });
            }
        } else {
            if n >= 1 {
                let a = self.top(0);
                self.pop_values(1);
                let unary = if op == 0x98 {
                    LlvmOp::FPTrunc { value: a }
                } else if op == 0x99 {
                    LlvmOp::FPExt { value: a }
                } else {
                    LlvmOp::FNeg { opcode: op, value: a }
                };
                self.emit_value_op(unary);
            }
        }
        self.pc = next;
        proof {
            assert(self.state().blocks == old(self).state().blocks);
            assert(self.state().frames == old(self).state().frames);
        }
        Ok(false)
    }

    /// Adds a static offset to an address; returns the effective address.
    fn effective_addr(&mut self, addr: usize, offset: u32) -> (eff: usize)
        ensures
            (final(self).state(), eff) == effective(old(self).state(), addr, offset),
    {
        if offset == 0 {
            addr
        } else {
            let c = self.ops.len();
            self.emit_op(LlvmOp::ConstInt { ty: NumType::I32, value: offset as u64, sign_extend: false });
            let sum = self.ops.len();
            self.emit_op(LlvmOp::Binary { opcode: 0x6A, op: BinaryOp::Add, lhs: addr, rhs: c });
            sum
        }
    }

    fn step_memory(&mut self, bc: &[u8], op: u8) -> (r: Result<bool, String>)
        requires
            plan_wf(old(self).state(), bc@.len() as int),
            old(self).pc < bc@.len(),
            is_load(op) || is_store(op),
        ensures
            stepped(step_memory(bc@, op, old(self).state()), r, old(self).state(), final(self).state(), bc@.len() as int),
    {
        let len = bc.len();
        let n: usize = if 0x28 <= op && op <= 0x35 {
            1
        } else {
            2
        };
        if self.stack.len() < n {
            self.pc = self.pc + 1;
            return Ok(false);
        }
        let addr = self.top(n - 1);
        let value = self.top(0);
        proof {
            crate::leb128::lemma_uleb32_advances(bc@, self.pc + 1, 0);
        }
        let (_align, p1) = match immediate(bc, self.pc + 1) {
            Ok(x) => x,
            Err(m) => {
                return Err(m);
            },
        };
        proof {
            if p1 < bc@.len() {
                crate::leb128::lemma_uleb32_advances(bc@, p1 as int, 0);
            }
        }
        let (offset, p2) = match immediate(bc, p1) {
            Ok(x) => x,
            Err(m) => {
                return Err(m);
            },
        };
        self.pop_values(n);
        let eff = self.effective_addr(addr, offset);
        if n == 1 {
            self.emit_value_op(LlvmOp::MemLoad { opcode: op, addr: eff });
        } else {
            self.emit_op(LlvmOp::MemStore { opcode: op, addr: eff, value });
        }
        self.pc = p2;
        Ok(false)
    }

    fn step_open(&mut self, bc: &[u8], op: u8) -> (r: Result<bool, String>)
        requires
            plan_wf(old(self).state(), bc@.len() as int),
            old(self).pc < bc@.len(),
            op == 0x02 || op == 0x03 || op == 0x04,
        ensures
            stepped(step_open(bc@, op, old(self).state()), r, old(self).state(), final(self).state(), bc@.len() as int),
    {
        let len = bc.len();
        proof {
            crate::leb128::lemma_uleb32_advances(bc@, self.pc + 1, 0);
        }
        let (_block_type, next) = match immediate(bc, self.pc + 1) {
            Ok(x) => x,
            Err(m) => {
                return Err(m);
            },
        };
        let ghost s = self.state();
        let nb = self.blocks.len();
        if op == 0x02 {
            let start = self.current;
            self.append(BlockRole::BlockEnd);
            self.frames.push(BlockFrame { kind: BlockKind::Block, start, end: nb });
        } else if op == 0x03 {
            self.append(BlockRole::LoopHeader);
            self.append(BlockRole::LoopExit);
            let header = self.blocks[nb];
            self.emit_op(LlvmOp::Branch { target: header });
            self.position_at(nb);
            let exit_no = self.blocks.len() - 1;
            self.frames.push(BlockFrame { kind: BlockKind::Loop, start: nb, end: exit_no });
        } else {
            if self.stack.len() >= 1 {
                let cond = self.top(0);
                self.pop_values(1);
                self.append(BlockRole::IfThen);
                self.append(BlockRole::IfElse);
                self.append(BlockRole::IfEnd);
                let bit = self.ops.len();
                self.emit_op(LlvmOp::TruncToI1 { value: cond });
                let else_no = self.blocks.len() - 2;
                let end_no = self.blocks.len() - 1;
                let then_target = self.blocks[nb];
                let else_target = self.blocks[else_no];
                self.emit_op(LlvmOp::CondBranch { cond: bit, then_target, else_target });
                self.position_at(nb);
                self.frames.push(BlockFrame { kind: BlockKind::If, start: nb, end: end_no });
            }
        }
        self.pc = next;
        proof {
            assert(self.state().frames =~= step_open_frames(s, op));
        }
        Ok(false)
    }

    fn step_else(&mut self) -> (r: Result<bool, String>)
        requires
            plan_wf(old(self).state(), old(self).pc + 1),
            old(self).pc < usize::MAX,
        ensures
            stepped(step_else(old(self).state()), r, old(self).state(), final(self).state(), old(self).pc + 1),
    {
        let n = self.frames.len();
        if n > 0 && self.frames[n - 1].kind == BlockKind::If {
            let end = self.frames[n - 1].end;
            let target = self.blocks[end];
            self.emit_op(LlvmOp::Branch { target });
            if self.current < self.blocks.len() - 1 {
                let next_block = self.current + 1;
                self.position_at(next_block);
            }
        }
        self.pc = self.pc + 1;
        Ok(false)
    }

    fn step_end(&mut self) -> (r: Result<bool, String>)
        requires
            plan_wf(old(self).state(), old(self).pc + 1),
            old(self).pc < usize::MAX,
        ensures
            stepped(step_end(old(self).state()), r, old(self).state(), final(self).state(), old(self).pc + 1),
    {
        let n = self.frames.len();
        if n > 0 {
            let f = self.frames[n - 1];
            self.frames.pop();
            let target = self.blocks[f.end];
            self.emit_op(LlvmOp::Branch { target });
            self.position_at(f.end);
        }
        self.pc = self.pc + 1;
        Ok(false)
    }

    fn step_branch(&mut self, bc: &[u8], op: u8) -> (r: Result<bool, String>)
        requires
            plan_wf(old(self).state(), bc@.len() as int),
            old(self).pc < bc@.len(),
            op == 0x0C || op == 0x0D,
        ensures
            stepped(step_branch(bc@, op, old(self).state()), r, old(self).state(), final(self).state(), bc@.len() as int),
    {
        let len = bc.len();
        proof {
            crate::leb128::lemma_uleb32_advances(bc@, self.pc + 1, 0);
        }
        let (label, next) = match immediate(bc, self.pc + 1) {
            Ok(x) => x,
            Err(m) => {
                return Err(m);
            },
        };
        let n = self.frames.len();
        if op == 0x0C {
            if (label as usize) < n {
                let f = self.frames[n - 1 - label as usize];
                let b = if f.kind == BlockKind::Loop {
                    f.start
                } else {
                    f.end
                };
                let target = self.blocks[b];
                self.emit_op(LlvmOp::Branch { target });
            }
        } else {
            if self.stack.len() >= 1 {
                let cond = self.top(0);
                self.pop_values(1);
                if (label as usize) < n {
                    let f = self.frames[n - 1 - label as usize];
                    let b = if f.kind == BlockKind::Loop {
                        f.start
                    } else {
                        f.end
                    };
                    let target = self.blocks[b];
                    let nb = self.blocks.len();
                    self.append(BlockRole::BrIfFall);
                    let bit = self.ops.len();
                    self.emit_op(LlvmOp::TruncToI1 { value: cond });
                    let fall = self.blocks[nb];
                    self.emit_op(LlvmOp::CondBranch { cond: bit, then_target: target, else_target: fall });
                    self.position_at(nb);
                }
            }
        }
        self.pc = next;
        Ok(false)
    }

    fn step_call(&mut self, bc: &[u8], cx: &Context) -> (r: Result<bool, String>)
        requires
            plan_wf(old(self).state(), bc@.len() as int),
            old(self).pc < bc@.len(),
        ensures
            stepped(step_call(bc@, cx.view(), old(self).state()), r, old(self).state(), final(self).state(), bc@.len() as int),
    {
        let len = bc.len();
        proof {
            crate::leb128::lemma_uleb32_advances(bc@, self.pc + 1, 0);
        }
        let (callee, next) = match immediate(bc, self.pc + 1) {
            Ok(x) => x,
            Err(m) => {
                return Err(m);
            },
        };
        if callee == cx.own {
            let ghost s = self.state();
            let n = self.stack.len();
            let argc = if cx.params <= n {
                cx.params
            } else {
                n
            };
            let first = n - argc;
            let mut i = first;
            while i < n
                invariant
                    first <= i <= n,
                    n == self.stack@.len(),
                    first == n - argc,
                    self.stack@ == s.stack,
                    self.ops@ == s.ops + call_args(s.stack.subrange(first as int, i as int)),
                    self.pc == s.pc,
                    self.frames@ == s.frames,
                    self.blocks@ == s.blocks,
                    self.current == s.current,
                decreases n - i,
            {
                let value = self.stack[i];
                self.ops.push(LlvmOp::CallArg { value });
                proof {
                    assert(call_args(s.stack.subrange(first as int, i + 1)) =~= call_args(
                        s.stack.subrange(first as int, i as int),
                    ).push(LlvmOp::CallArg { value }));
                    assert(self.ops@ =~= s.ops + call_args(s.stack.subrange(first as int, i + 1)));
                }
                i = i + 1;
            }
            self.pop_values(argc);
            if cx.returns {
                self.emit_value_op(LlvmOp::Call { callee, argc });
            } else {
                self.emit_op(LlvmOp::Call { callee, argc });
            }
        }
        self.pc = next;
        Ok(false)
    }
}

/// The open blocks after `block`, `loop` or `if` in state `s`.
spec fn step_open_frames(s: PlanState, op: u8) -> Seq<BlockFrame> {
    let nb = s.blocks.len();
    if op == 0x02 {
        s.frames.push(BlockFrame { kind: BlockKind::Block, start: s.current as usize, end: nb as usize })
    } else if op == 0x03 {
        s.frames.push(BlockFrame { kind: BlockKind::Loop, start: nb as usize, end: (nb + 1) as usize })
    } else if s.stack.len() >= 1 {
        s.frames.push(BlockFrame { kind: BlockKind::If, start: nb as usize, end: (nb + 2) as usize })
    } else {
        s.frames
    }
}

/// The two-operand instruction of an opcode, if it is one.
fn binary_op_exec(op: u8) -> (r: Option<BinaryOp>)
    ensures
        r == binary_op(op),
{
    if op == 0x6A || op == 0x7C {
        Some(BinaryOp::Add)
    } else if op == 0x6B || op == 0x7D {
        Some(BinaryOp::Sub)
    } else if op == 0x6C || op == 0x7E {
        Some(BinaryOp::Mul)
    } else if op == 0x6D || op == 0x7F {
        Some(BinaryOp::SDiv)
    } else if op == 0x6E || op == 0x80 {
        Some(BinaryOp::UDiv)
    } else if op == 0x71 || op == 0x83 {
        Some(BinaryOp::And)
    } else if op == 0x72 || op == 0x84 {
        Some(BinaryOp::Or)
    } else if op == 0x73 || op == 0x85 {
        Some(BinaryOp::Xor)
    } else if op == 0x8C || op == 0x92 {
        Some(BinaryOp::FAdd)
    } else if op == 0x8D || op == 0x93 {
        Some(BinaryOp::FSub)
    } else if op == 0x8E || op == 0x94 {
        Some(BinaryOp::FMul)
    } else if op == 0x8F || op == 0x95 {
        Some(BinaryOp::FDiv)
    } else if op == 0x90 || op == 0x96 {
        Some(BinaryOp::FRem)
    } else {
        None
    }
}

/// The shift instruction of an opcode, if it is one.
fn shift_op_exec(op: u8) -> (r: Option<BinaryOp>)
    ensures
        r == shift_op(op),
{
    if op == 0x74 || op == 0x86 {
        Some(BinaryOp::Shl)
    } else if op == 0x75 || op == 0x87 {
        Some(BinaryOp::AShr)
    } else if op == 0x76 || op == 0x88 {
        Some(BinaryOp::LShr)
    } else {
        None
    }
}

/// The integer comparison of an opcode, if it is one.
fn int_predicate_exec(op: u8) -> (r: Option<IntPredicate>)
    ensures
        r == int_predicate(op),
{
    if op == 0x46 {
        Some(IntPredicate::Eq)
    } else if op == 0x47 {
        Some(IntPredicate::Ne)
    } else if op == 0x48 {
        Some(IntPredicate::Slt)
    } else if op == 0x49 {
        Some(IntPredicate::Ult)
    } else if op == 0x4A {
        Some(IntPredicate::Sgt)
    } else if op == 0x4B {
        Some(IntPredicate::Ugt)
    } else if op == 0x4C {
        Some(IntPredicate::Sle)
    } else if op == 0x4D {
        Some(IntPredicate::Ule)
    } else if op == 0x4E {
        Some(IntPredicate::Sge)
    } else if op == 0x4F {
        Some(IntPredicate::Uge)
    } else {
        None
    }
}

/// The floating-point comparison of an opcode, if it is one.
fn real_predicate_exec(op: u8) -> (r: Option<RealPredicate>)
    ensures
        r == real_predicate(op),
{
    if op == 0x5B || op == 0x61 {
        Some(RealPredicate::Oeq)
    } else if op == 0x5C || op == 0x62 {
        Some(RealPredicate::One)
    } else if op == 0x5D || op == 0x63 {
        Some(RealPredicate::Olt)
    } else if op == 0x5E || op == 0x64 {
        Some(RealPredicate::Ogt)
    } else if op == 0x5F || op == 0x65 {
        Some(RealPredicate::Ole)
    } else if op == 0x60 || op == 0x66 {
        Some(RealPredicate::Oge)
    } else {
        None
    }
}


/// Plans the lowering of a body, after the prologue `ops`.
fn plan_body(bc: &[u8], cx: &Context, ops: Vec<LlvmOp>) -> (r: Result<Vec<LlvmOp>, String>)
    ensures
        match plan_run(bc@, cx.view(), start_state(ops@), bc@.len()) {
            Plan::Ops(o) => r is Ok && r->Ok_0@ == o,
            Plan::Failed(m) => r is Err && r->Err_0@ == m,
            Plan::Stuck => false,
        },
{
    let len = bc.len();
    let mut p = Planner { pc: 0, stack: Vec::new(), frames: Vec::new(), blocks: vec![0usize], current: 0, ops };
    let ghost start = p.state();
    let ghost mut fuel: nat = bc@.len();
    proof {
        assert(start =~= start_state(ops@));
    }
    while p.pc < len
        invariant
            len == bc@.len(),
            plan_wf(p.state(), len as int),
            fuel + p.pc >= len,
            plan_run(bc@, cx.view(), p.state(), fuel) == plan_run(bc@, cx.view(), start, bc@.len()),
            start == start_state(ops@),
        decreases len - p.pc,
    {
        let ghost s = p.state();
        let op = bc[p.pc];
        assert(plan_run(bc@, cx.view(), s, fuel) == match plan_step(bc@, cx.view(), s) {
            PlanStep::Next(t) => plan_run(bc@, cx.view(), t, (fuel - 1) as nat),
            PlanStep::Finish(o) => Plan::Ops(o),
            PlanStep::Fail(m) => Plan::Failed(m),
        });
        if op == 0x00 {
            p.ops.push(LlvmOp::Unreachable);
            return Ok(p.ops);
        }
        if op == 0x0F {
            let ret = if p.stack.len() > 0 {
                LlvmOp::Return { value: p.top(0) }
            } else {
                LlvmOp::ReturnVoid
            };
            p.ops.push(ret);
            return Ok(p.ops);
        }
        let r = if op == 0x01 {
            p.pc = p.pc + 1;
            Ok(false)
        } else if op == 0x20 || op == 0x21 || op == 0x22 {
            p.step_local(bc, op, cx)
        } else if op == 0x41 || op == 0x42 || op == 0x43 || op == 0x44 {
            p.step_const(bc, op)
        } else if op == 0x1A || binary_op_exec(op).is_some() || shift_op_exec(op).is_some() || op == 0x45
            || int_predicate_exec(op).is_some() || real_predicate_exec(op).is_some() || op == 0x91 || op
            == 0x97 || op == 0x98 || op == 0x99 {
            p.step_stack_op(op)
        } else if 0x28 <= op && op <= 0x3E {
            p.step_memory(bc, op)
        } else if op == 0x02 || op == 0x03 || op == 0x04 {
            p.step_open(bc, op)
        } else if op == 0x05 {
            p.step_else()
        } else if op == 0x0B {
            p.step_end()
        } else if op == 0x0C || op == 0x0D {
            p.step_branch(bc, op)
        } else if op == 0x10 {
            p.step_call(bc, cx)
        } else if op == 0x11 {
            proof {
                crate::leb128::lemma_uleb32_advances(bc@, p.pc + 1, 0);
            }
            match immediate(bc, p.pc + 1) {
                Err(m) => Err(m),
                Ok((_type_idx, next)) => {
                    proof {
                        if next < bc@.len() {
                            crate::leb128::lemma_uleb32_advances(bc@, next as int, 0);
                        }
                    }
                    match immediate(bc, next) {
                        Err(m) => Err(m),
                        Ok(_) => {
                            proof {
                                reveal_strlit("call_indirect not yet supported");
                            }
                            Err(String::from_str("call_indirect not yet supported"))
                        },
                    }
                },
            }
        } else {
            Err(unsupported(op))
        };
        assert(stepped(plan_step(bc@, cx.view(), s), r, s, p.state(), len as int));
        match r {
            Err(m) => {
                return Err(m);
            },
            Ok(_) => {},
        }
        proof {
            fuel = (fuel - 1) as nat;
        }
    }
    let ret = if p.stack.len() > 0 {
        LlvmOp::Return { value: p.top(0) }
    } else {
        LlvmOp::ReturnVoid
    };
    p.ops.push(ret);
    Ok(p.ops)
}


/// Plans the opening of a function with `params` parameters and the given
/// locals, and records the slot of each local index.
fn plan_prologue(params: usize, locals: &[Local]) -> (r: (Vec<LlvmOp>, std::collections::HashMap<u32, usize>))
    requires
        prologue_fits(params as nat, locals@),
    ensures
        (r.0@, r.1@) == prologue(params as nat, locals@),
{
    broadcast use vstd::std_specs::hash::group_hash_axioms;

    let mut ops: Vec<LlvmOp> = Vec::new();
    let mut map: std::collections::HashMap<u32, usize> = std::collections::HashMap::new();
    ops.push(LlvmOp::EntryBlock);
    let mut i: usize = 0;
    while i < params
        invariant
            i <= params <= u32::MAX,
            ops@ == seq![LlvmOp::EntryBlock] + Seq::new(i as nat, |k: int| LlvmOp::ParamSlot { index: k as u32 }),
            map@ == Map::new(|k: u32| k < i, |k: u32| (k + 1) as usize),
        decreases params - i,
    {
        ops.push(LlvmOp::ParamSlot { index: i as u32 });
        map.insert(i as u32, i + 1);
        proof {
            assert(ops@ =~= seq![LlvmOp::EntryBlock] + Seq::new((i + 1) as nat, |k: int| LlvmOp::ParamSlot { index: k as u32 }));
            assert(map@ =~= Map::new(|k: u32| k < i + 1, |k: u32| (k + 1) as usize));
        }
        i = i + 1;
    }
    proof {
        assert(ops@ =~= param_ops(params as nat));
        assert(map@ =~= param_map(params as nat));
    }
    let offset = params as u32;
    let mut li: usize = 0;
    while li < locals.len()
        invariant
            li <= locals@.len() <= u32::MAX,
            offset == params,
            prologue_fits(params as nat, locals@),
            local_slots(locals@, params as int, li as int, 0, ops@, map@) == prologue(params as nat, locals@),
        decreases locals@.len() - li,
    {
        let local = locals[li];
        let mut j: u32 = 0;
        while j < local.count
            invariant
                li < locals@.len() <= u32::MAX,
                local == locals@[li as int],
                offset == params,
                prologue_fits(params as nat, locals@),
                j <= local.count,
                local_slots(locals@, params as int, li as int, j as int, ops@, map@) == prologue(params as nat, locals@),
            decreases local.count - j,
        {
            let slot = ops.len();
            ops.push(LlvmOp::LocalSlot { ty: local.type_ });
            match local.type_ {
                ValType::Num(nt) => {
                    ops.push(LlvmOp::StoreZero { slot, ty: nt });
                    proof {
                        assert(locals@[li as int].count > 0);
                        assert(params + li * local.count + j <= u32::MAX) by (nonlinear_arith)
                            requires
                                params + li * local.count + local.count - 1 <= u32::MAX,
                                j < local.count,
                        ;
                        assert(li * local.count <= u32::MAX) by (nonlinear_arith)
                            requires
                                params + li * local.count + local.count - 1 <= u32::MAX,
                                j < local.count,
                        ;
                    }
                    let idx = offset + (li as u32) * local.count + j;
                    map.insert(idx, slot);
                },
                ValType::Ref(_) => {},
            }
            j = j + 1;
        }
        li = li + 1;
    }
    (ops, map)
}

/// The runtime helper that a load or store calls, and the type it moves.
pub open spec fn helper_of(op: u8) -> Option<(Seq<char>, NumType)> {
    if op == 0x28 {
        Some(("llvm_jit_i32_load"@, NumType::I32))
    } else if op == 0x29 {
        Some(("llvm_jit_i64_load"@, NumType::I64))
    } else if op == 0x2A {
        Some(("llvm_jit_f32_load"@, NumType::F32))
    } else if op == 0x2B {
        Some(("llvm_jit_f64_load"@, NumType::F64))
    } else if op == 0x2C {
        Some(("llvm_jit_i32_load8_s"@, NumType::I32))
    } else if op == 0x2D {
        Some(("llvm_jit_i32_load8_u"@, NumType::I32))
    } else if op == 0x2E {
        Some(("llvm_jit_i32_load16_s"@, NumType::I32))
    } else if op == 0x2F {
        Some(("llvm_jit_i32_load16_u"@, NumType::I32))
    } else if op == 0x30 {
        Some(("llvm_jit_i64_load8_s"@, NumType::I64))
    } else if op == 0x31 {
        Some(("llvm_jit_i64_load8_u"@, NumType::I64))
    } else if op == 0x32 {
        Some(("llvm_jit_i64_load16_s"@, NumType::I64))
    } else if op == 0x33 {
        Some(("llvm_jit_i64_load16_u"@, NumType::I64))
    } else if op == 0x34 {
        Some(("llvm_jit_i64_load32_s"@, NumType::I64))
    } else if op == 0x35 {
        Some(("llvm_jit_i64_load32_u"@, NumType::I64))
    } else if op == 0x36 {
        Some(("llvm_jit_i32_store"@, NumType::I32))
    } else if op == 0x37 {
        Some(("llvm_jit_i64_store"@, NumType::I64))
    } else if op == 0x38 {
        Some(("llvm_jit_f32_store"@, NumType::F32))
    } else if op == 0x39 {
        Some(("llvm_jit_f64_store"@, NumType::F64))
    } else if op == 0x3A {
        Some(("llvm_jit_i32_store8"@, NumType::I32))
    } else if op == 0x3B {
        Some(("llvm_jit_i32_store16"@, NumType::I32))
    } else if op == 0x3C {
        Some(("llvm_jit_i64_store8"@, NumType::I64))
    } else if op == 0x3D {
        Some(("llvm_jit_i64_store16"@, NumType::I64))
    } else if op == 0x3E {
        Some(("llvm_jit_i64_store32"@, NumType::I64))
    } else {
        None
    }
}

/// Returns the runtime helper that a load or store calls, and the type it
/// moves.
pub fn memory_helper(op: u8) -> (r: Option<(&'static str, NumType)>)
    ensures
        match helper_of(op) {
            Some((name, ty)) => r is Some && r->Some_0.0@ == name && r->Some_0.1 == ty,
            None => r is None,
        },
{
    proof {
        reveal_strlit("llvm_jit_i32_load");
        reveal_strlit("llvm_jit_i64_load");
        reveal_strlit("llvm_jit_f32_load");
        reveal_strlit("llvm_jit_f64_load");
        reveal_strlit("llvm_jit_i32_load8_s");
        reveal_strlit("llvm_jit_i32_load8_u");
        reveal_strlit("llvm_jit_i32_load16_s");
        reveal_strlit("llvm_jit_i32_load16_u");
        reveal_strlit("llvm_jit_i64_load8_s");
        reveal_strlit("llvm_jit_i64_load8_u");
        reveal_strlit("llvm_jit_i64_load16_s");
        reveal_strlit("llvm_jit_i64_load16_u");
        reveal_strlit("llvm_jit_i64_load32_s");
        reveal_strlit("llvm_jit_i64_load32_u");
        reveal_strlit("llvm_jit_i32_store");
        reveal_strlit("llvm_jit_i64_store");
        reveal_strlit("llvm_jit_f32_store");
        reveal_strlit("llvm_jit_f64_store");
        reveal_strlit("llvm_jit_i32_store8");
        reveal_strlit("llvm_jit_i32_store16");
        reveal_strlit("llvm_jit_i64_store8");
        reveal_strlit("llvm_jit_i64_store16");
        reveal_strlit("llvm_jit_i64_store32");
    }
    if op == 0x28 {
        Some(("llvm_jit_i32_load", NumType::I32))
    } else if op == 0x29 {
        Some(("llvm_jit_i64_load", NumType::I64))
    } else if op == 0x2A {
        Some(("llvm_jit_f32_load", NumType::F32))
    } else if op == 0x2B {
        Some(("llvm_jit_f64_load", NumType::F64))
    } else if op == 0x2C {
        Some(("llvm_jit_i32_load8_s", NumType::I32))
    } else if op == 0x2D {
        Some(("llvm_jit_i32_load8_u", NumType::I32))
    } else if op == 0x2E {
        Some(("llvm_jit_i32_load16_s", NumType::I32))
    } else if op == 0x2F {
        Some(("llvm_jit_i32_load16_u", NumType::I32))
    } else if op == 0x30 {
        Some(("llvm_jit_i64_load8_s", NumType::I64))
    } else if op == 0x31 {
        Some(("llvm_jit_i64_load8_u", NumType::I64))
    } else if op == 0x32 {
        Some(("llvm_jit_i64_load16_s", NumType::I64))
    } else if op == 0x33 {
        Some(("llvm_jit_i64_load16_u", NumType::I64))
    } else if op == 0x34 {
        Some(("llvm_jit_i64_load32_s", NumType::I64))
    } else if op == 0x35 {
        Some(("llvm_jit_i64_load32_u", NumType::I64))
    } else if op == 0x36 {
        Some(("llvm_jit_i32_store", NumType::I32))
    } else if op == 0x37 {
        Some(("llvm_jit_i64_store", NumType::I64))
    } else if op == 0x38 {
        Some(("llvm_jit_f32_store", NumType::F32))
    } else if op == 0x39 {
        Some(("llvm_jit_f64_store", NumType::F64))
    } else if op == 0x3A {
        Some(("llvm_jit_i32_store8", NumType::I32))
    } else if op == 0x3B {
        Some(("llvm_jit_i32_store16", NumType::I32))
    } else if op == 0x3C {
        Some(("llvm_jit_i64_store8", NumType::I64))
    } else if op == 0x3D {
        Some(("llvm_jit_i64_store16", NumType::I64))
    } else if op == 0x3E {
        Some(("llvm_jit_i64_store32", NumType::I64))
    } else {
        None
    }
}

/// Whether a function's prologue can be planned: it has no type, or its
/// local indices fit in 32 bits.
pub open spec fn plannable(func: Func, idx: u32, m: Module) -> bool {
    match defined_type(m, idx) {
        Some(ft) => prologue_fits(ft.params@.len(), func.locals@),
        None => true,
    }
}

/// Plans the lowering of function `func_idx` of `module` (whose definition
/// is `func`) to LLVM IR: the operations, or the message of the failure.
pub fn plan_function(func: &Func, func_idx: u32, module: &Module) -> (r: Result<Vec<LlvmOp>, WasmError>)
    requires
        plannable(*func, func_idx, *module),
    ensures
        match function_plan(*func, func_idx, *module) {
            Plan::Ops(o) => r is Ok && r->Ok_0@ == o,
            Plan::Failed(m) => r matches Err(WasmError::Runtime(x)) && x@ == m,
            Plan::Stuck => false,
        },
        r matches Ok(o) ==> well_formed(o@),
{
    proof {
        lemma_plan_well_formed(*func, func_idx, *module);
    }
    let func_type = match module.func_type(func_idx) {
        Some(t) => t,
        None => {
            let mut m = String::from_str("Function type not found for ");
            push_decimal(&mut m, func_idx as u64);
            proof {
                reveal_strlit("Function type not found for ");
            }
            return Err(WasmError::Runtime(m));
        },
    };
    let (ops, locals) = plan_prologue(func_type.params.len(), func.locals.as_slice());
    let cx = Context {
        locals,
        own: func_idx,
        params: func_type.params.len(),
        returns: func_type.results.len() > 0,
    };
    match plan_body(func.body.as_slice(), &cx, ops) {
        Ok(o) => {
            proof {
                assert(o@.len() == o.len());
            }
            Ok(o)
        },
        Err(m) => Err(WasmError::Runtime(m)),
    }
}


/// What an operation makes that later operations refer to.
pub enum Made {
    Value,
    Slot,
    Block,
}

/// Whether an operation makes something of the given kind.
pub open spec fn makes(op: LlvmOp, kind: Made) -> bool {
    match kind {
        Made::Slot => op is ParamSlot || op is LocalSlot,
        Made::Block => op is EntryBlock || op is AppendBlock,
        Made::Value => match op {
            LlvmOp::EntryBlock | LlvmOp::StoreZero { .. } | LlvmOp::Unreachable | LlvmOp::StoreLocal { .. }
            | LlvmOp::MemStore { .. } | LlvmOp::AppendBlock { .. } | LlvmOp::Branch { .. }
            | LlvmOp::CondBranch { .. } | LlvmOp::PositionAtEnd { .. } | LlvmOp::CallArg { .. }
            | LlvmOp::Return { .. } | LlvmOp::ReturnVoid => false,
            _ => true,
        },
    }
}

/// The references of an operation, each with the kind it must refer to.
pub open spec fn refs(op: LlvmOp) -> Seq<(usize, Made)> {
    match op {
        LlvmOp::StoreZero { slot, .. } => seq![(slot, Made::Slot)],
        LlvmOp::LoadLocal { slot } => seq![(slot, Made::Slot)],
        LlvmOp::StoreLocal { value, slot } => seq![(value, Made::Value), (slot, Made::Slot)],
        LlvmOp::Binary { lhs, rhs, .. } => seq![(lhs, Made::Value), (rhs, Made::Value)],
        LlvmOp::IntCompare { lhs, rhs, .. } => seq![(lhs, Made::Value), (rhs, Made::Value)],
        LlvmOp::FloatCompare { lhs, rhs, .. } => seq![(lhs, Made::Value), (rhs, Made::Value)],
        LlvmOp::TruncToI8 { value } => seq![(value, Made::Value)],
        LlvmOp::ZExtToI32 { value, .. } => seq![(value, Made::Value)],
        LlvmOp::FNeg { value, .. } => seq![(value, Made::Value)],
        LlvmOp::FPTrunc { value } => seq![(value, Made::Value)],
        LlvmOp::FPExt { value } => seq![(value, Made::Value)],
        LlvmOp::MemLoad { addr, .. } => seq![(addr, Made::Value)],
        LlvmOp::MemStore { addr, value, .. } => seq![(addr, Made::Value), (value, Made::Value)],
        LlvmOp::Branch { target } => seq![(target, Made::Block)],
        LlvmOp::TruncToI1 { value } => seq![(value, Made::Value)],
        LlvmOp::CondBranch { cond, then_target, else_target } => seq![
            (cond, Made::Value),
            (then_target, Made::Block),
            (else_target, Made::Block),
        ],
        LlvmOp::PositionAtEnd { block } => seq![(block, Made::Block)],
        LlvmOp::CallArg { value } => seq![(value, Made::Value)],
        LlvmOp::Return { value } => seq![(value, Made::Value)],
        _ => seq![],
    }
}

/// Whether position `r` of `ops`, before `limit`, made something of `kind`.
pub open spec fn made_before(ops: Seq<LlvmOp>, limit: int, r: int, kind: Made) -> bool {
    0 <= r < limit && limit <= ops.len() && makes(ops[r], kind)
}

/// Whether every operation of a plan refers only to earlier operations
/// that made what it refers to.
pub open spec fn well_formed(ops: Seq<LlvmOp>) -> bool {
    forall|i: int, j: int|
        #![trigger refs(ops[i])[j]]
        0 <= i < ops.len() && 0 <= j < refs(ops[i]).len() ==> made_before(
            ops,
            i,
            refs(ops[i])[j].0 as int,
            refs(ops[i])[j].1,
        )
}

/// What a lowering keeps true of its state: the plan so far is well
/// formed, and every value on the stack, every basic block, every open
/// block and the current block, and every local's slot exist.
pub open spec fn plan_inv(s: PlanState, locals: Map<u32, usize>) -> bool {
    &&& well_formed(s.ops)
    &&& forall|k: int|
        #![trigger s.stack[k]]
        0 <= k < s.stack.len() ==> made_before(s.ops, s.ops.len() as int, s.stack[k] as int, Made::Value)
    &&& forall|b: int|
        #![trigger s.blocks[b]]
        0 <= b < s.blocks.len() ==> made_before(s.ops, s.ops.len() as int, s.blocks[b] as int, Made::Block)
    &&& forall|x: u32|
        #![trigger locals[x]]
        locals.contains_key(x) ==> made_before(s.ops, s.ops.len() as int, locals[x] as int, Made::Slot)
    &&& 0 <= s.current < s.blocks.len()
    &&& forall|f: int|
        #![trigger s.frames[f]]
        0 <= f < s.frames.len() ==> s.frames[f].start < s.blocks.len() && s.frames[f].end < s.blocks.len()
}

/// Planning an operation whose references exist keeps a plan well formed,
/// and what existed before still exists.
pub proof fn lemma_push_well_formed(ops: Seq<LlvmOp>, op: LlvmOp)
    requires
        well_formed(ops),
        forall|j: int|
            #![trigger refs(op)[j]]
            0 <= j < refs(op).len() ==> made_before(ops, ops.len() as int, refs(op)[j].0 as int, refs(op)[j].1),
    ensures
        well_formed(ops.push(op)),
        forall|r: int, kind: Made|
            #![trigger made_before(ops.push(op), (ops.len() + 1) as int, r, kind)]
            made_before(ops, ops.len() as int, r, kind) ==> made_before(ops.push(op), (ops.len() + 1) as int, r, kind),
{
    let t = ops.push(op);
    assert forall|i: int, j: int|
        0 <= i < t.len() && 0 <= j < refs(t[i]).len() implies made_before(t, i, refs(t[i])[j].0 as int, refs(t[i])[j].1) by {
        if i < ops.len() {
            assert(t[i] == ops[i]);
            assert(made_before(ops, i, refs(ops[i])[j].0 as int, refs(ops[i])[j].1));
            assert(t[refs(ops[i])[j].0 as int] == ops[refs(ops[i])[j].0 as int]);
        } else {
            assert(t[i] == op);
            assert(made_before(ops, ops.len() as int, refs(op)[j].0 as int, refs(op)[j].1));
            assert(t[refs(op)[j].0 as int] == ops[refs(op)[j].0 as int]);
        }
    }
    assert forall|r: int, kind: Made|
        made_before(ops, ops.len() as int, r, kind) implies made_before(t, (ops.len() + 1) as int, r, kind) by {
        assert(t[r] == ops[r]);
    }
}


/// Whether every reference of an operation exists among `ops`.
pub open spec fn refs_made(ops: Seq<LlvmOp>, op: LlvmOp) -> bool {
    forall|j: int|
        #![trigger refs(op)[j]]
        0 <= j < refs(op).len() ==> made_before(ops, ops.len() as int, refs(op)[j].0 as int, refs(op)[j].1)
}

/// Planning an operation whose references exist keeps the invariant; so
/// does pushing its value when it makes one.
proof fn lemma_emit(s: PlanState, op: LlvmOp, locals: Map<u32, usize>)
    requires
        plan_inv(s, locals),
        refs_made(s.ops, op),
        s.ops.len() < usize::MAX,
    ensures
        plan_inv(emit(s, op), locals),
        makes(op, Made::Value) ==> plan_inv(emit_value(s, op), locals),
{
    lemma_push_well_formed(s.ops, op);
    let n = (s.ops.len() + 1) as int;
    let t = s.ops.push(op);
    assert forall|k: int| 0 <= k < s.stack.len() implies made_before(t, n, #[trigger] s.stack[k] as int, Made::Value) by {
        assert(made_before(s.ops, s.ops.len() as int, s.stack[k] as int, Made::Value));
    }
    assert forall|b: int| 0 <= b < s.blocks.len() implies made_before(t, n, #[trigger] s.blocks[b] as int, Made::Block) by {
        assert(made_before(s.ops, s.ops.len() as int, s.blocks[b] as int, Made::Block));
    }
    assert forall|x: u32| locals.contains_key(x) implies made_before(t, n, #[trigger] locals[x] as int, Made::Slot) by {
        assert(made_before(s.ops, s.ops.len() as int, locals[x] as int, Made::Slot));
    }
    if makes(op, Made::Value) {
        let v = emit_value(s, op);
        assert forall|k: int| 0 <= k < v.stack.len() implies made_before(v.ops, v.ops.len() as int, #[trigger] v.stack[k] as int, Made::Value) by {
            if k < s.stack.len() {
                assert(v.stack[k] == s.stack[k]);
            } else {
                assert(v.stack[k] == s.ops.len() as usize);
            }
        }
    }
}

/// Taking values off the stack, or moving to another position, keeps the
/// invariant.
proof fn lemma_popped(s: PlanState, n: int, pc: int, locals: Map<u32, usize>)
    requires
        plan_inv(s, locals),
        0 <= n <= s.stack.len(),
    ensures
        plan_inv(popped(s, n), locals),
        plan_inv(at(s, pc), locals),
{
    let p = popped(s, n);
    assert forall|k: int| 0 <= k < p.stack.len() implies made_before(p.ops, p.ops.len() as int, #[trigger] p.stack[k] as int, Made::Value) by {
        assert(p.stack[k] == s.stack[k]);
    }
}

/// Appending a basic block keeps the invariant.
proof fn lemma_append_block(s: PlanState, role: BlockRole, locals: Map<u32, usize>)
    requires
        plan_inv(s, locals),
        s.ops.len() < usize::MAX,
    ensures
        plan_inv(append_block(s, role), locals),
        append_block(s, role).blocks.len() == s.blocks.len() + 1,
        append_block(s, role).ops.len() == s.ops.len() + 1,
        forall|b: int| 0 <= b < s.blocks.len() ==> #[trigger] append_block(s, role).blocks[b] == s.blocks[b],
{
    let op = LlvmOp::AppendBlock { role };
    lemma_emit(s, op, locals);
    let e = emit(s, op);
    let a = append_block(s, role);
    assert forall|b: int| 0 <= b < a.blocks.len() implies made_before(a.ops, a.ops.len() as int, #[trigger] a.blocks[b] as int, Made::Block) by {
        if b < s.blocks.len() {
            assert(a.blocks[b] == e.blocks[b]);
        } else {
            assert(a.blocks[b] == s.ops.len() as usize);
        }
    }
}

/// Moving the builder to an existing block keeps the invariant.
proof fn lemma_position(s: PlanState, b: int, locals: Map<u32, usize>)
    requires
        plan_inv(s, locals),
        0 <= b < s.blocks.len(),
        s.ops.len() < usize::MAX,
    ensures
        plan_inv(position(s, b), locals),
        position(s, b).blocks == s.blocks,
        position(s, b).ops.len() == s.ops.len() + 1,
{
    let op = LlvmOp::PositionAtEnd { block: s.blocks[b] };
    assert(made_before(s.ops, s.ops.len() as int, s.blocks[b] as int, Made::Block));
    assert(refs_made(s.ops, op));
    lemma_emit(s, op, locals);
}

/// What lowering one instruction keeps: the plan only grows, and a next
/// state keeps the invariant, or the finished plan is well formed, as long
/// as positions fit in `usize`.
pub open spec fn step_ok(st: PlanStep, s: PlanState, locals: Map<u32, usize>) -> bool {
    match st {
        PlanStep::Next(t) => s.ops.len() <= t.ops.len() && (t.ops.len() <= usize::MAX ==> plan_inv(
            t,
            locals,
        )),
        PlanStep::Finish(o) => s.ops.len() <= o.len() && (o.len() <= usize::MAX ==> well_formed(o)),
        PlanStep::Fail(_) => true,
    }
}

/// What existed in a plan still exists in any plan that extends it.
proof fn lemma_prefix_made(a: Seq<LlvmOp>, b: Seq<LlvmOp>, r: int, kind: Made)
    requires
        a.len() <= b.len(),
        b.subrange(0, a.len() as int) =~= a,
        made_before(a, a.len() as int, r, kind),
    ensures
        made_before(b, b.len() as int, r, kind),
{
    assert(b[r] == b.subrange(0, a.len() as int)[r]);
}

/// The values on the stack were made by the plan.
proof fn lemma_top(s: PlanState, k: int, locals: Map<u32, usize>)
    requires
        plan_inv(s, locals),
        0 <= k < s.stack.len(),
    ensures
        made_before(s.ops, s.ops.len() as int, from_top(s, k) as int, Made::Value),
{
    assert(s.stack[s.stack.len() - 1 - k] == from_top(s, k));
}

/// Taking `n` values off the stack and planning `op` (pushing its value
/// when `value` holds) before moving to `pc` keeps the invariant.
proof fn lemma_step_emit(s: PlanState, n: int, op: LlvmOp, value: bool, pc: int, locals: Map<u32, usize>)
    requires
        plan_inv(s, locals),
        0 <= n <= s.stack.len(),
        refs_made(s.ops, op),
        value ==> makes(op, Made::Value),
    ensures
        step_ok(
            PlanStep::Next(
                at(
                    if value {
                        emit_value(popped(s, n), op)
                    } else {
                        emit(popped(s, n), op)
                    },
                    pc,
                ),
            ),
            s,
            locals,
        ),
{
    lemma_popped(s, n, pc, locals);
    let p = popped(s, n);
    if p.ops.len() < usize::MAX {
        lemma_emit(p, op, locals);
        if value {
            lemma_popped(emit_value(p, op), 0, pc, locals);
        } else {
            lemma_popped(emit(p, op), 0, pc, locals);
        }
    }
}

/// Lowering an instruction that makes one value from `n` operands keeps
/// the invariant.
proof fn lemma_step_operands(s: PlanState, n: int, op: LlvmOp, locals: Map<u32, usize>)
    requires
        plan_inv(s, locals),
        0 <= n,
        s.stack.len() >= n ==> refs_made(s.ops, op) && makes(op, Made::Value),
    ensures
        step_ok(step_operands(s, n, op), s, locals),
{
    if s.stack.len() >= n {
        lemma_step_emit(s, n, op, true, s.pc + 1, locals);
    } else {
        lemma_popped(s, 0, s.pc + 1, locals);
    }
}

proof fn lemma_step_binary(op: u8, s: PlanState, locals: Map<u32, usize>)
    requires
        plan_inv(s, locals),
    ensures
        step_ok(step_binary(op, s), s, locals),
{
    if s.stack.len() >= 2 {
        lemma_top(s, 0, locals);
        lemma_top(s, 1, locals);
        let o = LlvmOp::Binary { opcode: op, op: binary_op(op)->Some_0, lhs: from_top(s, 1), rhs: from_top(s, 0) };
        assert(refs(o)[0] == (from_top(s, 1), Made::Value));
        assert(refs(o)[1] == (from_top(s, 0), Made::Value));
        lemma_step_operands(s, 2, o, locals);
    } else {
        lemma_popped(s, 0, s.pc + 1, locals);
    }
}

/// Planning two operations, the second of which uses the value of the
/// first, keeps the invariant.
proof fn lemma_two_ops(s: PlanState, first: LlvmOp, second: LlvmOp, locals: Map<u32, usize>)
    requires
        plan_inv(s, locals),
        refs_made(s.ops, first),
        makes(first, Made::Value),
        makes(second, Made::Value),
        s.ops.len() + 2 <= usize::MAX,
        forall|j: int|
            #![trigger refs(second)[j]]
            0 <= j < refs(second).len() ==> refs(second)[j] == (s.ops.len() as usize, Made::Value)
                || made_before(s.ops, s.ops.len() as int, refs(second)[j].0 as int, refs(second)[j].1),
    ensures
        plan_inv(emit_value(emit(s, first), second), locals),
{
    lemma_emit(s, first, locals);
    let t = emit(s, first);
    assert forall|j: int| 0 <= j < refs(second).len() implies made_before(
        t.ops,
        t.ops.len() as int,
        #[trigger] refs(second)[j].0 as int,
        refs(second)[j].1,
    ) by {
        if refs(second)[j] == (s.ops.len() as usize, Made::Value) {
            assert(t.ops[s.ops.len() as int] == first);
        } else {
            lemma_prefix_made(s.ops, t.ops, refs(second)[j].0 as int, refs(second)[j].1);
        }
    }
    lemma_emit(t, second, locals);
}

proof fn lemma_step_shift(op: u8, s: PlanState, locals: Map<u32, usize>)
    requires
        plan_inv(s, locals),
    ensures
        step_ok(step_shift(op, s), s, locals),
{
    if s.stack.len() >= 2 {
        lemma_top(s, 0, locals);
        lemma_top(s, 1, locals);
        let p = popped(s, 2);
        lemma_popped(s, 2, s.pc, locals);
        let first = LlvmOp::TruncToI8 { value: from_top(s, 0) };
        let second = LlvmOp::Binary {
            opcode: op,
            op: shift_op(op)->Some_0,
            lhs: from_top(s, 1),
            rhs: s.ops.len() as usize,
        };
        assert(refs(first)[0] == (from_top(s, 0), Made::Value));
        assert(refs(second)[0] == (from_top(s, 1), Made::Value));
        assert(refs(second)[1] == (s.ops.len() as usize, Made::Value));
        if s.ops.len() + 2 <= usize::MAX {
            lemma_two_ops(p, first, second, locals);
            lemma_popped(emit_value(emit(p, first), second), 0, s.pc + 1, locals);
        }
    } else {
        lemma_popped(s, 0, s.pc + 1, locals);
    }
}

proof fn lemma_step_compare(op: u8, s: PlanState, locals: Map<u32, usize>)
    requires
        plan_inv(s, locals),
    ensures
        step_ok(step_compare(op, s), s, locals),
{
    if s.stack.len() >= 2 {
        lemma_top(s, 0, locals);
        lemma_top(s, 1, locals);
        let p = popped(s, 2);
        lemma_popped(s, 2, s.pc, locals);
        let first = if int_predicate(op) is Some {
            LlvmOp::IntCompare {
                opcode: op,
                pred: int_predicate(op)->Some_0,
                lhs: from_top(s, 1),
                rhs: from_top(s, 0),
            }
        } else {
            LlvmOp::FloatCompare {
                opcode: op,
                pred: real_predicate(op)->Some_0,
                lhs: from_top(s, 1),
                rhs: from_top(s, 0),
            }
        };
        let second = LlvmOp::ZExtToI32 { opcode: op, value: s.ops.len() as usize };
        assert(refs(first)[0] == (from_top(s, 1), Made::Value));
        assert(refs(first)[1] == (from_top(s, 0), Made::Value));
        assert(refs(second)[0] == (s.ops.len() as usize, Made::Value));
        if s.ops.len() + 2 <= usize::MAX {
            lemma_two_ops(p, first, second, locals);
            lemma_popped(emit_value(emit(p, first), second), 0, s.pc + 1, locals);
        }
    } else {
        lemma_popped(s, 0, s.pc + 1, locals);
    }
}

proof fn lemma_step_eqz(s: PlanState, locals: Map<u32, usize>)
    requires
        plan_inv(s, locals),
    ensures
        step_ok(step_eqz(s), s, locals),
{
    if s.stack.len() >= 1 {
        lemma_top(s, 0, locals);
        let p = popped(s, 1);
        lemma_popped(s, 1, s.pc, locals);
        let zero = LlvmOp::ConstInt { ty: NumType::I32, value: 0, sign_extend: false };
        let first = LlvmOp::IntCompare {
            opcode: 0x45,
            pred: IntPredicate::Eq,
            lhs: from_top(s, 0),
            rhs: s.ops.len() as usize,
        };
        let second = LlvmOp::ZExtToI32 { opcode: 0x45, value: (s.ops.len() + 1) as usize };
        if s.ops.len() + 3 <= usize::MAX {
            lemma_emit(p, zero, locals);
            let z = emit(p, zero);
            lemma_prefix_made(p.ops, z.ops, from_top(s, 0) as int, Made::Value);
            assert(z.ops[s.ops.len() as int] == zero);
            assert(refs(first)[0] == (from_top(s, 0), Made::Value));
            assert(refs(first)[1] == (s.ops.len() as usize, Made::Value));
            assert(refs(second)[0] == (z.ops.len() as usize, Made::Value));
            lemma_two_ops(z, first, second, locals);
            lemma_popped(emit_value(emit(z, first), second), 0, s.pc + 1, locals);
        }
    } else {
        lemma_popped(s, 0, s.pc + 1, locals);
    }
}

proof fn lemma_step_local(bc: Seq<u8>, op: u8, cx: PlanContext, s: PlanState)
    requires
        plan_inv(s, cx.locals),
    ensures
        step_ok(step_local(bc, op, cx, s), s, cx.locals),
{
    let locals = cx.locals;
    match uleb32(bc, s.pc + 1) {
        Uleb32::Done { value: idx, next } => {
            if locals.contains_key(idx) {
                assert(made_before(s.ops, s.ops.len() as int, locals[idx] as int, Made::Slot));
            }
            if op == 0x20 {
                if locals.contains_key(idx) {
                    let o = LlvmOp::LoadLocal { slot: locals[idx] };
                    assert(refs(o)[0] == (locals[idx], Made::Slot));
                    lemma_step_emit(s, 0, o, true, next, locals);
                    assert(popped(s, 0) == s);
                } else {
                    lemma_popped(s, 0, next, locals);
                }
            } else if op == 0x21 {
                if s.stack.len() >= 1 {
                    if locals.contains_key(idx) {
                        lemma_top(s, 0, locals);
                        let o = LlvmOp::StoreLocal { value: from_top(s, 0), slot: locals[idx] };
                        assert(refs(o)[0] == (from_top(s, 0), Made::Value));
                        assert(refs(o)[1] == (locals[idx], Made::Slot));
                        lemma_step_emit(s, 1, o, false, next, locals);
                    } else {
                        lemma_popped(s, 1, next, locals);
                        lemma_popped(popped(s, 1), 0, next, locals);
                    }
                } else {
                    lemma_popped(s, 0, next, locals);
                }
            } else {
                if s.stack.len() >= 1 && locals.contains_key(idx) {
                    lemma_top(s, 0, locals);
                    let o = LlvmOp::StoreLocal { value: from_top(s, 0), slot: locals[idx] };
                    assert(refs(o)[0] == (from_top(s, 0), Made::Value));
                    assert(refs(o)[1] == (locals[idx], Made::Slot));
                    lemma_step_emit(s, 0, o, false, next, locals);
                    assert(popped(s, 0) == s);
                } else {
                    lemma_popped(s, 0, next, locals);
                }
            }
        },
        _ => {},
    }
}

proof fn lemma_step_const(bc: Seq<u8>, op: u8, s: PlanState, locals: Map<u32, usize>)
    requires
        plan_inv(s, locals),
    ensures
        step_ok(step_const(bc, op, s), s, locals),
{
    assert(popped(s, 0) == s);
    if op == 0x41 {
        match uleb32(bc, s.pc + 1) {
            Uleb32::Done { value, next } => {
                let o = LlvmOp::ConstInt { ty: NumType::I32, value: (value as i32) as u64, sign_extend: true };
                lemma_step_emit(s, 0, o, true, next, locals);
            },
            _ => {},
        }
    } else if op == 0x42 {
        match uleb64(bc, s.pc + 1) {
            Uleb64::Done { value, next } => {
                let o = LlvmOp::ConstInt { ty: NumType::I64, value, sign_extend: true };
                lemma_step_emit(s, 0, o, true, next, locals);
            },
            _ => {},
        }
    } else if op == 0x43 {
        if s.pc + 1 + 4 <= bc.len() {
            lemma_step_emit(s, 0, LlvmOp::ConstF32 { bits: u32_at(bc, s.pc + 1) }, true, s.pc + 5, locals);
        }
    } else {
        if s.pc + 1 + 8 <= bc.len() {
            lemma_step_emit(s, 0, LlvmOp::ConstF64 { bits: u64_at(bc, s.pc + 1) }, true, s.pc + 9, locals);
        }
    }
}

proof fn lemma_effective(s: PlanState, addr: usize, offset: u32, locals: Map<u32, usize>)
    requires
        plan_inv(s, locals),
        made_before(s.ops, s.ops.len() as int, addr as int, Made::Value),
        offset != 0 ==> s.ops.len() + 2 <= usize::MAX,
    ensures
        plan_inv(effective(s, addr, offset).0, locals),
        made_before(
            effective(s, addr, offset).0.ops,
            effective(s, addr, offset).0.ops.len() as int,
            effective(s, addr, offset).1 as int,
            Made::Value,
        ),
        effective(s, addr, offset).0.stack == s.stack,
        effective(s, addr, offset).0.ops.len() == s.ops.len() + if offset == 0 {
            0int
        } else {
            2int
        },
        effective(s, addr, offset).0.ops.subrange(0, s.ops.len() as int) =~= s.ops,
{
    if offset != 0 {
        let c = LlvmOp::ConstInt { ty: NumType::I32, value: offset as u64, sign_extend: false };
        let b = LlvmOp::Binary { opcode: 0x6A, op: BinaryOp::Add, lhs: addr, rhs: s.ops.len() as usize };
        assert(refs(b)[0] == (addr, Made::Value));
        assert(refs(b)[1] == (s.ops.len() as usize, Made::Value));
        lemma_two_ops(s, c, b, locals);
        let t = emit_value(emit(s, c), b);
        assert(t.ops[s.ops.len() as int + 1] == b);
        assert(effective(s, addr, offset).0 == emit(emit(s, c), b));
        assert(t.stack.drop_last() =~= s.stack);
        assert forall|k: int| 0 <= k < s.stack.len() implies made_before(
            emit(emit(s, c), b).ops,
            emit(emit(s, c), b).ops.len() as int,
            #[trigger] s.stack[k] as int,
            Made::Value,
        ) by {
            assert(t.stack[k] == s.stack[k]);
        }
    }
}

proof fn lemma_step_memory(bc: Seq<u8>, op: u8, s: PlanState, locals: Map<u32, usize>)
    requires
        plan_inv(s, locals),
    ensures
        step_ok(step_memory(bc, op, s), s, locals),
{
    let n: int = if is_load(op) {
        1
    } else {
        2
    };
    if s.stack.len() >= n {
        let addr = from_top(s, n - 1);
        lemma_top(s, n - 1, locals);
        lemma_top(s, 0, locals);
        lemma_popped(s, n, s.pc, locals);
        let p = popped(s, n);
        match uleb32(bc, s.pc + 1) {
            Uleb32::Done { next: p1, .. } => match uleb32(bc, p1) {
                Uleb32::Done { value: offset, next: p2 } => {
                    if s.ops.len() + 3 <= usize::MAX || offset == 0 && s.ops.len() + 1 <= usize::MAX {
                        lemma_effective(p, addr, offset, locals);
                        let (t, eff) = effective(p, addr, offset);
                        lemma_prefix_made(s.ops, t.ops, from_top(s, 0) as int, Made::Value);
                        assert(popped(t, 0) == t);
                        if is_load(op) {
                            let o = LlvmOp::MemLoad { opcode: op, addr: eff };
                            assert(refs(o)[0] == (eff, Made::Value));
                            lemma_step_emit(t, 0, o, true, p2, locals);
                        } else {
                            let o = LlvmOp::MemStore { opcode: op, addr: eff, value: from_top(s, 0) };
                            assert(refs(o)[0] == (eff, Made::Value));
                            assert(refs(o)[1] == (from_top(s, 0), Made::Value));
                            lemma_step_emit(t, 0, o, false, p2, locals);
                        }
                    }
                },
                _ => {},
            },
            _ => {},
        }
    } else {
        lemma_popped(s, 0, s.pc + 1, locals);
    }
}

/// Replacing the open blocks by others whose blocks exist keeps the invariant.
proof fn lemma_frames(t: PlanState, frames: Seq<BlockFrame>, locals: Map<u32, usize>)
    requires
        plan_inv(t, locals),
        forall|f: int|
            #![trigger frames[f]]
            0 <= f < frames.len() ==> frames[f].start < t.blocks.len() && frames[f].end < t.blocks.len(),
    ensures
        plan_inv(PlanState { frames, ..t }, locals),
{
}

/// Branching to an existing block keeps the invariant.
proof fn lemma_branch(s: PlanState, b: int, locals: Map<u32, usize>)
    requires
        plan_inv(s, locals),
        0 <= b < s.blocks.len(),
        s.ops.len() < usize::MAX,
    ensures
        plan_inv(emit(s, LlvmOp::Branch { target: s.blocks[b] }), locals),
        emit(s, LlvmOp::Branch { target: s.blocks[b] }).blocks == s.blocks,
{
    let o = LlvmOp::Branch { target: s.blocks[b] };
    assert(made_before(s.ops, s.ops.len() as int, s.blocks[b] as int, Made::Block));
    assert(refs(o)[0] == (s.blocks[b], Made::Block));
    lemma_emit(s, o, locals);
}

/// Branching on a value, to two existing blocks, keeps the invariant.
proof fn lemma_cond_branch(t: PlanState, v: usize, b1: usize, b2: usize, locals: Map<u32, usize>)
    requires
        plan_inv(t, locals),
        made_before(t.ops, t.ops.len() as int, v as int, Made::Value),
        made_before(t.ops, t.ops.len() as int, b1 as int, Made::Block),
        made_before(t.ops, t.ops.len() as int, b2 as int, Made::Block),
        t.ops.len() + 2 <= usize::MAX,
    ensures
        plan_inv(
            emit(
                emit(t, LlvmOp::TruncToI1 { value: v }),
                LlvmOp::CondBranch { cond: t.ops.len() as usize, then_target: b1, else_target: b2 },
            ),
            locals,
        ),
{
    let c = LlvmOp::TruncToI1 { value: v };
    assert(refs(c)[0] == (v, Made::Value));
    lemma_emit(t, c, locals);
    let u = emit(t, c);
    let o = LlvmOp::CondBranch { cond: t.ops.len() as usize, then_target: b1, else_target: b2 };
    assert(u.ops[t.ops.len() as int] == c);
    lemma_prefix_made(t.ops, u.ops, b1 as int, Made::Block);
    lemma_prefix_made(t.ops, u.ops, b2 as int, Made::Block);
    assert(refs(o)[0] == (t.ops.len() as usize, Made::Value));
    assert(refs(o)[1] == (b1, Made::Block));
    assert(refs(o)[2] == (b2, Made::Block));
    lemma_emit(u, o, locals);
}

proof fn lemma_step_open(bc: Seq<u8>, op: u8, s: PlanState, locals: Map<u32, usize>)
    requires
        plan_inv(s, locals),
    ensures
        step_ok(step_open(bc, op, s), s, locals),
{
    match uleb32(bc, s.pc + 1) {
        Uleb32::Done { next, .. } => if op == 0x02 {
            if s.ops.len() + 1 <= usize::MAX {
                lemma_append_block(s, BlockRole::BlockEnd, locals);
                let t = append_block(s, BlockRole::BlockEnd);
                let fs = s.frames.push(
                    BlockFrame { kind: BlockKind::Block, start: s.current as usize, end: s.blocks.len() as usize },
                );
                assert forall|f: int| 0 <= f < fs.len() implies #[trigger] fs[f].start < t.blocks.len()
                    && fs[f].end < t.blocks.len() by {
                    if f < s.frames.len() {
                        assert(fs[f] == s.frames[f]);
                    }
                }
                lemma_frames(t, fs, locals);
                lemma_popped(PlanState { frames: fs, ..t }, 0, next, locals);
            }
        } else if op == 0x03 {
            let nb = s.blocks.len() as int;
            if s.ops.len() + 4 <= usize::MAX {
                lemma_append_block(s, BlockRole::LoopHeader, locals);
                let t1 = append_block(s, BlockRole::LoopHeader);
                lemma_append_block(t1, BlockRole::LoopExit, locals);
                let t = append_block(t1, BlockRole::LoopExit);
                lemma_branch(t, nb, locals);
                let e = emit(t, LlvmOp::Branch { target: t.blocks[nb] });
                lemma_position(e, nb, locals);
                let u = position(e, nb);
                let fs = s.frames.push(BlockFrame { kind: BlockKind::Loop, start: nb as usize, end: (nb + 1) as usize });
                assert forall|f: int| 0 <= f < fs.len() implies #[trigger] fs[f].start < u.blocks.len()
                    && fs[f].end < u.blocks.len() by {
                    if f < s.frames.len() {
                        assert(fs[f] == s.frames[f]);
                    }
                }
                lemma_frames(u, fs, locals);
                lemma_popped(PlanState { frames: fs, ..u }, 0, next, locals);
            }
        } else {
            if s.stack.len() >= 1 {
                let nb = s.blocks.len() as int;
                if s.ops.len() + 6 <= usize::MAX {
                    lemma_top(s, 0, locals);
                    lemma_popped(s, 1, s.pc, locals);
                    let p = popped(s, 1);
                    lemma_append_block(p, BlockRole::IfThen, locals);
                    let t1 = append_block(p, BlockRole::IfThen);
                    lemma_append_block(t1, BlockRole::IfElse, locals);
                    let t2 = append_block(t1, BlockRole::IfElse);
                    lemma_append_block(t2, BlockRole::IfEnd, locals);
                    let t = append_block(t2, BlockRole::IfEnd);
                    lemma_prefix_made(s.ops, t.ops, from_top(s, 0) as int, Made::Value);
                    assert(made_before(t.ops, t.ops.len() as int, t.blocks[nb] as int, Made::Block));
                    assert(made_before(t.ops, t.ops.len() as int, t.blocks[nb + 1] as int, Made::Block));
                    lemma_cond_branch(t, from_top(s, 0), t.blocks[nb], t.blocks[nb + 1], locals);
                    let b = emit(
                        emit(t, LlvmOp::TruncToI1 { value: from_top(s, 0) }),
                        LlvmOp::CondBranch {
                            cond: t.ops.len() as usize,
                            then_target: t.blocks[nb],
                            else_target: t.blocks[nb + 1],
                        },
                    );
                    lemma_position(b, nb, locals);
                    let u = position(b, nb);
                    let fs = s.frames.push(
                        BlockFrame { kind: BlockKind::If, start: nb as usize, end: (nb + 2) as usize },
                    );
                    assert forall|f: int| 0 <= f < fs.len() implies #[trigger] fs[f].start < u.blocks.len()
                        && fs[f].end < u.blocks.len() by {
                        if f < s.frames.len() {
                            assert(fs[f] == s.frames[f]);
                        }
                    }
                    lemma_frames(u, fs, locals);
                    lemma_popped(PlanState { frames: fs, ..u }, 0, next, locals);
                }
            } else {
                lemma_popped(s, 0, next, locals);
            }
        },
        _ => {},
    }
}

proof fn lemma_step_else(s: PlanState, locals: Map<u32, usize>)
    requires
        plan_inv(s, locals),
    ensures
        step_ok(step_else(s), s, locals),
{
    if s.frames.len() > 0 && s.frames.last().kind == BlockKind::If {
        if s.ops.len() + 2 <= usize::MAX {
            let e = s.frames.last().end as int;
            assert(s.frames[s.frames.len() - 1] == s.frames.last());
            lemma_branch(s, e, locals);
            let t = emit(s, LlvmOp::Branch { target: s.blocks[e] });
            if s.current + 1 < s.blocks.len() {
                lemma_position(t, s.current + 1, locals);
                lemma_popped(position(t, s.current + 1), 0, s.pc + 1, locals);
            } else {
                lemma_popped(t, 0, s.pc + 1, locals);
            }
        } else if s.ops.len() + 1 <= usize::MAX && s.current + 1 >= s.blocks.len() {
            let e = s.frames.last().end as int;
            assert(s.frames[s.frames.len() - 1] == s.frames.last());
            lemma_branch(s, e, locals);
            lemma_popped(emit(s, LlvmOp::Branch { target: s.blocks[e] }), 0, s.pc + 1, locals);
        }
    } else {
        lemma_popped(s, 0, s.pc + 1, locals);
    }
}

proof fn lemma_step_end(s: PlanState, locals: Map<u32, usize>)
    requires
        plan_inv(s, locals),
    ensures
        step_ok(step_end(s), s, locals),
{
    if s.frames.len() > 0 {
        if s.ops.len() + 2 <= usize::MAX {
            let f = s.frames.last();
            assert(s.frames[s.frames.len() - 1] == f);
            let d = PlanState { frames: s.frames.drop_last(), ..s };
            assert forall|g: int| 0 <= g < d.frames.len() implies #[trigger] d.frames[g].start < d.blocks.len()
                && d.frames[g].end < d.blocks.len() by {
                assert(d.frames[g] == s.frames[g]);
            }
            lemma_frames(s, d.frames, locals);
            lemma_branch(d, f.end as int, locals);
            let t = emit(d, LlvmOp::Branch { target: s.blocks[f.end as int] });
            lemma_position(t, f.end as int, locals);
            lemma_popped(position(t, f.end as int), 0, s.pc + 1, locals);
        }
    } else {
        lemma_popped(s, 0, s.pc + 1, locals);
    }
}

proof fn lemma_step_branch(bc: Seq<u8>, op: u8, s: PlanState, locals: Map<u32, usize>)
    requires
        plan_inv(s, locals),
    ensures
        step_ok(step_branch(bc, op, s), s, locals),
{
    match uleb32(bc, s.pc + 1) {
        Uleb32::Done { value: label, next } => if op == 0x0C {
            if label < s.frames.len() {
                let f = s.frames[s.frames.len() - 1 - label];
                if s.ops.len() + 1 <= usize::MAX {
                    lemma_branch(s, branch_target(f), locals);
                    lemma_popped(emit(s, LlvmOp::Branch { target: s.blocks[branch_target(f)] }), 0, next, locals);
                }
            } else {
                lemma_popped(s, 0, next, locals);
            }
        } else {
            if s.stack.len() >= 1 {
                lemma_popped(s, 1, next, locals);
                let p = popped(s, 1);
                if label < s.frames.len() {
                    let f = s.frames[s.frames.len() - 1 - label];
                    let nb = s.blocks.len() as int;
                    if s.ops.len() + 4 <= usize::MAX {
                        lemma_top(s, 0, locals);
                        lemma_append_block(p, BlockRole::BrIfFall, locals);
                        let t = append_block(p, BlockRole::BrIfFall);
                        lemma_prefix_made(s.ops, t.ops, from_top(s, 0) as int, Made::Value);
                        let target = s.blocks[branch_target(f)];
                        assert(made_before(s.ops, s.ops.len() as int, target as int, Made::Block));
                        lemma_prefix_made(s.ops, t.ops, target as int, Made::Block);
                        assert(made_before(t.ops, t.ops.len() as int, t.blocks[nb] as int, Made::Block));
                        lemma_cond_branch(t, from_top(s, 0), target, t.blocks[nb], locals);
                        let b = emit(
                            emit(t, LlvmOp::TruncToI1 { value: from_top(s, 0) }),
                            LlvmOp::CondBranch {
                                cond: t.ops.len() as usize,
                                then_target: target,
                                else_target: t.blocks[nb],
                            },
                        );
                        lemma_position(b, nb, locals);
                        lemma_popped(position(b, nb), 0, next, locals);
                    }
                } else {
                    lemma_popped(p, 0, next, locals);
                }
            } else {
                lemma_popped(s, 0, next, locals);
            }
        },
        _ => {},
    }
}

/// Passing values that exist as call arguments keeps the invariant.
proof fn lemma_call_args(p: PlanState, args: Seq<usize>, locals: Map<u32, usize>)
    requires
        plan_inv(p, locals),
        forall|k: int|
            #![trigger args[k]]
            0 <= k < args.len() ==> made_before(p.ops, p.ops.len() as int, args[k] as int, Made::Value),
    ensures
        plan_inv(PlanState { ops: p.ops + call_args(args), ..p }, locals),
        (p.ops + call_args(args)).len() == p.ops.len() + args.len(),
{
    let t = p.ops + call_args(args);
    let n = p.ops.len() as int;
    assert(t.subrange(0, n) =~= p.ops);
    assert forall|i: int, j: int| 0 <= i < t.len() && 0 <= j < refs(t[i]).len() implies made_before(
        t,
        i,
        #[trigger] refs(t[i])[j].0 as int,
        refs(t[i])[j].1,
    ) by {
        if i < n {
            assert(t[i] == p.ops[i]);
            assert(made_before(p.ops, i, refs(p.ops[i])[j].0 as int, refs(p.ops[i])[j].1));
            assert(t[refs(p.ops[i])[j].0 as int] == p.ops[refs(p.ops[i])[j].0 as int]);
        } else {
            let a = args[i - n];
            assert(t[i] == LlvmOp::CallArg { value: a });
            assert(refs(t[i])[0] == (a, Made::Value));
            assert(made_before(p.ops, n, a as int, Made::Value));
            assert(t[a as int] == p.ops[a as int]);
        }
    }
    assert forall|k: int| 0 <= k < p.stack.len() implies made_before(t, t.len() as int, #[trigger] p.stack[k] as int, Made::Value) by {
        lemma_prefix_made(p.ops, t, p.stack[k] as int, Made::Value);
    }
    assert forall|b: int| 0 <= b < p.blocks.len() implies made_before(t, t.len() as int, #[trigger] p.blocks[b] as int, Made::Block) by {
        lemma_prefix_made(p.ops, t, p.blocks[b] as int, Made::Block);
    }
    assert forall|x: u32| locals.contains_key(x) implies made_before(t, t.len() as int, #[trigger] locals[x] as int, Made::Slot) by {
        lemma_prefix_made(p.ops, t, locals[x] as int, Made::Slot);
    }
}

proof fn lemma_step_call(bc: Seq<u8>, cx: PlanContext, s: PlanState)
    requires
        plan_inv(s, cx.locals),
    ensures
        step_ok(step_call(bc, cx, s), s, cx.locals),
{
    let locals = cx.locals;
    match uleb32(bc, s.pc + 1) {
        Uleb32::Done { value: callee, next } => if callee == cx.own {
            let argc: int = if cx.params <= s.stack.len() {
                cx.params as int
            } else {
                s.stack.len() as int
            };
            let args = s.stack.subrange(s.stack.len() - argc, s.stack.len() as int);
            lemma_popped(s, argc, s.pc, locals);
            let p = popped(s, argc);
            assert forall|k: int| 0 <= k < args.len() implies made_before(
                p.ops,
                p.ops.len() as int,
                #[trigger] args[k] as int,
                Made::Value,
            ) by {
                assert(args[k] == s.stack[s.stack.len() - argc + k]);
            }
            lemma_call_args(p, args, locals);
            let t = PlanState { ops: p.ops + call_args(args), ..p };
            let o = LlvmOp::Call { callee, argc: argc as usize };
            assert(popped(t, 0) == t);
            if t.ops.len() + 1 <= usize::MAX {
                lemma_step_emit(t, 0, o, cx.returns, next, locals);
            }
        } else {
            lemma_popped(s, 0, next, locals);
        },
        _ => {},
    }
}

/// Ending a function with its return keeps the plan well formed.
proof fn lemma_return(s: PlanState, locals: Map<u32, usize>)
    requires
        plan_inv(s, locals),
    ensures
        s.ops.push(return_op(s)).len() <= usize::MAX ==> well_formed(s.ops.push(return_op(s))),
        s.ops.push(LlvmOp::Unreachable).len() <= usize::MAX ==> well_formed(s.ops.push(LlvmOp::Unreachable)),
{
    if s.stack.len() > 0 {
        lemma_top(s, 0, locals);
        assert(s.stack.last() == from_top(s, 0));
        assert(refs(return_op(s))[0] == (from_top(s, 0), Made::Value));
    }
    lemma_push_well_formed(s.ops, return_op(s));
    lemma_push_well_formed(s.ops, LlvmOp::Unreachable);
}

/// Lowering any instruction keeps the invariant.
proof fn lemma_plan_step(bc: Seq<u8>, cx: PlanContext, s: PlanState)
    requires
        plan_inv(s, cx.locals),
    ensures
        step_ok(plan_step(bc, cx, s), s, cx.locals),
{
    let locals = cx.locals;
    let op = bc[s.pc];
    lemma_return(s, locals);
    if op == 0x00 || op == 0x0F {
    } else if op == 0x01 {
        lemma_popped(s, 0, s.pc + 1, locals);
    } else if op == 0x1A {
        if s.stack.len() >= 1 {
            lemma_popped(s, 1, s.pc + 1, locals);
            lemma_popped(popped(s, 1), 0, s.pc + 1, locals);
        } else {
            lemma_popped(s, 0, s.pc + 1, locals);
        }
    } else if op == 0x20 || op == 0x21 || op == 0x22 {
        lemma_step_local(bc, op, cx, s);
    } else if op == 0x41 || op == 0x42 || op == 0x43 || op == 0x44 {
        lemma_step_const(bc, op, s, locals);
    } else if binary_op(op) is Some {
        lemma_step_binary(op, s, locals);
    } else if shift_op(op) is Some {
        lemma_step_shift(op, s, locals);
    } else if op == 0x45 {
        lemma_step_eqz(s, locals);
    } else if int_predicate(op) is Some || real_predicate(op) is Some {
        lemma_step_compare(op, s, locals);
    } else if op == 0x91 || op == 0x97 || op == 0x98 || op == 0x99 {
        if s.stack.len() >= 1 {
            lemma_top(s, 0, locals);
            let v = from_top(s, 0);
            let o = if op == 0x98 {
                LlvmOp::FPTrunc { value: v }
            } else if op == 0x99 {
                LlvmOp::FPExt { value: v }
            } else {
                LlvmOp::FNeg { opcode: op, value: v }
            };
            assert(refs(o)[0] == (v, Made::Value));
            lemma_step_operands(s, 1, o, locals);
        } else {
            lemma_popped(s, 0, s.pc + 1, locals);
        }
    } else if is_load(op) || is_store(op) {
        lemma_step_memory(bc, op, s, locals);
    } else if op == 0x02 || op == 0x03 || op == 0x04 {
        lemma_step_open(bc, op, s, locals);
    } else if op == 0x05 {
        lemma_step_else(s, locals);
    } else if op == 0x0B {
        lemma_step_end(s, locals);
    } else if op == 0x0C || op == 0x0D {
        lemma_step_branch(bc, op, s, locals);
    } else if op == 0x10 {
        lemma_step_call(bc, cx, s);
    }
}

/// Lowering from a state that keeps the invariant yields a well-formed
/// plan, at least as long as the plan so far.
proof fn lemma_plan_run(bc: Seq<u8>, cx: PlanContext, s: PlanState, fuel: nat)
    requires
        plan_inv(s, cx.locals),
    ensures
        plan_run(bc, cx, s, fuel) matches Plan::Ops(o) ==> s.ops.len() <= o.len() && (o.len() <= usize::MAX
            ==> well_formed(o)),
    decreases fuel,
{
    lemma_return(s, cx.locals);
    if s.pc < bc.len() && fuel > 0 {
        lemma_plan_step(bc, cx, s);
        match plan_step(bc, cx, s) {
            PlanStep::Next(t) => {
                if t.ops.len() <= usize::MAX {
                    lemma_plan_run(bc, cx, t, (fuel - 1) as nat);
                } else {
                    lemma_plan_run_grows(bc, cx, t, (fuel - 1) as nat);
                }
            },
            _ => {},
        }
    }
}

/// Lowering one instruction only adds operations.
proof fn lemma_step_grows(bc: Seq<u8>, cx: PlanContext, s: PlanState)
    ensures
        plan_step(bc, cx, s) matches PlanStep::Next(t) ==> s.ops.len() <= t.ops.len(),
        plan_step(bc, cx, s) matches PlanStep::Finish(o) ==> s.ops.len() <= o.len(),
{
    let op = bc[s.pc];
    if op == 0x10 {
        match uleb32(bc, s.pc + 1) {
            Uleb32::Done { value: callee, .. } => if callee == cx.own {
                let argc: int = if cx.params <= s.stack.len() {
                    cx.params as int
                } else {
                    s.stack.len() as int
                };
                let args = s.stack.subrange(s.stack.len() - argc, s.stack.len() as int);
                assert((s.ops + call_args(args)).len() == s.ops.len() + args.len());
            },
            _ => {},
        }
    }
}

/// Lowering from any state only adds operations.
proof fn lemma_plan_run_grows(bc: Seq<u8>, cx: PlanContext, s: PlanState, fuel: nat)
    ensures
        plan_run(bc, cx, s, fuel) matches Plan::Ops(o) ==> s.ops.len() <= o.len(),
    decreases fuel,
{
    if s.pc < bc.len() && fuel > 0 {
        lemma_step_grows(bc, cx, s);
        match plan_step(bc, cx, s) {
            PlanStep::Next(t) => {
                lemma_plan_run_grows(bc, cx, t, (fuel - 1) as nat);
            },
            _ => {},
        }
    }
}

/// Whether every local's slot was made by `ops`.
pub open spec fn slots_made(ops: Seq<LlvmOp>, map: Map<u32, usize>) -> bool {
    forall|x: u32|
        #![trigger map[x]]
        map.contains_key(x) ==> made_before(ops, ops.len() as int, map[x] as int, Made::Slot)
}

/// The slots of the locals keep the plan well formed and are all made.
proof fn lemma_local_slots(
    locals: Seq<Local>,
    offset: int,
    i: int,
    j: int,
    ops: Seq<LlvmOp>,
    map: Map<u32, usize>,
)
    requires
        ops.len() <= usize::MAX ==> well_formed(ops) && slots_made(ops, map),
    ensures
        ops.len() <= local_slots(locals, offset, i, j, ops, map).0.len(),
        local_slots(locals, offset, i, j, ops, map).0.subrange(0, ops.len() as int) =~= ops,
        local_slots(locals, offset, i, j, ops, map).0.len() <= usize::MAX ==> well_formed(
            local_slots(locals, offset, i, j, ops, map).0,
        ) && slots_made(local_slots(locals, offset, i, j, ops, map).0, local_slots(locals, offset, i, j, ops, map).1),
    decreases locals.len() - i, (if 0 <= i < locals.len() {
        locals[i].count - j
    } else {
        0
    }),
{
    if i < 0 || i >= locals.len() {
    } else if j >= locals[i].count {
        lemma_local_slots(locals, offset, i + 1, 0, ops, map);
    } else {
        let ty = locals[i].type_;
        let slot = ops.len() as usize;
        let with_slot = ops.push(LlvmOp::LocalSlot { ty });
        if numeric(ty) {
            let z = LlvmOp::StoreZero { slot, ty: ty->Num_0 };
            let next = with_slot.push(z);
            let m2 = map.insert((offset + i * locals[i].count + j) as u32, slot);
            if next.len() <= usize::MAX {
                lemma_push_well_formed(ops, LlvmOp::LocalSlot { ty });
                assert(with_slot[ops.len() as int] == LlvmOp::LocalSlot { ty });
                assert(refs(z)[0] == (slot, Made::Slot));
                lemma_push_well_formed(with_slot, z);
                assert forall|x: u32| m2.contains_key(x) implies made_before(next, next.len() as int, #[trigger] m2[x] as int, Made::Slot) by {
                    if x == (offset + i * locals[i].count + j) as u32 {
                        assert(next[slot as int] == LlvmOp::LocalSlot { ty });
                    } else {
                        assert(made_before(ops, ops.len() as int, map[x] as int, Made::Slot));
                        assert(next[map[x] as int] == ops[map[x] as int]);
                    }
                }
            }
            lemma_local_slots(locals, offset, i, j + 1, next, m2);
            let r = local_slots(locals, offset, i, j + 1, next, m2).0;
            assert(r.subrange(0, ops.len() as int) =~= r.subrange(0, next.len() as int).subrange(0, ops.len() as int));
        } else {
            if with_slot.len() <= usize::MAX {
                lemma_push_well_formed(ops, LlvmOp::LocalSlot { ty });
                assert forall|x: u32| map.contains_key(x) implies made_before(with_slot, with_slot.len() as int, #[trigger] map[x] as int, Made::Slot) by {
                    assert(made_before(ops, ops.len() as int, map[x] as int, Made::Slot));
                    assert(with_slot[map[x] as int] == ops[map[x] as int]);
                }
            }
            lemma_local_slots(locals, offset, i, j + 1, with_slot, map);
            let r = local_slots(locals, offset, i, j + 1, with_slot, map).0;
            assert(r.subrange(0, ops.len() as int) =~= r.subrange(0, with_slot.len() as int).subrange(0, ops.len() as int));
        }
    }
}

/// The state after the prologue keeps the invariant.
proof fn lemma_prologue(params: nat, locals: Seq<Local>)
    ensures
        prologue(params, locals).0.len() <= usize::MAX ==> plan_inv(
            start_state(prologue(params, locals).0),
            prologue(params, locals).1,
        ),
{
    let ops = param_ops(params);
    let map = param_map(params);
    assert(ops[0] == LlvmOp::EntryBlock);
    assert forall|i: int, j: int| 0 <= i < ops.len() && 0 <= j < refs(ops[i]).len() implies made_before(
        ops,
        i,
        #[trigger] refs(ops[i])[j].0 as int,
        refs(ops[i])[j].1,
    ) by {
        if i > 0 {
            assert(ops[i] == LlvmOp::ParamSlot { index: (i - 1) as u32 });
        }
    }
    if ops.len() <= usize::MAX {
        assert forall|x: u32| map.contains_key(x) implies made_before(ops, ops.len() as int, #[trigger] map[x] as int, Made::Slot) by {
            assert(ops[x + 1] == LlvmOp::ParamSlot { index: x });
        }
    }
    lemma_local_slots(locals, params as int, 0, 0, ops, map);
    let (o, m) = prologue(params, locals);
    assert(o[0] == o.subrange(0, ops.len() as int)[0]);
    let st = start_state(o);
    assert forall|b: int| 0 <= b < st.blocks.len() implies made_before(st.ops, st.ops.len() as int, #[trigger] st.blocks[b] as int, Made::Block) by {
        assert(st.blocks[b] == 0usize);
    }
}

/// A planned function refers only to what it planned before: every value,
/// stack slot and basic block that an operation uses was made by an
/// earlier operation of the plan.
pub proof fn lemma_plan_well_formed(func: Func, idx: u32, m: Module)
    ensures
        function_plan(func, idx, m) matches Plan::Ops(o) ==> (o.len() <= usize::MAX ==> well_formed(o)),
{
    match defined_type(m, idx) {
        None => {},
        Some(ft) => {
            let (ops, map) = prologue(ft.params@.len(), func.locals@);
            let cx = PlanContext {
                locals: map,
                own: idx,
                params: ft.params@.len(),
                returns: ft.results@.len() > 0,
            };
            lemma_prologue(ft.params@.len(), func.locals@);
            if ops.len() <= usize::MAX {
                lemma_plan_run(func.body@, cx, start_state(ops), func.body@.len());
            } else {
                lemma_plan_run_grows(func.body@, cx, start_state(ops), func.body@.len());
            }
        },
    }
}

/// The value of a `bits`-wide number `a` (given unsigned) read as signed.
pub open spec fn signed_value(a: int, bits: nat) -> int {
    if a >= vstd::arithmetic::power2::pow2((bits - 1) as nat) {
        a - vstd::arithmetic::power2::pow2(bits)
    } else {
        a
    }
}

/// What LLVM's shift instructions compute on `bits`-wide operands, for a
/// shift amount below the width: `shl` multiplies by a power of two,
/// `lshr` divides the unsigned value, `ashr` divides the signed value
/// (rounding down), each wrapped to the width.
pub open spec fn llvm_shift(op: BinaryOp, a: int, n: nat, bits: nat) -> int {
    let p = vstd::arithmetic::power2::pow2(n) as int;
    let w = vstd::arithmetic::power2::pow2(bits) as int;
    match op {
        BinaryOp::Shl => (a * p) % w,
        BinaryOp::LShr => a / p,
        BinaryOp::AShr => (signed_value(a, bits) / p) % w,
        _ => 0,
    }
}

/// The width of the operands of a WebAssembly shift: `i32` shifts are
/// 0x74 to 0x76, `i64` shifts 0x86 to 0x88.
pub open spec fn shift_width(op: u8) -> nat {
    if 0x74 <= op <= 0x76 {
        32
    } else {
        64
    }
}

/// What a WebAssembly shift computes for an amount below the width:
/// `shl` (0x74, 0x86) wraps the product with a power of two, `shr_s`
/// (0x75, 0x87) divides the signed value rounding down, `shr_u` (0x76,
/// 0x88) divides the unsigned value.
pub open spec fn wasm_shift(op: u8, a: int, n: nat) -> int {
    let bits = shift_width(op);
    let p = vstd::arithmetic::power2::pow2(n) as int;
    let w = vstd::arithmetic::power2::pow2(bits) as int;
    if op == 0x74 || op == 0x86 {
        (a * p) % w
    } else if op == 0x75 || op == 0x87 {
        (signed_value(a, bits) / p) % w
    } else {
        a / p
    }
}

/// The LLVM operation planned for a WebAssembly shift computes what the
/// shift computes, for every operand and every amount below the width: a
/// signed shift right is arithmetic, an unsigned one logical.
pub proof fn lemma_shift_semantics(op: u8, a: int, n: nat)
    requires
        op == 0x74 || op == 0x75 || op == 0x76 || op == 0x86 || op == 0x87 || op == 0x88,
        0 <= a < vstd::arithmetic::power2::pow2(shift_width(op)),
        n < shift_width(op),
    ensures
        shift_op(op) is Some,
        llvm_shift(shift_op(op)->Some_0, a, n, shift_width(op)) == wasm_shift(op, a, n),
{
}

/// What LLVM's `icmp` computes on `bits`-wide operands (given unsigned):
/// the `s` predicates compare the signed values, the `u` ones the unsigned.
pub open spec fn llvm_icmp(p: IntPredicate, a: int, b: int, bits: nat) -> bool {
    let sa = signed_value(a, bits);
    let sb = signed_value(b, bits);
    match p {
        IntPredicate::Eq => a == b,
        IntPredicate::Ne => a != b,
        IntPredicate::Slt => sa < sb,
        IntPredicate::Ult => a < b,
        IntPredicate::Sgt => sa > sb,
        IntPredicate::Ugt => a > b,
        IntPredicate::Sle => sa <= sb,
        IntPredicate::Ule => a <= b,
        IntPredicate::Sge => sa >= sb,
        IntPredicate::Uge => a >= b,
    }
}

/// The `icmp` planned for an `i32` comparison computes what the comparison
/// computes, for every pair of operands.
pub proof fn lemma_int_predicate_semantics(op: u8, a: int, b: int)
    requires
        0x46 <= op <= 0x4F,
        0 <= a < vstd::arithmetic::power2::pow2(32),
        0 <= b < vstd::arithmetic::power2::pow2(32),
    ensures
        int_predicate(op) is Some,
        llvm_icmp(int_predicate(op)->Some_0, a, b, 32) == crate::jit::compiler::wasm_compare(op, a, b),
{
    assert(crate::jit::compiler::compare_width(op) == 32);
}

/// What LLVM's integer two-operand instructions compute on `bits`-wide
/// operands (given unsigned), wrapped to the width: `sdiv` truncates the
/// quotient of the signed values, `udiv` divides the unsigned ones.
pub open spec fn llvm_int_binary(op: BinaryOp, a: int, b: int, bits: nat) -> int {
    let w = vstd::arithmetic::power2::pow2(bits) as int;
    match op {
        BinaryOp::Add => (a + b) % w,
        BinaryOp::Sub => (a - b) % w,
        BinaryOp::Mul => (a * b) % w,
        BinaryOp::SDiv => crate::jit::llvm_runtime::trunc_div(signed_value(a, bits), signed_value(b, bits)) % w,
        BinaryOp::UDiv => a / b,
        BinaryOp::And => ((a as u64) & (b as u64)) as int,
        BinaryOp::Or => ((a as u64) | (b as u64)) as int,
        BinaryOp::Xor => ((a as u64) ^ (b as u64)) as int,
        _ => 0,
    }
}

/// Whether an opcode is an integer operation among `add`, `sub`, `mul`,
/// `div_s`, `div_u`, `and`, `or` and `xor`, for `i32` (0x6A to 0x73) or
/// `i64` (0x7C to 0x85).
pub open spec fn int_arith_op(op: u8) -> bool {
    (0x6A <= op <= 0x6E || 0x71 <= op <= 0x73) || (0x7C <= op <= 0x80 || 0x83 <= op <= 0x85)
}

/// What a WebAssembly integer operation computes on `bits`-wide operands:
/// in each width the opcodes run `add`, `sub`, `mul`, `div_s`, `div_u`,
/// `rem_s`, `rem_u`, `and`, `or`, `xor`.
pub open spec fn wasm_int_binary(op: u8, a: int, b: int) -> int {
    let bits: nat = if op <= 0x73 {
        32
    } else {
        64
    };
    let k = if op <= 0x73 {
        op - 0x6A
    } else {
        op - 0x7C
    };
    let w = vstd::arithmetic::power2::pow2(bits) as int;
    if k == 0 {
        (a + b) % w
    } else if k == 1 {
        (a - b) % w
    } else if k == 2 {
        (a * b) % w
    } else if k == 3 {
        crate::jit::llvm_runtime::trunc_div(signed_value(a, bits), signed_value(b, bits)) % w
    } else if k == 4 {
        a / b
    } else if k == 7 {
        ((a as u64) & (b as u64)) as int
    } else if k == 8 {
        ((a as u64) | (b as u64)) as int
    } else {
        ((a as u64) ^ (b as u64)) as int
    }
}

/// The LLVM instruction planned for an integer operation computes what the
/// operation computes, for every pair of operands.
pub proof fn lemma_int_binary_semantics(op: u8, a: int, b: int)
    requires
        int_arith_op(op),
    ensures
        binary_op(op) is Some,
        llvm_int_binary(binary_op(op)->Some_0, a, b, if op <= 0x73 { 32nat } else { 64nat }) == wasm_int_binary(
            op,
            a,
            b,
        ),
{
}

/// What LLVM's ordered `fcmp` predicates say of two values that are not
/// NaN, given by their positions `x` and `y` in the order of the values.
pub open spec fn llvm_fcmp_ordered(p: RealPredicate, x: int, y: int) -> bool {
    match p {
        RealPredicate::Oeq => x == y,
        RealPredicate::One => x != y,
        RealPredicate::Olt => x < y,
        RealPredicate::Ogt => x > y,
        RealPredicate::Ole => x <= y,
        RealPredicate::Oge => x >= y,
    }
}

/// What a WebAssembly float comparison says of two values that are not
/// NaN: in each width (0x5B for `f32`, 0x61 for `f64`) the opcodes run
/// `eq`, `ne`, `lt`, `gt`, `le`, `ge`.
pub open spec fn wasm_float_compare(op: u8, x: int, y: int) -> bool {
    let k = if op <= 0x60 {
        op - 0x5B
    } else {
        op - 0x61
    };
    if k == 0 {
        x == y
    } else if k == 1 {
        x != y
    } else if k == 2 {
        x < y
    } else if k == 3 {
        x > y
    } else if k == 4 {
        x <= y
    } else {
        x >= y
    }
}

/// The `fcmp` planned for a float comparison says what the comparison says
/// of any two values that are not NaN.
pub proof fn lemma_real_predicate_semantics(op: u8, x: int, y: int)
    requires
        0x5B <= op <= 0x66,
    ensures
        real_predicate(op) is Some,
        llvm_fcmp_ordered(real_predicate(op)->Some_0, x, y) == wasm_float_compare(op, x, y),
{
}

} // verus!
