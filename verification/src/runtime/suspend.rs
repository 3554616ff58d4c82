//! Suspension and resumption of executions at safepoints.
//!
//! A suspended execution is captured as a `SuspensionState`; a
//! `SuspendedInstance` holds it together with a flag that says whether it is
//! still suspended. Resuming clears the flag, so a suspended execution is
//! resumed at most once. An execution that waits on a hostcall can only be
//! resumed by handing in the hostcall's results, which are checked against
//! the expected result types and pushed onto the interpreter's operand stack.

use super::error::{error_text, TrapCode, WasmError};
use super::types::{NumType, RefType, ValType};
use super::values::{value_type, WasmValue};
use crate::text::{decimal_chars, push_decimal};
use vstd::prelude::*;
use vstd::string::StringExecFns;

verus! {

/// Returns whether an error reports a suspended execution.
pub fn is_suspension_error(error: &WasmError) -> (r: bool)
    ensures
        r == (*error is Suspended),
{
    match error {
        WasmError::Suspended(_) => true,
        _ => false,
    }
}

#[derive(Debug, Clone, PartialEq, Eq)]
/// Errors of suspending and resuming executions.
pub enum SuspensionError {
    /// The instance is not suspended.
    InstanceNotSuspended(String),
    /// The state cannot be resumed as asked.
    InvalidResumeState(String),
    /// The state is of a kind that this operation does not support.
    UnsupportedSuspensionState(String),
    /// A hostcall must complete before the execution can resume.
    HostcallPending,
}

/// The message of a suspension error.
pub open spec fn suspension_error_text(e: SuspensionError) -> Seq<char> {
    match e {
        SuspensionError::InstanceNotSuspended(m) => "Instance not suspended: "@ + m@,
        SuspensionError::InvalidResumeState(m) => "Invalid resume state: "@ + m@,
        SuspensionError::UnsupportedSuspensionState(m) => "Unsupported suspension state: "@ + m@,
        SuspensionError::HostcallPending => "Hostcall is pending completion"@,
    }
}

impl SuspensionError {
    /// Returns the message of this error.
    pub fn message(&self) -> (s: String)
        ensures
            s@ == suspension_error_text(*self),
    {
        let (prefix, detail): (&str, Option<&String>) = match self {
            SuspensionError::InstanceNotSuspended(m) => ("Instance not suspended: ", Some(m)),
            SuspensionError::InvalidResumeState(m) => ("Invalid resume state: ", Some(m)),
            SuspensionError::UnsupportedSuspensionState(m) => (
                "Unsupported suspension state: ",
                Some(m),
            ),
            SuspensionError::HostcallPending => ("Hostcall is pending completion", None),
        };
        let mut s = String::from_str(prefix);
        if let Some(m) = detail {
            s.append(m.as_str());
        }
        proof {
            reveal_strlit("Instance not suspended: ");
            reveal_strlit("Invalid resume state: ");
            reveal_strlit("Unsupported suspension state: ");
            reveal_strlit("Hostcall is pending completion");
        }
        s
    }
}

#[derive(Debug, Clone, Copy, PartialEq, Eq, Structural)]
/// The engine that was running when an execution was suspended.
pub enum ExecutionEngine {
    /// The interpreter.
    Interpreter,
    /// Compiled code of a function.
    Jit { func_idx: u32 },
}

/// Copies a slice of plain values.
pub(crate) fn copy_slice<T: Copy>(v: &[T]) -> (r: Vec<T>)
    ensures
        r@ == v@,
{
    let mut r: Vec<T> = Vec::new();
    let mut i: usize = 0;
    while i < v.len()
        invariant
            0 <= i <= v@.len(),
            r@ == v@.subrange(0, i as int),
        decreases v@.len() - i,
    {
        r.push(v[i]);
        i = i + 1;
        proof {
            assert(r@ =~= v@.subrange(0, i as int));
        }
    }
    proof {
        assert(r@ =~= v@);
    }
    r
}

#[derive(Debug, Clone)]
/// The interpreter's operand stack, bounded by a maximum size.
pub struct OperandStack {
    values: Vec<WasmValue>,
    max_size: usize,
}

impl OperandStack {
    /// The values on the stack, bottom first.
    pub closed spec fn values(&self) -> Seq<WasmValue> {
        self.values@
    }

    /// The most values the stack holds.
    pub closed spec fn max_size(&self) -> usize {
        self.max_size
    }

    /// Creates an empty stack that holds at most `max_size` values.
    pub fn new(max_size: usize) -> (s: Self)
        ensures
            s.values() == Seq::<WasmValue>::empty(),
            s.max_size() == max_size,
    {
        OperandStack { values: Vec::new(), max_size }
    }

    /// Pushes a value; a full stack refuses it with a stack-overflow trap and
    /// is left as it was.
    pub fn push(&mut self, value: WasmValue) -> (r: Result<(), WasmError>)
        ensures
            final(self).max_size() == old(self).max_size(),
            old(self).values().len() < old(self).max_size() ==> r is Ok && final(self).values()
                == old(self).values().push(value),
            old(self).values().len() >= old(self).max_size() ==> r == Err::<(), WasmError>(
                WasmError::Trap(TrapCode::StackOverflow),
            ) && final(self).values() == old(self).values(),
    {
        if self.values.len() >= self.max_size {
            Err(WasmError::Trap(TrapCode::StackOverflow))
        } else {
            self.values.push(value);
            Ok(())
        }
    }

    /// Pops the top value, if there is one.
    pub fn pop(&mut self) -> (r: Option<WasmValue>)
        ensures
            final(self).max_size() == old(self).max_size(),
            old(self).values().len() == 0 ==> r is None && final(self).values() == old(self).values(),
            old(self).values().len() > 0 ==> r == Some(old(self).values().last()) && final(self).values() == old(self).values().drop_last(),
    {
        self.values.pop()
    }

    /// Returns the number of values on the stack.
    pub fn len(&self) -> (n: usize)
        ensures
            n == self.values().len(),
    {
        self.values.len()
    }

    /// Returns whether the stack is empty.
    pub fn is_empty(&self) -> (b: bool)
        ensures
            b == (self.values().len() == 0),
    {
        self.values.len() == 0
    }

    /// Returns a copy of this stack.
    pub fn duplicate(&self) -> (r: Self)
        ensures
            r.values() == self.values(),
            r.max_size() == self.max_size(),
    {
        OperandStack { values: copy_slice(self.values.as_slice()), max_size: self.max_size }
    }
    /// Creates a stack holding `values`, bottom first, that holds at most
    /// `max_size` values.
    pub fn from_vec(values: Vec<WasmValue>, max_size: usize) -> (s: Self)
        ensures
            s.values() == values@,
            s.max_size() == max_size,
    {
        OperandStack { values, max_size }
    }

    /// Returns a copy of the values on the stack, bottom first.
    pub fn to_vec(&self) -> (v: Vec<WasmValue>)
        ensures
            v@ == self.values(),
    {
        copy_slice(self.values.as_slice())
    }

    /// Returns the most values the stack holds.
    pub fn capacity(&self) -> (n: usize)
        ensures
            n == self.max_size(),
    {
        self.max_size
    }
}

#[derive(Debug, Clone)]
/// The interpreter's control stack: for each open block, the height of the
/// operand stack at its entry.
pub struct ControlStack {
    heights: Vec<usize>,
}

impl ControlStack {
    /// The recorded heights, outermost block first.
    pub closed spec fn heights(&self) -> Seq<usize> {
        self.heights@
    }

    /// Creates an empty control stack.
    pub fn new() -> (s: Self)
        ensures
            s.heights() == Seq::<usize>::empty(),
    {
        ControlStack { heights: Vec::new() }
    }

    /// Opens a block at the given operand-stack height.
    pub fn push(&mut self, height: usize)
        ensures
            final(self).heights() == old(self).heights().push(height),
    {
        self.heights.push(height);
    }

    /// Closes the innermost block, returning its height.
    pub fn pop(&mut self) -> (r: Option<usize>)
        ensures
            old(self).heights().len() == 0 ==> r is None && final(self).heights() == old(self).heights(),
            old(self).heights().len() > 0 ==> r == Some(old(self).heights().last()) && final(self).heights() == old(self).heights().drop_last(),
    {
        self.heights.pop()
    }

    /// Returns the number of open blocks.
    pub fn len(&self) -> (n: usize)
        ensures
            n == self.heights().len(),
    {
        self.heights.len()
    }

    /// Returns a copy of this stack.
    pub fn duplicate(&self) -> (r: Self)
        ensures
            r.heights() == self.heights(),
    {
        ControlStack { heights: copy_slice(self.heights.as_slice()) }
    }
    /// Returns the serialised form of the stack: each height as eight
    /// little-endian bytes, outermost block first.
    pub fn to_bytes(&self) -> (b: Vec<u8>)
        ensures
            b@ == control_bytes(self.heights()),
    {
        let mut out: Vec<u8> = Vec::new();
        let mut i: usize = 0;
        while i < self.heights.len()
            invariant
                0 <= i <= self.heights@.len(),
                out@ == control_bytes(self.heights@.subrange(0, i as int)),
            decreases self.heights@.len() - i,
        {
            crate::bytes::push_u64_le(&mut out, self.heights[i] as u64);
            proof {
                let t = self.heights@.subrange(0, i + 1);
                assert(t.drop_last() =~= self.heights@.subrange(0, i as int));
                assert(t.last() == self.heights@[i as int]);
            }
            i = i + 1;
        }
        proof {
            assert(self.heights@.subrange(0, i as int) =~= self.heights@);
        }
        out
    }

    /// Reads a stack back from its serialised form; bytes past the last
    /// whole group of eight are ignored.
    pub fn from_bytes(bytes: &[u8]) -> (s: Self)
        ensures
            s.heights() == control_heights(bytes@),
    {
        let mut heights: Vec<usize> = Vec::new();
        let mut i: usize = 0;
        while bytes.len() - i >= 8
            invariant
                i <= bytes@.len(),
                i == 8 * heights@.len(),
                forall|k: int| 0 <= k < heights@.len() ==> #[trigger] heights@[k] == (crate::bytes::u64_at(bytes@, 8 * k) as usize),
            decreases bytes@.len() - i,
        {
            let h = crate::bytes::read_u64_at(bytes, i) as usize;
            heights.push(h);
            i = i + 8;
        }
        proof {
            let n = bytes@.len() as int / 8;
            assert(heights@.len() == n) by (nonlinear_arith)
                requires
                    i == 8 * heights@.len(),
                    bytes@.len() - i < 8,
                    i <= bytes@.len(),
                    n == bytes@.len() as int / 8,
            ;
            assert(heights@ =~= control_heights(bytes@));
        }
        ControlStack { heights }
    }
}

/// The serialised form of a control stack: each height as eight
/// little-endian bytes, outermost block first.
pub open spec fn control_bytes(heights: Seq<usize>) -> Seq<u8>
    decreases heights.len(),
{
    if heights.len() == 0 {
        Seq::empty()
    } else {
        control_bytes(heights.drop_last()) + crate::bytes::le64(heights.last() as u64)
    }
}

/// Eight bytes read at `i` from `a + b` are those of `a` when they lie in
/// `a`, and those of `b` at `i - a.len()` when they lie in `b`.
proof fn lemma_u64_at_concat(a: Seq<u8>, b: Seq<u8>, i: int)
    requires
        0 <= i,
        i + 8 <= a.len() || (a.len() <= i && i + 8 <= a.len() + b.len()),
    ensures
        i + 8 <= a.len() ==> crate::bytes::u64_at(a + b, i) == crate::bytes::u64_at(a, i),
        a.len() <= i ==> crate::bytes::u64_at(a + b, i) == crate::bytes::u64_at(b, i - a.len()),
{
    let c = a + b;
    if i + 8 <= a.len() {
        assert(c[i] == a[i] && c[i + 1] == a[i + 1] && c[i + 2] == a[i + 2] && c[i + 3] == a[i + 3]);
        assert(c[i + 4] == a[i + 4] && c[i + 5] == a[i + 5] && c[i + 6] == a[i + 6] && c[i + 7] == a[i + 7]);
    } else {
        let o = i - a.len();
        assert(c[i] == b[o] && c[i + 1] == b[o + 1] && c[i + 2] == b[o + 2] && c[i + 3] == b[o + 3]);
        assert(c[i + 4] == b[o + 4] && c[i + 5] == b[o + 5] && c[i + 6] == b[o + 6] && c[i + 7] == b[o + 7]);
    }
}

/// The serialised form of a control stack holds each height in its own
/// group of eight bytes.
proof fn lemma_control_layout(heights: Seq<usize>)
    ensures
        control_bytes(heights).len() == 8 * heights.len(),
        forall|k: int|
            0 <= k < heights.len() ==> crate::bytes::u64_at(control_bytes(heights), 8 * k) == heights[k] as u64,
    decreases heights.len(),
{
    if heights.len() > 0 {
        let d = heights.drop_last();
        lemma_control_layout(d);
        let p = control_bytes(d);
        let x = heights.last() as u64;
        crate::bytes::lemma_le64_roundtrip(x);
        assert forall|k: int| 0 <= k < heights.len() implies crate::bytes::u64_at(control_bytes(heights), 8 * k)
            == heights[k] as u64 by {
            lemma_u64_at_concat(p, crate::bytes::le64(x), 8 * k);
            if k < d.len() {
                assert(heights[k] == d[k]);
            }
        }
    }
}

/// Reading back the serialised form of a control stack gives its heights.
pub proof fn lemma_control_roundtrip(heights: Seq<usize>)
    ensures
        control_heights(control_bytes(heights)) == heights,
{
    lemma_control_layout(heights);
    assert(control_heights(control_bytes(heights)) =~= heights);
}

/// The heights read back from serialised bytes: one for each whole group of
/// eight bytes.
pub open spec fn control_heights(bytes: Seq<u8>) -> Seq<usize> {
    Seq::new((bytes.len() / 8) as nat, |k: int| crate::bytes::u64_at(bytes, 8 * k) as usize)
}

impl Default for ControlStack {
    fn default() -> (s: Self)
        ensures
            s.heights() == Seq::<usize>::empty(),
    {
        ControlStack::new()
    }
}

#[verifier::ext_equal]
/// What an interpreter state holds, as plain values.
pub struct InterpreterView {
    pub pc: usize,
    pub locals: Seq<WasmValue>,
    pub operands: Seq<WasmValue>,
    pub operand_limit: usize,
    pub controls: Seq<usize>,
    pub interpreter_id: u64,
    pub suspension_epoch: u64,
}

#[derive(Debug, Clone)]
/// The interpreter's state at a safepoint.
pub struct InterpreterState {
    /// Offset of the next instruction in the function body.
    pub pc: usize,
    /// Locals of the current frame.
    pub locals: Vec<WasmValue>,
    /// The operand stack.
    pub operand_stack: OperandStack,
    /// The control stack.
    pub control_stack: ControlStack,
    /// The interpreter that captured the state.
    pub interpreter_id: u64,
    /// The interpreter's suspension epoch when the state was captured.
    pub suspension_epoch: u64,
}

impl View for InterpreterState {
    type V = InterpreterView;

    open spec fn view(&self) -> InterpreterView {
        InterpreterView {
            pc: self.pc,
            locals: self.locals@,
            operands: self.operand_stack.values(),
            operand_limit: self.operand_stack.max_size(),
            controls: self.control_stack.heights(),
            interpreter_id: self.interpreter_id,
            suspension_epoch: self.suspension_epoch,
        }
    }
}

impl InterpreterState {
    /// Captures an interpreter state.
    pub fn capture(
        pc: usize,
        locals: Vec<WasmValue>,
        operand_stack: OperandStack,
        control_stack: ControlStack,
        interpreter_id: u64,
        suspension_epoch: u64,
    ) -> (s: Self)
        ensures
            s.pc == pc,
            s.locals@ == locals@,
            s.operand_stack.values() == operand_stack.values(),
            s.operand_stack.max_size() == operand_stack.max_size(),
            s.control_stack.heights() == control_stack.heights(),
            s.interpreter_id == interpreter_id,
            s.suspension_epoch == suspension_epoch,
    {
        InterpreterState {
            pc,
            locals,
            operand_stack,
            control_stack,
            interpreter_id,
            suspension_epoch,
        }
    }

    /// Returns copies of the program counter, locals and stacks.
    pub fn restore(&self) -> (r: (usize, Vec<WasmValue>, OperandStack, ControlStack))
        ensures
            r.0 == self.pc,
            r.1@ == self.locals@,
            r.2.values() == self.operand_stack.values(),
            r.2.max_size() == self.operand_stack.max_size(),
            r.3.heights() == self.control_stack.heights(),
    {
        (
            self.pc,
            copy_slice(self.locals.as_slice()),
            self.operand_stack.duplicate(),
            self.control_stack.duplicate(),
        )
    }

    /// Returns a copy of this state.
    pub fn duplicate(&self) -> (r: Self)
        ensures
            r@ == self@,
    {
        InterpreterState {
            pc: self.pc,
            locals: copy_slice(self.locals.as_slice()),
            operand_stack: self.operand_stack.duplicate(),
            control_stack: self.control_stack.duplicate(),
            interpreter_id: self.interpreter_id,
            suspension_epoch: self.suspension_epoch,
        }
    }
}


/// What a suspended compiled execution holds, as plain values.
pub enum JitView {
    Pending {
        func_idx: u32,
        args: Seq<WasmValue>,
        jit_id: u64,
        execution_epoch: u64,
        context_id: u64,
        resume_pc: u32,
    },
    Suspended {
        func_idx: u32,
        jit_id: u64,
        execution_epoch: u64,
        context_id: u64,
        saved_registers: Seq<u64>,
        stack_pointer: u64,
        frame_pointer: u64,
    },
}

#[derive(Debug, Clone)]
/// The state of a suspended compiled execution.
pub enum JitState {
    /// A call that has not started yet.
    Pending {
        func_idx: u32,
        args: Vec<WasmValue>,
        jit_id: u64,
        execution_epoch: u64,
        context_id: u64,
        resume_pc: u32,
    },
    /// A call stopped in the middle, with its saved machine state.
    Suspended {
        func_idx: u32,
        jit_id: u64,
        execution_epoch: u64,
        context_id: u64,
        saved_registers: Vec<u64>,
        stack_pointer: u64,
        frame_pointer: u64,
    },
}

impl View for JitState {
    type V = JitView;

    open spec fn view(&self) -> JitView {
        match *self {
            JitState::Pending { func_idx, args, jit_id, execution_epoch, context_id, resume_pc } =>
                JitView::Pending {
                func_idx,
                args: args@,
                jit_id,
                execution_epoch,
                context_id,
                resume_pc,
            },
            JitState::Suspended {
                func_idx,
                jit_id,
                execution_epoch,
                context_id,
                saved_registers,
                stack_pointer,
                frame_pointer,
            } => JitView::Suspended {
                func_idx,
                jit_id,
                execution_epoch,
                context_id,
                saved_registers: saved_registers@,
                stack_pointer,
                frame_pointer,
            },
        }
    }
}

impl JitState {
    /// Returns a copy of this state.
    pub fn duplicate(&self) -> (r: Self)
        ensures
            r@ == self@,
    {
        match self {
            JitState::Pending { func_idx, args, jit_id, execution_epoch, context_id, resume_pc } =>
                JitState::Pending {
                func_idx: *func_idx,
                args: copy_slice(args.as_slice()),
                jit_id: *jit_id,
                execution_epoch: *execution_epoch,
                context_id: *context_id,
                resume_pc: *resume_pc,
            },
            JitState::Suspended {
                func_idx,
                jit_id,
                execution_epoch,
                context_id,
                saved_registers,
                stack_pointer,
                frame_pointer,
            } => JitState::Suspended {
                func_idx: *func_idx,
                jit_id: *jit_id,
                execution_epoch: *execution_epoch,
                context_id: *context_id,
                saved_registers: copy_slice(saved_registers.as_slice()),
                stack_pointer: *stack_pointer,
                frame_pointer: *frame_pointer,
            },
        }
    }
}

/// What a suspension state holds, as plain values.
pub enum StateView {
    Interpreter(InterpreterView),
    Jit(JitView),
    HostcallPending {
        pending_work: Seq<u8>,
        result_types: Seq<ValType>,
        resume_state: Box<StateView>,
    },
    Empty,
}

#[derive(Debug)]
/// The state of a suspended execution.
pub enum SuspensionState {
    /// An interpreter execution.
    Interpreter(InterpreterState),
    /// A compiled execution.
    Jit(JitState),
    /// An execution waiting for a hostcall to complete: the work handed to
    /// the host, the types of the results it must return, and the state to
    /// resume with them.
    HostcallPending {
        pending_work: Vec<u8>,
        result_types: Vec<ValType>,
        resume_state: Box<SuspensionState>,
    },
    /// Nothing to resume.
    Empty,
}

/// The plain values that a suspension state holds.
pub open spec fn state_view(s: SuspensionState) -> StateView
    decreases s,
{
    match s {
        SuspensionState::Interpreter(st) => StateView::Interpreter(st@),
        SuspensionState::Jit(j) => StateView::Jit(j@),
        SuspensionState::HostcallPending { pending_work, result_types, resume_state } =>
            StateView::HostcallPending {
            pending_work: pending_work@,
            result_types: result_types@,
            resume_state: Box::new(state_view(*resume_state)),
        },
        SuspensionState::Empty => StateView::Empty,
    }
}

impl SuspensionState {
    /// Returns a copy of this state.
    pub fn duplicate(&self) -> (r: Self)
        ensures
            state_view(r) == state_view(*self),
        decreases self,
    {
        match self {
            SuspensionState::Interpreter(st) => SuspensionState::Interpreter(st.duplicate()),
            SuspensionState::Jit(j) => SuspensionState::Jit(j.duplicate()),
            SuspensionState::HostcallPending { pending_work, result_types, resume_state } => {
                let inner = (**resume_state).duplicate();
                SuspensionState::HostcallPending {
                    pending_work: copy_slice(pending_work.as_slice()),
                    result_types: copy_slice(result_types.as_slice()),
                    resume_state: Box::new(inner),
                }
            },
            SuspensionState::Empty => SuspensionState::Empty,
        }
    }
}

impl Default for SuspensionState {
    fn default() -> (s: Self)
        ensures
            s is Empty,
    {
        SuspensionState::Empty
    }
}


/// How a value type prints in its `Debug` form.
pub open spec fn val_type_debug(t: ValType) -> Seq<char> {
    match t {
        ValType::Num(NumType::I32) => "Num(I32)"@,
        ValType::Num(NumType::I64) => "Num(I64)"@,
        ValType::Num(NumType::F32) => "Num(F32)"@,
        ValType::Num(NumType::F64) => "Num(F64)"@,
        ValType::Ref(RefType::FuncRef) => "Ref(FuncRef)"@,
        ValType::Ref(RefType::ExternRef) => "Ref(ExternRef)"@,
    }
}

/// Returns the `Debug` form of a value type.
pub(crate) fn val_type_debug_str(t: ValType) -> (s: &'static str)
    ensures
        s@ == val_type_debug(t),
{
    proof {
        reveal_strlit("Num(I32)");
        reveal_strlit("Num(I64)");
        reveal_strlit("Num(F32)");
        reveal_strlit("Num(F64)");
        reveal_strlit("Ref(FuncRef)");
        reveal_strlit("Ref(ExternRef)");
    }
    match t {
        ValType::Num(NumType::I32) => "Num(I32)",
        ValType::Num(NumType::I64) => "Num(I64)",
        ValType::Num(NumType::F32) => "Num(F32)",
        ValType::Num(NumType::F64) => "Num(F64)",
        ValType::Ref(RefType::FuncRef) => "Ref(FuncRef)",
        ValType::Ref(RefType::ExternRef) => "Ref(ExternRef)",
    }
}

/// The complaint about the first result, from index `i` on, whose type is
/// not the expected one; `None` if there is none.
pub open spec fn type_check_from(results: Seq<WasmValue>, expected: Seq<ValType>, i: nat) -> Option<
    Seq<char>,
>
    decreases results.len() - i,
{
    if i >= results.len() {
        None
    } else if value_type(results[i as int]) != expected[i as int] {
        Some(
            "hostcall result "@ + decimal_chars(i) + " type mismatch: expected "@ + val_type_debug(
                expected[i as int],
            ) + ", got "@ + val_type_debug(value_type(results[i as int])),
        )
    } else {
        type_check_from(results, expected, i + 1)
    }
}

/// The complaint about hostcall results that do not match the expected
/// types (first their count, then each type in order); `None` if they match.
pub open spec fn hostcall_check(results: Seq<WasmValue>, expected: Seq<ValType>) -> Option<
    Seq<char>,
> {
    if results.len() != expected.len() {
        Some(
            "hostcall result count mismatch: expected "@ + decimal_chars(expected.len()) + ", got "@
                + decimal_chars(results.len()),
        )
    } else {
        type_check_from(results, expected, 0)
    }
}

/// A failed resumption: the kind of error and its text.
pub enum ResumeFailure {
    NotSuspended(Seq<char>),
    InvalidState(Seq<char>),
    Unsupported(Seq<char>),
    Pending,
}

/// The kind and text of a suspension error.
pub open spec fn failure_of(e: SuspensionError) -> ResumeFailure {
    match e {
        SuspensionError::InstanceNotSuspended(m) => ResumeFailure::NotSuspended(m@),
        SuspensionError::InvalidResumeState(m) => ResumeFailure::InvalidState(m@),
        SuspensionError::UnsupportedSuspensionState(m) => ResumeFailure::Unsupported(m@),
        SuspensionError::HostcallPending => ResumeFailure::Pending,
    }
}

/// The outcome of a resumption, as plain values.
pub open spec fn outcome(r: Result<SuspensionState, SuspensionError>) -> Result<
    StateView,
    ResumeFailure,
> {
    match r {
        Ok(s) => Ok(state_view(s)),
        Err(e) => Err(failure_of(e)),
    }
}

/// The state after pushing hostcall results onto an interpreter's operand
/// stack, in order; a stack without room for all of them overflows on the
/// first push that finds it full. Only
/// interpreter states take results.
pub open spec fn apply_results(state: StateView, results: Seq<WasmValue>) -> Result<
    StateView,
    ResumeFailure,
> {
    match state {
        StateView::Interpreter(iv) => if results.len() == 0 || iv.operands.len() + results.len()
            <= iv.operand_limit {
            Ok(StateView::Interpreter(InterpreterView { operands: iv.operands + results, ..iv }))
        } else {
            Err(
                ResumeFailure::InvalidState(error_text(WasmError::Trap(TrapCode::StackOverflow))),
            )
        },
        _ => Err(
            ResumeFailure::Unsupported(
                "hostcall completion is only supported for interpreter state"@,
            ),
        ),
    }
}

/// What resuming gives: the captured state, once, unless a hostcall is
/// pending or there is nothing to resume.
pub open spec fn resume_spec(state: StateView, suspended: bool) -> Result<StateView, ResumeFailure> {
    match state {
        StateView::HostcallPending { .. } => Err(ResumeFailure::Pending),
        StateView::Empty => Err(ResumeFailure::InvalidState("no suspension state to resume"@)),
        _ => if suspended {
            Ok(state)
        } else {
            Err(ResumeFailure::NotSuspended("instance is not suspended"@))
        },
    }
}

/// What completing a pending hostcall gives: the state to resume with the
/// results pushed, when the instance is suspended on a hostcall and the
/// results have the expected types.
pub open spec fn hostcall_spec(state: StateView, suspended: bool, results: Seq<WasmValue>) -> Result<
    StateView,
    ResumeFailure,
> {
    if !suspended {
        Err(ResumeFailure::NotSuspended("instance is not suspended"@))
    } else {
        match state {
            StateView::HostcallPending { pending_work, result_types, resume_state } => {
                match hostcall_check(results, result_types) {
                    Some(m) => Err(ResumeFailure::InvalidState(m)),
                    None => apply_results(*resume_state, results),
                }
            },
            _ => Err(ResumeFailure::InvalidState("not in hostcall pending state"@)),
        }
    }
}

/// Checks hostcall results against the expected result types.
fn validate_hostcall_results(results: &[WasmValue], expected: &[ValType]) -> (r: Result<
    (),
    SuspensionError,
>)
    ensures
        match hostcall_check(results@, expected@) {
            None => r is Ok,
            Some(m) => r is Err && failure_of(r->Err_0) == ResumeFailure::InvalidState(m),
        },
{
    if results.len() != expected.len() {
        let mut s = String::from_str("hostcall result count mismatch: expected ");
        push_decimal(&mut s, expected.len() as u64);
        s.append(", got ");
        push_decimal(&mut s, results.len() as u64);
        proof {
            reveal_strlit("hostcall result count mismatch: expected ");
            reveal_strlit(", got ");
        }
        return Err(SuspensionError::InvalidResumeState(s));
    }
    let mut i: usize = 0;
    while i < results.len()
        invariant
            results@.len() == expected@.len(),
            0 <= i <= results@.len(),
            type_check_from(results@, expected@, 0) == type_check_from(
                results@,
                expected@,
                i as nat,
            ),
        decreases results@.len() - i,
    {
        let got = results[i].val_type();
        let want = expected[i];
        if got != want {
            let mut s = String::from_str("hostcall result ");
            push_decimal(&mut s, i as u64);
            s.append(" type mismatch: expected ");
            s.append(val_type_debug_str(want));
            s.append(", got ");
            s.append(val_type_debug_str(got));
            proof {
                reveal_strlit("hostcall result ");
                reveal_strlit(" type mismatch: expected ");
                reveal_strlit(", got ");
            }
            return Err(SuspensionError::InvalidResumeState(s));
        }
        i = i + 1;
    }
    Ok(())
}

/// Pushes hostcall results onto the operand stack of an interpreter state.
fn apply_hostcall_results(state: SuspensionState, results: &[WasmValue]) -> (r: Result<
    SuspensionState,
    SuspensionError,
>)
    ensures
        outcome(r) == apply_results(state_view(state), results@),
{
    let ghost whole = state_view(state);
    match state {
        SuspensionState::Interpreter(st) => {
            let mut st = st;
            let ghost start = st@;
            let mut i: usize = 0;
            while i < results.len()
                invariant
                    0 <= i <= results@.len(),
                    whole == StateView::Interpreter(start),
                    whole == state_view(state),
                    st@ == (InterpreterView {
                        operands: start.operands + results@.subrange(0, i as int),
                        ..start
                    }),
                    i > 0 ==> start.operands.len() + i <= start.operand_limit,
                decreases results@.len() - i,
            {
                match st.operand_stack.push(results[i]) {
                    Ok(()) => {},
                    Err(e) => {
                        let msg = e.display_string();
                        return Err(SuspensionError::InvalidResumeState(msg));
                    },
                }
                proof {
                    assert(start.operands + results@.subrange(0, i + 1) =~= (start.operands
                        + results@.subrange(0, i as int)).push(results@[i as int]));
                }
                i = i + 1;
            }
            proof {
                assert(results@.subrange(0, i as int) =~= results@);
            }
            Ok(SuspensionState::Interpreter(st))
        },
        _ => {
            proof {
                reveal_strlit("hostcall completion is only supported for interpreter state");
            }
            Err(
                SuspensionError::UnsupportedSuspensionState(
                    String::from_str("hostcall completion is only supported for interpreter state"),
                ),
            )
        },
    }
}


#[derive(Debug)]
/// A suspended execution: the engine it ran on, its state, whether it is
/// still suspended, and its identifier.
pub struct SuspendedInstance {
    engine: ExecutionEngine,
    state: SuspensionState,
    suspended: bool,
    instance_id: u64,
}

impl SuspendedInstance {
    /// The engine the execution ran on.
    pub closed spec fn engine_kind(&self) -> ExecutionEngine {
        self.engine
    }

    /// The captured state, as plain values.
    pub closed spec fn state_model(&self) -> StateView {
        state_view(self.state)
    }

    /// Whether the execution is still suspended.
    pub closed spec fn suspended_flag(&self) -> bool {
        self.suspended
    }

    /// The identifier of the suspended execution.
    pub closed spec fn id(&self) -> u64 {
        self.instance_id
    }

    /// A suspended interpreter execution.
    pub fn new_interpreter(state: InterpreterState, instance_id: u64) -> (s: Self)
        ensures
            s.engine_kind() == ExecutionEngine::Interpreter,
            s.state_model() == StateView::Interpreter(state@),
            s.suspended_flag(),
            s.id() == instance_id,
    {
        SuspendedInstance {
            engine: ExecutionEngine::Interpreter,
            state: SuspensionState::Interpreter(state),
            suspended: true,
            instance_id,
        }
    }

    /// A compiled call that is suspended before it starts.
    pub fn new_jit(
        func_idx: u32,
        args: Vec<WasmValue>,
        jit_id: u64,
        execution_epoch: u64,
        context_id: u64,
        instance_id: u64,
    ) -> (s: Self)
        ensures
            s.engine_kind() == (ExecutionEngine::Jit { func_idx }),
            s.state_model() == StateView::Jit(
                JitView::Pending {
                    func_idx,
                    args: args@,
                    jit_id,
                    execution_epoch,
                    context_id,
                    resume_pc: 0,
                },
            ),
            s.suspended_flag(),
            s.id() == instance_id,
    {
        SuspendedInstance {
            engine: ExecutionEngine::Jit { func_idx },
            state: SuspensionState::Jit(
                JitState::Pending { func_idx, args, jit_id, execution_epoch, context_id, resume_pc: 0 },
            ),
            suspended: true,
            instance_id,
        }
    }

    /// An interpreter execution that waits on a hostcall, with the given
    /// expected result types.
    fn pending_hostcall(
        pending_work: Vec<u8>,
        result_types: Vec<ValType>,
        resume_state: SuspensionState,
        instance_id: u64,
    ) -> (s: Self)
        ensures
            s.engine_kind() == ExecutionEngine::Interpreter,
            s.state_model() == (StateView::HostcallPending {
                pending_work: pending_work@,
                result_types: result_types@,
                resume_state: Box::new(state_view(resume_state)),
            }),
            s.suspended_flag(),
            s.id() == instance_id,
    {
        SuspendedInstance {
            engine: ExecutionEngine::Interpreter,
            state: SuspensionState::HostcallPending {
                pending_work,
                result_types,
                resume_state: Box::new(resume_state),
            },
            suspended: true,
            instance_id,
        }
    }

    /// An interpreter execution that waits on a hostcall that returns no
    /// results; its identifier is 0 until one is set.
    pub fn with_pending_hostcall(pending_work: Vec<u8>, resume_state: SuspensionState) -> (s: Self)
        ensures
            s.engine_kind() == ExecutionEngine::Interpreter,
            s.state_model() == (StateView::HostcallPending {
                pending_work: pending_work@,
                result_types: Seq::<ValType>::empty(),
                resume_state: Box::new(state_view(resume_state)),
            }),
            s.suspended_flag(),
            s.id() == 0,
    {
        let types: Vec<ValType> = Vec::new();
        SuspendedInstance::pending_hostcall(pending_work, types, resume_state, 0)
    }

    /// Returns whether the execution is still suspended.
    pub fn is_suspended(&self) -> (b: bool)
        ensures
            b == self.suspended_flag(),
    {
        self.suspended
    }

    /// Returns the engine the execution ran on.
    pub fn engine(&self) -> (e: &ExecutionEngine)
        ensures
            *e == self.engine_kind(),
    {
        &self.engine
    }

    /// Returns the captured state.
    pub fn state(&self) -> (s: &SuspensionState)
        ensures
            state_view(*s) == self.state_model(),
    {
        &self.state
    }

    /// Replaces the captured state.
    pub fn set_state(&mut self, state: SuspensionState)
        ensures
            final(self).state_model() == state_view(state),
            final(self).engine_kind() == old(self).engine_kind(),
            final(self).suspended_flag() == old(self).suspended_flag(),
            final(self).id() == old(self).id(),
    {
        self.state = state;
    }

    /// Returns the identifier of the suspended execution.
    pub fn instance_id(&self) -> (id: u64)
        ensures
            id == self.id(),
    {
        self.instance_id
    }

    /// Sets the identifier of the suspended execution.
    pub fn set_instance_id(&mut self, id: u64)
        ensures
            final(self).id() == id,
            final(self).engine_kind() == old(self).engine_kind(),
            final(self).state_model() == old(self).state_model(),
            final(self).suspended_flag() == old(self).suspended_flag(),
    {
        self.instance_id = id;
    }

    /// Resumes the execution: hands out a copy of the captured state and
    /// marks the execution as no longer suspended. A pending hostcall, an
    /// empty state or an execution that was already resumed is refused, and
    /// the instance is left as it was.
    pub fn resume(&mut self) -> (r: Result<SuspensionState, SuspensionError>)
        ensures
            outcome(r) == resume_spec(old(self).state_model(), old(self).suspended_flag()),
            final(self).suspended_flag() == (old(self).suspended_flag() && !(r is Ok)),
            final(self).state_model() == old(self).state_model(),
            final(self).engine_kind() == old(self).engine_kind(),
            final(self).id() == old(self).id(),
    {
        match &self.state {
            SuspensionState::HostcallPending { .. } => {
                return Err(SuspensionError::HostcallPending);
            },
            SuspensionState::Empty => {
                proof {
                    reveal_strlit("no suspension state to resume");
                }
                return Err(
                    SuspensionError::InvalidResumeState(
                        String::from_str("no suspension state to resume"),
                    ),
                );
            },
            _ => {},
        }
        let state = self.state.duplicate();
        if self.suspended {
            self.suspended = false;
            Ok(state)
        } else {
            proof {
                reveal_strlit("instance is not suspended");
            }
            Err(SuspensionError::InstanceNotSuspended(String::from_str("instance is not suspended")))
        }
    }

    /// Completes a pending hostcall with its results and resumes: the
    /// results are checked against the expected types and pushed onto the
    /// operand stack of the state to resume, which becomes the captured state
    /// and is handed out; the execution is no longer suspended. On any
    /// failure the instance is left as it was.
    pub fn resume_after_hostcall(&mut self, results: &[WasmValue]) -> (r: Result<
        SuspensionState,
        SuspensionError,
    >)
        ensures
            outcome(r) == hostcall_spec(
                old(self).state_model(),
                old(self).suspended_flag(),
                results@,
            ),
            r is Ok ==> final(self).state_model() == state_view(r->Ok_0) && !final(self).suspended_flag(),
            r is Err ==> final(self).state_model() == old(self).state_model()
                && final(self).suspended_flag() == old(self).suspended_flag(),
            final(self).engine_kind() == old(self).engine_kind(),
            final(self).id() == old(self).id(),
    {
        if !self.suspended {
            proof {
                reveal_strlit("instance is not suspended");
            }
            return Err(
                SuspensionError::InstanceNotSuspended(String::from_str("instance is not suspended")),
            );
        }
        let restored = match &self.state {
            SuspensionState::HostcallPending { result_types, resume_state, .. } => {
                match validate_hostcall_results(results, result_types.as_slice()) {
                    Err(e) => {
                        return Err(e);
                    },
                    Ok(()) => {},
                }
                let inner = (**resume_state).duplicate();
                match apply_hostcall_results(inner, results) {
                    Err(e) => {
                        return Err(e);
                    },
                    Ok(st) => st,
                }
            },
            _ => {
                proof {
                    reveal_strlit("not in hostcall pending state");
                }
                return Err(
                    SuspensionError::InvalidResumeState(
                        String::from_str("not in hostcall pending state"),
                    ),
                );
            },
        };
        let handed_out = restored.duplicate();
        self.state = restored;
        self.suspended = false;
        Ok(handed_out)
    }
}


/// The interpreter state that a suspension resumes into, directly or after
/// a pending hostcall.
pub open spec fn resumed_interpreter(state: StateView) -> Option<InterpreterView> {
    match state {
        StateView::Interpreter(iv) => Some(iv),
        StateView::HostcallPending { resume_state, .. } => match *resume_state {
            StateView::Interpreter(iv) => Some(iv),
            _ => None,
        },
        _ => None,
    }
}

/// The identifier and epoch of a suspended compiled execution.
pub open spec fn jit_ids(state: StateView) -> Option<(u64, u64)> {
    match state {
        StateView::Jit(JitView::Pending { jit_id, execution_epoch, .. }) => Some(
            (jit_id, execution_epoch),
        ),
        StateView::Jit(JitView::Suspended { jit_id, execution_epoch, .. }) => Some(
            (jit_id, execution_epoch),
        ),
        _ => None,
    }
}

#[derive(Debug)]
/// A handle on a suspended execution, through which it is inspected and
/// resumed.
pub struct SuspendedHandle {
    instance: SuspendedInstance,
}

impl SuspendedHandle {
    /// The suspended execution behind the handle.
    pub closed spec fn inner(&self) -> SuspendedInstance {
        self.instance
    }

    /// Wraps a suspended execution in a handle.
    pub fn new(instance: SuspendedInstance) -> (h: Self)
        ensures
            h.inner() == instance,
    {
        SuspendedHandle { instance }
    }

    /// Returns whether the execution is still suspended.
    pub fn is_suspended(&self) -> (b: bool)
        ensures
            b == self.inner().suspended_flag(),
    {
        self.instance.is_suspended()
    }

    /// Returns whether the execution waits on a hostcall.
    pub fn has_pending_hostcall(&self) -> (b: bool)
        ensures
            b == (self.inner().state_model() is HostcallPending),
    {
        match self.instance.state() {
            SuspensionState::HostcallPending { .. } => true,
            _ => false,
        }
    }

    /// Returns the identifier of the interpreter that the execution resumes
    /// into, if it resumes into one.
    pub fn interpreter_id(&self) -> (r: Option<u64>)
        ensures
            r == match resumed_interpreter(self.inner().state_model()) {
                Some(iv) => Some(iv.interpreter_id),
                None => None::<u64>,
            },
    {
        proof {
            reveal_with_fuel(state_view, 2);
        }
        match self.instance.state() {
            SuspensionState::Interpreter(st) => Some(st.interpreter_id),
            SuspensionState::HostcallPending { resume_state, .. } => match &**resume_state {
                SuspensionState::Interpreter(st) => Some(st.interpreter_id),
                _ => None,
            },
            _ => None,
        }
    }

    /// Returns the suspension epoch of the interpreter state that the
    /// execution resumes into, if it resumes into one.
    pub fn suspension_epoch(&self) -> (r: Option<u64>)
        ensures
            r == match resumed_interpreter(self.inner().state_model()) {
                Some(iv) => Some(iv.suspension_epoch),
                None => None::<u64>,
            },
    {
        proof {
            reveal_with_fuel(state_view, 2);
        }
        match self.instance.state() {
            SuspensionState::Interpreter(st) => Some(st.suspension_epoch),
            SuspensionState::HostcallPending { resume_state, .. } => match &**resume_state {
                SuspensionState::Interpreter(st) => Some(st.suspension_epoch),
                _ => None,
            },
            _ => None,
        }
    }

    /// Returns the identifier of the compiled code, for a compiled execution.
    pub fn jit_id(&self) -> (r: Option<u64>)
        ensures
            r == match jit_ids(self.inner().state_model()) {
                Some(p) => Some(p.0),
                None => None::<u64>,
            },
    {
        match self.instance.state() {
            SuspensionState::Jit(JitState::Pending { jit_id, .. }) => Some(*jit_id),
            SuspensionState::Jit(JitState::Suspended { jit_id, .. }) => Some(*jit_id),
            _ => None,
        }
    }

    /// Returns the execution epoch of a compiled execution.
    pub fn jit_execution_epoch(&self) -> (r: Option<u64>)
        ensures
            r == match jit_ids(self.inner().state_model()) {
                Some(p) => Some(p.1),
                None => None::<u64>,
            },
    {
        match self.instance.state() {
            SuspensionState::Jit(JitState::Pending { execution_epoch, .. }) => Some(
                *execution_epoch,
            ),
            SuspensionState::Jit(JitState::Suspended { execution_epoch, .. }) => Some(
                *execution_epoch,
            ),
            _ => None,
        }
    }

    /// Returns a copy of the work handed to the host, if a hostcall is
    /// pending.
    pub fn pending_work(&self) -> (r: Option<Vec<u8>>)
        ensures
            match self.inner().state_model() {
                StateView::HostcallPending { pending_work, .. } => r is Some && r->Some_0@
                    == pending_work,
                _ => r is None,
            },
    {
        match self.instance.state() {
            SuspensionState::HostcallPending { pending_work, .. } => Some(
                copy_slice(pending_work.as_slice()),
            ),
            _ => None,
        }
    }

    /// Completes a pending hostcall and resumes (see
    /// `SuspendedInstance::resume_after_hostcall`).
    pub fn resume_after_hostcall(&mut self, results: &[WasmValue]) -> (r: Result<
        SuspensionState,
        SuspensionError,
    >)
        ensures
            outcome(r) == hostcall_spec(
                old(self).inner().state_model(),
                old(self).inner().suspended_flag(),
                results@,
            ),
            r is Ok ==> final(self).inner().state_model() == state_view(r->Ok_0) && !final(self).inner().suspended_flag(),
            r is Err ==> final(self).inner().state_model() == old(self).inner().state_model()
                && final(self).inner().suspended_flag() == old(self).inner().suspended_flag(),
            final(self).inner().engine_kind() == old(self).inner().engine_kind(),
            final(self).inner().id() == old(self).inner().id(),
    {
        self.instance.resume_after_hostcall(results)
    }

    /// Resumes the execution (see `SuspendedInstance::resume`).
    pub fn resume(&mut self) -> (r: Result<SuspensionState, SuspensionError>)
        ensures
            outcome(r) == resume_spec(
                old(self).inner().state_model(),
                old(self).inner().suspended_flag(),
            ),
            final(self).inner().suspended_flag() == (old(self).inner().suspended_flag() && !(
            r is Ok)),
            final(self).inner().state_model() == old(self).inner().state_model(),
            final(self).inner().engine_kind() == old(self).inner().engine_kind(),
            final(self).inner().id() == old(self).inner().id(),
    {
        self.instance.resume()
    }

    /// Returns the engine the execution ran on.
    pub fn engine(&self) -> (e: &ExecutionEngine)
        ensures
            *e == self.inner().engine_kind(),
    {
        self.instance.engine()
    }

    /// Returns the identifier of the suspended execution.
    pub fn instance_id(&self) -> (id: u64)
        ensures
            id == self.inner().id(),
    {
        self.instance.instance_id()
    }
    /// Returns the captured state of the suspended execution.
    pub fn suspension_state(&self) -> (s: &SuspensionState)
        ensures
            state_view(*s) == self.inner().state_model(),
    {
        self.instance.state()
    }
}

impl From<SuspendedInstance> for SuspendedHandle {
    fn from(instance: SuspendedInstance) -> (h: Self) {
        SuspendedHandle::new(instance)
    }
}

impl vstd::std_specs::convert::FromSpecImpl<SuspendedInstance> for SuspendedHandle {
    open spec fn obeys_from_spec() -> bool {
        true
    }

    closed spec fn from_spec(instance: SuspendedInstance) -> Self {
        SuspendedHandle { instance }
    }
}

/// The identifier that follows `id`, wrapping around at the end of the range.
pub open spec fn next_instance_id(id: u64) -> u64 {
    if id == u64::MAX {
        0
    } else {
        (id + 1) as u64
    }
}

/// Hands out handles on suspended executions, each with a fresh identifier.
pub struct RuntimeSuspender {
    next_id: u64,
}

impl RuntimeSuspender {
    /// The identifier that the next handle gets.
    pub closed spec fn upcoming_id(&self) -> u64 {
        self.next_id
    }

    /// Creates a suspender whose first handle gets identifier 1.
    pub fn new() -> (s: Self)
        ensures
            s.upcoming_id() == 1,
    {
        RuntimeSuspender { next_id: 1 }
    }

    /// Takes the next identifier.
    fn take_id(&mut self) -> (id: u64)
        ensures
            id == old(self).upcoming_id(),
            final(self).upcoming_id() == next_instance_id(id),
    {
        let id = self.next_id;
        self.next_id = self.next_id.wrapping_add(1);
        id
    }

    /// Suspends an interpreter execution at a safepoint.
    pub fn suspend_interpreter(
        &mut self,
        pc: usize,
        locals: Vec<WasmValue>,
        operand_stack: OperandStack,
        control_stack: ControlStack,
        interpreter_id: u64,
        suspension_epoch: u64,
    ) -> (h: SuspendedHandle)
        ensures
            h.inner().engine_kind() == ExecutionEngine::Interpreter,
            h.inner().state_model() == StateView::Interpreter(
                InterpreterView {
                    pc,
                    locals: locals@,
                    operands: operand_stack.values(),
                    operand_limit: operand_stack.max_size(),
                    controls: control_stack.heights(),
                    interpreter_id,
                    suspension_epoch,
                },
            ),
            h.inner().suspended_flag(),
            h.inner().id() == old(self).upcoming_id(),
            final(self).upcoming_id() == next_instance_id(old(self).upcoming_id()),
    {
        let state = InterpreterState::capture(
            pc,
            locals,
            operand_stack,
            control_stack,
            interpreter_id,
            suspension_epoch,
        );
        let instance_id = self.take_id();
        let instance = SuspendedInstance::new_interpreter(state, instance_id);
        SuspendedHandle::new(instance)
    }

    /// Suspends a compiled call before it starts.
    pub fn suspend_jit(
        &mut self,
        func_idx: u32,
        args: Vec<WasmValue>,
        jit_id: u64,
        execution_epoch: u64,
        context_id: u64,
    ) -> (h: SuspendedHandle)
        ensures
            h.inner().engine_kind() == (ExecutionEngine::Jit { func_idx }),
            h.inner().state_model() == StateView::Jit(
                JitView::Pending {
                    func_idx,
                    args: args@,
                    jit_id,
                    execution_epoch,
                    context_id,
                    resume_pc: 0,
                },
            ),
            h.inner().suspended_flag(),
            h.inner().id() == old(self).upcoming_id(),
            final(self).upcoming_id() == next_instance_id(old(self).upcoming_id()),
    {
        let instance_id = self.take_id();
        let instance = SuspendedInstance::new_jit(
            func_idx,
            args,
            jit_id,
            execution_epoch,
            context_id,
            instance_id,
        );
        SuspendedHandle::new(instance)
    }

    /// Suspends an interpreter execution on a hostcall: the work handed to
    /// the host, the types of the results it must return, and the state to
    /// resume with them.
    pub fn suspend_with_pending_hostcall(
        &mut self,
        pending_work: Vec<u8>,
        result_types: Vec<ValType>,
        state: InterpreterState,
    ) -> (h: SuspendedHandle)
        ensures
            h.inner().engine_kind() == ExecutionEngine::Interpreter,
            h.inner().state_model() == (StateView::HostcallPending {
                pending_work: pending_work@,
                result_types: result_types@,
                resume_state: Box::new(StateView::Interpreter(state@)),
            }),
            h.inner().suspended_flag(),
            h.inner().id() == old(self).upcoming_id(),
            final(self).upcoming_id() == next_instance_id(old(self).upcoming_id()),
    {
        let resume_state = SuspensionState::Interpreter(state);
        let instance_id = self.take_id();
        let instance = SuspendedInstance::pending_hostcall(
            pending_work,
            result_types,
            resume_state,
            instance_id,
        );
        SuspendedHandle::new(instance)
    }

    /// Returns whether the execution behind a handle is still suspended.
    pub fn is_suspended(handle: &SuspendedHandle) -> (b: bool)
        ensures
            b == handle.inner().suspended_flag(),
    {
        handle.is_suspended()
    }
}

impl Default for RuntimeSuspender {
    fn default() -> (s: Self)
        ensures
            s.upcoming_id() == 1,
    {
        RuntimeSuspender::new()
    }
}

/// A suspended execution is resumed at most once: once resuming has handed
/// out its state, resuming the instance it leaves behind (same state, no
/// longer suspended) is refused as not suspended, and so is completing a
/// hostcall on it.
pub proof fn lemma_resume_at_most_once(state: StateView, suspended: bool, results: Seq<WasmValue>)
    requires
        resume_spec(state, suspended) is Ok,
    ensures
        resume_spec(state, false) == Err::<StateView, ResumeFailure>(
            ResumeFailure::NotSuspended("instance is not suspended"@),
        ),
        hostcall_spec(state, false, results) == Err::<StateView, ResumeFailure>(
            ResumeFailure::NotSuspended("instance is not suspended"@),
        ),
{
}

/// While a hostcall is pending, a plain resume is refused; completing the
/// hostcall with results of the expected types, on a stack with room for
/// them, resumes the interpreter state with the results pushed on its operand
/// stack in order, after which neither kind of resumption is accepted again.
pub proof fn lemma_hostcall_completion(
    pending_work: Seq<u8>,
    result_types: Seq<ValType>,
    iv: InterpreterView,
    results: Seq<WasmValue>,
    later: Seq<WasmValue>,
)
    requires
        hostcall_check(results, result_types) is None,
        iv.operands.len() + results.len() <= iv.operand_limit,
    ensures
        ({
            let pending = StateView::HostcallPending {
                pending_work,
                result_types,
                resume_state: Box::new(StateView::Interpreter(iv)),
            };
            let resumed = StateView::Interpreter(
                InterpreterView { operands: iv.operands + results, ..iv },
            );
            &&& resume_spec(pending, true) == Err::<StateView, ResumeFailure>(
                ResumeFailure::Pending,
            )
            &&& hostcall_spec(pending, true, results) == Ok::<StateView, ResumeFailure>(resumed)
            &&& resume_spec(resumed, false) is Err
            &&& hostcall_spec(resumed, false, later) is Err
        }),
{
}

/// Hostcall results whose count differs from the expected one are refused
/// with both counts in the message.
pub proof fn lemma_hostcall_count_checked(results: Seq<WasmValue>, expected: Seq<ValType>)
    requires
        results.len() != expected.len(),
    ensures
        hostcall_check(results, expected) == Some(
            "hostcall result count mismatch: expected "@ + decimal_chars(expected.len()) + ", got "@
                + decimal_chars(results.len()),
        ),
{
}

/// Consecutive handles of one suspender get distinct identifiers.
pub proof fn lemma_consecutive_ids_differ(id: u64)
    ensures
        next_instance_id(id) != id,
{
}

} // verus!
