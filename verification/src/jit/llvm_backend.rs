//! The decisions of the LLVM JIT: which modules it accepts, what it plans to
//! compile, and the safepoint and suspension rules around a call of compiled
//! code.
//!
//! A call goes in three parts: `begin_invoke` checks the call and packs its
//! arguments, the compiled code runs, and `finish_invoke` reads what the
//! runtime helpers left in the execution context. A call that a safepoint
//! suspended leaves a handle; the JIT accepts no other call until that
//! handle is resumed with `try_resume` and the call continued with
//! `begin_continue`, on the same thread, in the same execution context.

use crate::jit::llvm_plan::{plan_function, plannable, function_plan, LlvmOp, Plan};
use crate::jit::llvm_runtime::{
    clear_trap, configure_safepoints, current_execution_context_id, has_execution_context,
    pack_wasm_value, packed, take_runtime_error, take_suspended_handle, take_trap,
    unpack_raw_value, unpacked, LlvmRuntimeContext,
};
use crate::runtime::error::{SuspensionKind, WasmError};
use crate::runtime::module::{Func, Module};
use crate::runtime::suspend::{
    jit_ids, resume_spec, val_type_debug, val_type_debug_str, JitState, JitView, ResumeFailure,
    StateView, SuspendedHandle, SuspensionState,
};
use crate::runtime::types::{FunctionType, ValType};
use crate::runtime::values::{value_type, WasmValue};
use crate::text::{decimal_chars, push_decimal};
use vstd::prelude::*;
use vstd::string::StringExecFns;

verus! {

/// Whether a value type is a reference type.
pub open spec fn is_ref(t: ValType) -> bool {
    t is Ref
}

/// The first function type, from index `i` on, that the JIT cannot compile,
/// and why: more than one result, or a reference parameter or result.
pub open spec fn first_bad_type(types: Seq<FunctionType>, i: int) -> Option<Seq<char>>
    decreases types.len() - i,
{
    if i < 0 || i >= types.len() {
        None
    } else if types[i].results@.len() > 1 {
        Some("LLVM JIT does not support multi-value function type "@ + decimal_chars(i as nat))
    } else if exists|k: int| 0 <= k < types[i].params@.len() && is_ref(#[trigger] types[i].params@[k])
        || exists|k: int| 0 <= k < types[i].results@.len() && is_ref(#[trigger] types[i].results@[k]) {
        Some("LLVM JIT does not support reference-typed function type "@ + decimal_chars(i as nat))
    } else {
        first_bad_type(types, i + 1)
    }
}

/// The first function, from index `i` on, with a reference-typed local.
pub open spec fn first_bad_func(funcs: Seq<Func>, i: int) -> Option<Seq<char>>
    decreases funcs.len() - i,
{
    if i < 0 || i >= funcs.len() {
        None
    } else if exists|k: int| 0 <= k < funcs[i].locals@.len() && is_ref(#[trigger] funcs[i].locals@[k].type_) {
        Some("LLVM JIT does not support reference-typed locals in function "@ + decimal_chars(i as nat))
    } else {
        first_bad_func(funcs, i + 1)
    }
}

/// Why the JIT refuses a module, if it does: the types are checked first,
/// then the locals.
pub open spec fn incompatibility(m: Module) -> Option<Seq<char>> {
    match first_bad_type(m.types@, 0) {
        Some(msg) => Some(msg),
        None => first_bad_func(m.funcs@, 0),
    }
}

/// Returns whether a list of value types holds a reference type.
fn has_ref(types: &[ValType]) -> (b: bool)
    ensures
        b == exists|k: int| 0 <= k < types@.len() && is_ref(#[trigger] types@[k]),
{
    let mut i: usize = 0;
    while i < types.len()
        invariant
            i <= types@.len(),
            forall|k: int| 0 <= k < i ==> !is_ref(#[trigger] types@[k]),
        decreases types@.len() - i,
    {
        if let ValType::Ref(_) = types[i] {
            return true;
        }
        i = i + 1;
    }
    false
}

/// Checks that the JIT can compile every type and function of a module.
pub fn validate_module_compatibility(module: &Module) -> (r: Result<(), WasmError>)
    ensures
        match incompatibility(*module) {
            None => r is Ok,
            Some(msg) => r matches Err(WasmError::Runtime(x)) && x@ == msg,
        },
{
    let mut i: usize = 0;
    while i < module.types.len()
        invariant
            i <= module.types@.len(),
            first_bad_type(module.types@, 0) == first_bad_type(module.types@, i as int),
        decreases module.types@.len() - i,
    {
        let ft = &module.types[i];
        if ft.results.len() > 1 {
            let mut m = String::from_str("LLVM JIT does not support multi-value function type ");
            push_decimal(&mut m, i as u64);
            proof {
                reveal_strlit("LLVM JIT does not support multi-value function type ");
            }
            return Err(WasmError::Runtime(m));
        }
        let ref_params = has_ref(ft.params.as_slice());
        let ref_results = has_ref(ft.results.as_slice());
        if ref_params || ref_results {
            let mut m = String::from_str("LLVM JIT does not support reference-typed function type ");
            push_decimal(&mut m, i as u64);
            proof {
                reveal_strlit("LLVM JIT does not support reference-typed function type ");
                let t = module.types@[i as int];
                if ref_params {
                    let k = choose|k: int| 0 <= k < ft.params@.len() && is_ref(#[trigger] ft.params@[k]);
                    assert(is_ref(t.params@[k]));
                } else {
                    let k = choose|k: int| 0 <= k < ft.results@.len() && is_ref(#[trigger] ft.results@[k]);
                    assert(is_ref(t.results@[k]));
                }
            }
            return Err(WasmError::Runtime(m));
        }
        i = i + 1;
    }
    let mut j: usize = 0;
    while j < module.funcs.len()
        invariant
            j <= module.funcs@.len(),
            first_bad_type(module.types@, 0) is None,
            first_bad_func(module.funcs@, 0) == first_bad_func(module.funcs@, j as int),
        decreases module.funcs@.len() - j,
    {
        let locals = &module.funcs[j].locals;
        let mut k: usize = 0;
        while k < locals.len()
            invariant
                j < module.funcs@.len(),
                first_bad_type(module.types@, 0) is None,
                first_bad_func(module.funcs@, 0) == first_bad_func(module.funcs@, j as int),
                *locals == module.funcs@[j as int].locals,
                k <= locals@.len(),
                forall|q: int| 0 <= q < k ==> !is_ref(#[trigger] locals@[q].type_),
            decreases locals@.len() - k,
        {
            if let ValType::Ref(_) = locals[k].type_ {
                assert(is_ref(module.funcs@[j as int].locals@[k as int].type_));
                let mut m = String::from_str("LLVM JIT does not support reference-typed locals in function ");
                push_decimal(&mut m, j as u64);
                proof {
                    reveal_strlit("LLVM JIT does not support reference-typed locals in function ");
                }
                return Err(WasmError::Runtime(m));
            }
            k = k + 1;
        }
        j = j + 1;
    }
    Ok(())
}

/// Copies a function type.
fn copy_function_type(t: &FunctionType) -> (r: FunctionType)
    ensures
        r.params@ == t.params@,
        r.results@ == t.results@,
{
    FunctionType { params: copy_types(t.params.as_slice()), results: copy_types(t.results.as_slice()) }
}

/// Copies a list of value types.
fn copy_types(v: &[ValType]) -> (r: Vec<ValType>)
    ensures
        r@ == v@,
{
    let mut r: Vec<ValType> = Vec::new();
    let mut i: usize = 0;
    while i < v.len()
        invariant
            i <= v@.len(),
            r@ == v@.subrange(0, i as int),
        decreases v@.len() - i,
    {
        r.push(v[i]);
        i = i + 1;
        proof {
            assert(r@ =~= v@.subrange(0, i as int));
        }
    }
    proof {
        assert(r@ =~= v@);
    }
    r
}

/// What the JIT compiles for function `func_idx` (the `local_idx`-th defined
/// function): its type, and the plan of its LLVM IR. The type is looked up
/// by `func_idx`, as the translator does.
pub open spec fn target_plan(m: Module, func_idx: u32, local_idx: u32) -> Result<(FunctionType, Plan), Seq<char>> {
    match crate::jit::llvm_plan::defined_type(m, func_idx) {
        None => Err("Function type not found for "@ + decimal_chars(func_idx as nat)),
        Some(ft) => Ok((ft, function_plan(m.funcs@[local_idx as int], func_idx, m))),
    }
}

/// Plans the compilation of function `func_idx`, the `local_idx`-th defined
/// function of the module: its type and its LLVM IR.
pub fn plan_compile_target(module: &Module, func_idx: u32, local_idx: u32) -> (r: Result<(FunctionType, Vec<LlvmOp>), WasmError>)
    requires
        local_idx < module.funcs@.len(),
        plannable(module.funcs@[local_idx as int], func_idx, *module),
    ensures
        match target_plan(*module, func_idx, local_idx) {
            Err(msg) => r matches Err(WasmError::Runtime(x)) && x@ == msg,
            Ok((ft, Plan::Ops(ops))) => r is Ok && r->Ok_0.0.params@ == ft.params@
                && r->Ok_0.0.results@ == ft.results@ && r->Ok_0.1@ == ops,
            Ok((_, Plan::Failed(msg))) => r matches Err(WasmError::Runtime(x)) && x@ == msg,
            Ok((_, Plan::Stuck)) => false,
        },
{
    let func = match module.defined_func_at(local_idx) {
        Some(f) => f,
        None => {
            return Err(WasmError::Runtime(String::new()));
        },
    };
    let func_type = match module.func_type(func_idx) {
        Some(t) => copy_function_type(t),
        None => {
            let mut m = String::from_str("Function type not found for ");
            push_decimal(&mut m, func_idx as u64);
            proof {
                reveal_strlit("Function type not found for ");
            }
            return Err(WasmError::Runtime(m));
        },
    };
    match plan_function(func, func_idx, module) {
        Ok(ops) => Ok((func_type, ops)),
        Err(e) => Err(e),
    }
}


/// The text of a failed resumption, as the error displays it.
pub open spec fn failure_text(f: ResumeFailure) -> Seq<char> {
    match f {
        ResumeFailure::NotSuspended(m) => "Instance not suspended: "@ + m,
        ResumeFailure::InvalidState(m) => "Invalid resume state: "@ + m,
        ResumeFailure::Unsupported(m) => "Unsupported suspension state: "@ + m,
        ResumeFailure::Pending => "Hostcall is pending completion"@,
    }
}

/// The safepoint and suspension state of an LLVM JIT, and the types of the
/// functions it compiled.
pub struct LlvmJit {
    /// The type of each compiled function, by function index.
    pub compiled: std::collections::HashMap<u32, FunctionType>,
    /// Whether safepoints may suspend calls.
    pub safepoints_enabled: bool,
    /// Whether the next call is asked to suspend at its first safepoint.
    pub suspend_requested: bool,
    /// The handle of the call a safepoint suspended, until it is taken.
    pub suspended_handle: Option<SuspendedHandle>,
    /// The identifier of the suspension that must be resumed next.
    pub active_suspension_id: Option<u64>,
    /// The state of a resumed call that must be continued next.
    pub resumed_state: Option<JitState>,
    /// The identifier of this JIT.
    pub jit_id: u64,
    /// The number of calls started so far.
    pub execution_epoch: u64,
    /// The thread that started the last call.
    pub last_execution_thread: Option<u64>,
}

/// The resumed state of a JIT, as plain values.
pub open spec fn resumed_view(j: LlvmJit) -> Option<JitView> {
    match j.resumed_state {
        Some(s) => Some(s@),
        None => None,
    }
}

/// The JIT with the suspension request withdrawn.
pub open spec fn unrequested(j: LlvmJit) -> LlvmJit {
    LlvmJit { suspend_requested: false, ..j }
}

/// Why a JIT refuses to resume a handle before resuming it, if it does.
pub open spec fn resume_check(j: LlvmJit, h: crate::runtime::suspend::SuspendedInstance, thread: u64) -> Option<Seq<char>> {
    if j.last_execution_thread is Some && j.last_execution_thread != Some(thread) {
        Some("cross-thread JIT resume is unsupported"@)
    } else if jit_ids(h.state_model()) is Some && jit_ids(h.state_model())->Some_0.0 != j.jit_id {
        Some("suspended handle is from a different JIT instance"@)
    } else if jit_ids(h.state_model()) is Some && jit_ids(h.state_model())->Some_0.1 != j.execution_epoch {
        Some("suspended handle is from a previous JIT execution epoch"@)
    } else if j.active_suspension_id is Some && j.active_suspension_id != Some(h.id()) {
        Some("suspended handle does not match the active JIT suspension"@)
    } else {
        None
    }
}

/// Why a call cannot start while a suspension is pending, if it cannot.
pub open spec fn pending_block(j: LlvmJit) -> Option<Seq<char>> {
    if j.resumed_state is Some {
        Some("cannot invoke JIT function: resumed state must be continued first"@)
    } else if j.active_suspension_id is Some {
        Some("cannot invoke JIT function: suspended handle must be resumed first"@)
    } else {
        None
    }
}

/// Why a call cannot continue on this thread and context, if it cannot.
pub open spec fn continue_block(j: LlvmJit, thread: u64, has_context: bool) -> Option<Seq<char>> {
    if j.last_execution_thread != Some(thread) {
        Some("cross-thread JIT continue is unsupported"@)
    } else if !has_context {
        Some("JIT continue requires a current execution context"@)
    } else {
        None
    }
}

/// The complaint about the first argument, from `i` on, whose type is not
/// the parameter's.
pub open spec fn arg_type_check(params: Seq<ValType>, args: Seq<WasmValue>, i: nat) -> Option<Seq<char>>
    decreases args.len() - i,
{
    if i >= args.len() {
        None
    } else if value_type(args[i as int]) != params[i as int] {
        Some(
            "Argument "@ + decimal_chars(i) + " type mismatch: expected "@ + val_type_debug(params[i as int])
                + ", got "@ + val_type_debug(value_type(args[i as int])),
        )
    } else {
        arg_type_check(params, args, i + 1)
    }
}

/// Why the arguments do not fit a function type, if they do not: their
/// count, a type, or a reference that has no raw form.
pub open spec fn arg_problem(ft: FunctionType, args: Seq<WasmValue>) -> Option<Seq<char>> {
    if args.len() != ft.params@.len() {
        Some(
            "Argument count mismatch: expected "@ + decimal_chars(ft.params@.len()) + ", got "@
                + decimal_chars(args.len()),
        )
    } else if arg_type_check(ft.params@, args, 0) is Some {
        arg_type_check(ft.params@, args, 0)
    } else if exists|k: int| 0 <= k < args.len() && #[trigger] packed(args[k]) is None {
        Some("LLVM JIT currently supports numeric arguments only"@)
    } else {
        None
    }
}

/// The JIT after a call starts: a fresh call opens a new epoch on this thread.
pub open spec fn started(j: LlvmJit, start_new_epoch: bool, thread: u64) -> LlvmJit {
    if start_new_epoch {
        LlvmJit {
            execution_epoch: (j.execution_epoch + 1) as u64,
            last_execution_thread: Some(thread),
            ..j
        }
    } else {
        j
    }
}

/// A call ready to run: the raw arguments, and the result types (the code
/// writes at least one raw result slot).
pub struct PreparedCall {
    pub args: Vec<u64>,
    pub result_types: Vec<ValType>,
}

/// The raw form of each argument.
pub open spec fn packed_args(args: Seq<WasmValue>) -> Seq<u64> {
    args.map_values(|v: WasmValue| packed(v)->Some_0)
}

/// The values of raw results of the given types, or `None` when a type has
/// no raw form.
pub open spec fn unpacked_results(raw: Seq<u64>, types: Seq<ValType>) -> Option<Seq<WasmValue>> {
    if exists|k: int| 0 <= k < types.len() && #[trigger] unpacked(raw[k], types[k]) is None {
        None
    } else {
        Some(Seq::new(types.len(), |k: int| unpacked(raw[k], types[k])->Some_0))
    }
}

impl LlvmJit {
    /// A JIT with identifier `jit_id`, nothing compiled and safepoints off.
    pub fn new(jit_id: u64) -> (j: Self)
        ensures
            j.compiled@ == Map::<u32, FunctionType>::empty(),
            !j.safepoints_enabled,
            !j.suspend_requested,
            j.suspended_handle is None,
            j.active_suspension_id is None,
            j.resumed_state is None,
            j.jit_id == jit_id,
            j.execution_epoch == 0,
            j.last_execution_thread is None,
    {
        LlvmJit {
            compiled: std::collections::HashMap::new(),
            safepoints_enabled: false,
            suspend_requested: false,
            suspended_handle: None,
            active_suspension_id: None,
            resumed_state: None,
            jit_id,
            execution_epoch: 0,
            last_execution_thread: None,
        }
    }

    /// Lets safepoints suspend calls.
    pub fn enable_safepoints(&mut self)
        ensures
            *final(self) == (LlvmJit { safepoints_enabled: true, ..*old(self) }),
    {
        self.safepoints_enabled = true;
    }

    /// Stops safepoints from suspending calls, and withdraws a request.
    pub fn disable_safepoints(&mut self)
        ensures
            *final(self) == (LlvmJit { safepoints_enabled: false, suspend_requested: false, ..*old(self) }),
    {
        self.safepoints_enabled = false;
        self.suspend_requested = false;
    }

    /// Asks the next call to suspend at its first safepoint.
    pub fn request_safepoint(&mut self) -> (r: Result<(), WasmError>)
        ensures
            !old(self).safepoints_enabled ==> (r matches Err(WasmError::Runtime(m)) && m@
                == "JIT safepoints are not enabled"@) && *final(self) == *old(self),
            old(self).safepoints_enabled && (old(self).active_suspension_id is Some
                || old(self).resumed_state is Some) ==> (r matches Err(WasmError::Runtime(m)) && m@
                == "cannot request safepoint while suspended state is pending"@) && *final(self)
                == *old(self),
            old(self).safepoints_enabled && old(self).active_suspension_id is None
                && old(self).resumed_state is None ==> r is Ok && *final(self) == (LlvmJit {
                suspend_requested: true,
                ..*old(self)
            }),
    {
        if !self.safepoints_enabled {
            proof {
                reveal_strlit("JIT safepoints are not enabled");
            }
            return Err(WasmError::Runtime(String::from_str("JIT safepoints are not enabled")));
        }
        if self.active_suspension_id.is_some() || self.resumed_state.is_some() {
            proof {
                reveal_strlit("cannot request safepoint while suspended state is pending");
            }
            return Err(
                WasmError::Runtime(
                    String::from_str("cannot request safepoint while suspended state is pending"),
                ),
            );
        }
        self.suspend_requested = true;
        Ok(())
    }

    /// Takes the handle of the call a safepoint suspended.
    pub fn take_suspended_handle(&mut self) -> (h: Option<SuspendedHandle>)
        ensures
            h == old(self).suspended_handle,
            *final(self) == (LlvmJit { suspended_handle: None, ..*old(self) }),
    {
        self.suspended_handle.take()
    }

    /// Returns whether a suspension must be resumed or continued before the
    /// next call.
    pub fn is_suspended(&self) -> (b: bool)
        ensures
            b == (self.active_suspension_id is Some || self.resumed_state is Some),
    {
        self.active_suspension_id.is_some() || self.resumed_state.is_some()
    }

    /// Resumes the suspension behind `handle` on thread `thread`: the handle
    /// must come from this JIT's current epoch and be the active suspension;
    /// its state, which must be a compiled call, becomes the state to
    /// continue.
    pub fn try_resume(&mut self, handle: &mut SuspendedHandle, thread: u64) -> (r: Result<(), WasmError>)
        ensures
            ({
                let h = old(handle).inner();
                match resume_check(*old(self), h, thread) {
                    Some(msg) => (r matches Err(WasmError::Runtime(x)) && x@ == msg) && *final(self)
                        == *old(self) && *final(handle) == *old(handle),
                    None => {
                        &&& final(handle).inner().state_model() == h.state_model()
                        &&& final(handle).inner().id() == h.id()
                        &&& final(handle).inner().engine_kind() == h.engine_kind()
                        &&& final(handle).inner().suspended_flag() == (h.suspended_flag()
                            && resume_spec(h.state_model(), h.suspended_flag()) is Err)
                        &&& match resume_spec(h.state_model(), h.suspended_flag()) {
                            Err(f) => (r matches Err(WasmError::Runtime(x)) && x@ == "resume failed: "@
                                + failure_text(f)) && *final(self) == *old(self),
                            Ok(StateView::Jit(jv)) => r is Ok && final(self).suspended_handle is None
                                && final(self).active_suspension_id is None && resumed_view(*final(self))
                                == Some(jv) && final(self).compiled == old(self).compiled
                                && final(self).safepoints_enabled == old(self).safepoints_enabled
                                && final(self).suspend_requested == old(self).suspend_requested
                                && final(self).jit_id == old(self).jit_id
                                && final(self).execution_epoch == old(self).execution_epoch
                                && final(self).last_execution_thread == old(self).last_execution_thread,
                            Ok(_) => (r matches Err(WasmError::Runtime(x)) && x@
                                == "invalid JIT resume state"@) && *final(self) == *old(self),
                        }
                    },
                }
            }),
    {
        if let Some(t) = self.last_execution_thread {
            if t != thread {
                proof {
                    reveal_strlit("cross-thread JIT resume is unsupported");
                }
                return Err(WasmError::Runtime(String::from_str("cross-thread JIT resume is unsupported")));
            }
        }
        if let Some(id) = handle.jit_id() {
            if id != self.jit_id {
                proof {
                    reveal_strlit("suspended handle is from a different JIT instance");
                }
                return Err(
                    WasmError::Runtime(String::from_str("suspended handle is from a different JIT instance")),
                );
            }
        }
        if let Some(epoch) = handle.jit_execution_epoch() {
            if epoch != self.execution_epoch {
                proof {
                    reveal_strlit("suspended handle is from a previous JIT execution epoch");
                }
                return Err(
                    WasmError::Runtime(
                        String::from_str("suspended handle is from a previous JIT execution epoch"),
                    ),
                );
            }
        }
        if let Some(active) = self.active_suspension_id {
            if handle.instance_id() != active {
                proof {
                    reveal_strlit("suspended handle does not match the active JIT suspension");
                }
                return Err(
                    WasmError::Runtime(
                        String::from_str("suspended handle does not match the active JIT suspension"),
                    ),
                );
            }
        }
        match handle.resume() {
            Err(e) => {
                let mut m = String::from_str("resume failed: ");
                let text = e.message();
                m.append(text.as_str());
                proof {
                    reveal_strlit("resume failed: ");
                }
                Err(WasmError::Runtime(m))
            },
            Ok(SuspensionState::Jit(js)) => {
                self.suspended_handle = None;
                self.active_suspension_id = None;
                self.resumed_state = Some(js);
                Ok(())
            },
            Ok(_) => {
                proof {
                    reveal_strlit("invalid JIT resume state");
                }
                Err(WasmError::Runtime(String::from_str("invalid JIT resume state")))
            },
        }
    }

    /// Records the type of a compiled function.
    pub fn record_compiled(&mut self, func_idx: u32, func_type: FunctionType)
        ensures
            *final(self) == (LlvmJit { compiled: final(self).compiled, ..*old(self) }),
            final(self).compiled@ == old(self).compiled@.insert(func_idx, func_type),
    {
        broadcast use vstd::std_specs::hash::group_hash_axioms;

        self.compiled.insert(func_idx, func_type);
    }

    /// Takes the resumed call to continue it on thread `thread` in the
    /// context `ctx`: its function and arguments. Only a call that had not
    /// started can continue. The resumed state is used up whatever follows
    /// the checks of thread and context.
    pub fn begin_continue(&mut self, thread: u64, ctx: &LlvmRuntimeContext) -> (r: Result<(u32, Vec<WasmValue>), WasmError>)
        ensures
            ({
                let ctx_id = match ctx.module {
                    Some(b) => Some(b.context_id),
                    None => None::<u64>,
                };
                match continue_block(*old(self), thread, ctx.module is Some) {
                    Some(msg) => (r matches Err(WasmError::Runtime(x)) && x@ == msg) && *final(self) == *old(self),
                    None => match resumed_view(*old(self)) {
                        Some(JitView::Pending { context_id, .. }) if ctx_id != Some(context_id) =>
                            (r matches Err(WasmError::Runtime(x)) && x@
                            == "JIT continue requires the original execution context"@) && *final(self)
                            == *old(self),
                        None => (r matches Err(WasmError::Runtime(x)) && x@
                            == "no resumed JIT state to continue"@) && *final(self) == *old(self),
                        Some(JitView::Pending { func_idx, args, resume_pc, .. }) => *final(self) == (LlvmJit {
                            resumed_state: None,
                            ..*old(self)
                        }) && if resume_pc == 0 {
                            r is Ok && r->Ok_0.0 == func_idx && r->Ok_0.1@ == args
                        } else {
                            r matches Err(WasmError::Runtime(x)) && x@ == "unsupported JIT resume pc "@
                                + decimal_chars(resume_pc as nat)
                        },
                        Some(JitView::Suspended { .. }) => *final(self) == (LlvmJit {
                            resumed_state: None,
                            ..*old(self)
                        }) && (r matches Err(WasmError::Runtime(x)) && x@
                            == "unsupported JIT suspended register state"@),
                    },
                }
            }),
    {
        if self.last_execution_thread != Some(thread) {
            proof {
                reveal_strlit("cross-thread JIT continue is unsupported");
            }
            return Err(WasmError::Runtime(String::from_str("cross-thread JIT continue is unsupported")));
        }
        if !has_execution_context(ctx) {
            proof {
                reveal_strlit("JIT continue requires a current execution context");
            }
            return Err(
                WasmError::Runtime(String::from_str("JIT continue requires a current execution context")),
            );
        }
        if let Some(JitState::Pending { context_id, .. }) = &self.resumed_state {
            if current_execution_context_id(ctx) != Some(*context_id) {
                proof {
                    reveal_strlit("JIT continue requires the original execution context");
                }
                return Err(
                    WasmError::Runtime(
                        String::from_str("JIT continue requires the original execution context"),
                    ),
                );
            }
        }
        match self.resumed_state.take() {
            None => {
                proof {
                    reveal_strlit("no resumed JIT state to continue");
                }
                Err(WasmError::Runtime(String::from_str("no resumed JIT state to continue")))
            },
            Some(JitState::Pending { func_idx, args, resume_pc, .. }) => {
                if resume_pc == 0 {
                    Ok((func_idx, args))
                } else {
                    let mut m = String::from_str("unsupported JIT resume pc ");
                    push_decimal(&mut m, resume_pc as u64);
                    proof {
                        reveal_strlit("unsupported JIT resume pc ");
                    }
                    Err(WasmError::Runtime(m))
                }
            },
            Some(JitState::Suspended { .. }) => {
                proof {
                    reveal_strlit("unsupported JIT suspended register state");
                }
                Err(WasmError::Runtime(String::from_str("unsupported JIT suspended register state")))
            },
        }
    }

    /// Checks a call of function `func_idx` with `args` on thread `thread`
    /// and prepares the execution context for it: the raw arguments and the
    /// result types. A fresh call opens a new epoch; a continued call must
    /// run on the thread that started the last call, in an execution
    /// context. A call refused after the epoch check withdraws the
    /// suspension request.
    pub fn begin_invoke(
        &mut self,
        func_idx: u32,
        args: &[WasmValue],
        start_new_epoch: bool,
        thread: u64,
        ctx: &mut LlvmRuntimeContext,
    ) -> (r: Result<PreparedCall, WasmError>)
        requires
            start_new_epoch ==> old(self).execution_epoch < u64::MAX,
        ensures
            match pending_block(*old(self)) {
                Some(msg) => (r matches Err(WasmError::Runtime(x)) && x@ == msg) && *final(self) == *old(self)
                    && *final(ctx) == *old(ctx),
                None => if !start_new_epoch && continue_block(*old(self), thread, old(ctx).module is Some) is Some {
                    (r matches Err(WasmError::Runtime(x)) && x@ == continue_block(*old(self), thread, old(ctx).module is Some)->Some_0)
                        && *final(self) == *old(self) && *final(ctx) == *old(ctx)
                } else {
                    let j = started(*old(self), start_new_epoch, thread);
                    if !old(self).compiled@.contains_key(func_idx) {
                        (r matches Err(WasmError::Runtime(x)) && x@ == "Function "@ + decimal_chars(func_idx as nat)
                            + " not compiled"@) && *final(self) == unrequested(j) && *final(ctx) == *old(ctx)
                    } else {
                        let ft = old(self).compiled@[func_idx];
                        match arg_problem(ft, args@) {
                            Some(msg) => (r matches Err(WasmError::Runtime(x)) && x@ == msg) && *final(self)
                                == unrequested(j) && *final(ctx) == *old(ctx),
                            None => r is Ok && r->Ok_0.args@ == packed_args(args@) && r->Ok_0.result_types@
                                == ft.results@ && *final(self) == j && *final(ctx) == (LlvmRuntimeContext {
                                trap: None,
                                runtime_error: None,
                                safepoints_enabled: j.safepoints_enabled,
                                suspend_requested: j.suspend_requested,
                                jit_id: j.jit_id,
                                execution_epoch: j.execution_epoch,
                                executing: true,
                                suspended_handle: None,
                                ..*old(ctx)
                            }),
                        }
                    }
                },
            },
    {
        broadcast use vstd::std_specs::hash::group_hash_axioms;

        if self.resumed_state.is_some() {
            proof {
                reveal_strlit("cannot invoke JIT function: resumed state must be continued first");
            }
            return Err(
                WasmError::Runtime(
                    String::from_str("cannot invoke JIT function: resumed state must be continued first"),
                ),
            );
        }
        if self.active_suspension_id.is_some() {
            proof {
                reveal_strlit("cannot invoke JIT function: suspended handle must be resumed first");
            }
            return Err(
                WasmError::Runtime(
                    String::from_str("cannot invoke JIT function: suspended handle must be resumed first"),
                ),
            );
        }
        if start_new_epoch {
            self.execution_epoch = self.execution_epoch + 1;
            self.last_execution_thread = Some(thread);
        } else {
            if self.last_execution_thread != Some(thread) {
                proof {
                    reveal_strlit("cross-thread JIT continue is unsupported");
                }
                return Err(WasmError::Runtime(String::from_str("cross-thread JIT continue is unsupported")));
            }
            if !has_execution_context(ctx) {
                proof {
                    reveal_strlit("JIT continue requires a current execution context");
                }
                return Err(
                    WasmError::Runtime(
                        String::from_str("JIT continue requires a current execution context"),
                    ),
                );
            }
        }
        let ghost j = *self;
        let checked = match self.compiled.get(&func_idx) {
            None => {
                let mut m = String::from_str("Function ");
                push_decimal(&mut m, func_idx as u64);
                m.append(" not compiled");
                proof {
                    reveal_strlit("Function ");
                    reveal_strlit(" not compiled");
                }
                Err(WasmError::Runtime(m))
            },
            Some(ft) => match check_args(ft, args) {
                Err(m) => Err(WasmError::Runtime(m)),
                Ok(raw) => Ok(PreparedCall { args: raw, result_types: copy_types(ft.results.as_slice()) }),
            },
        };
        match checked {
            Err(e) => {
                self.suspend_requested = false;
                Err(e)
            },
            Ok(call) => {
                clear_trap(ctx);
                configure_safepoints(
                    ctx,
                    self.safepoints_enabled,
                    self.suspend_requested,
                    self.jit_id,
                    self.execution_epoch,
                );
                Ok(call)
            },
        }
    }

    /// Reads what the compiled code left in the execution context after a
    /// call: a suspension, a runtime error or a trap, in that order, or
    /// else the results of the given types from their raw slots. The
    /// suspension request is withdrawn in every case.
    pub fn finish_invoke(&mut self, ctx: &mut LlvmRuntimeContext, raw: &[u64], result_types: &[ValType]) -> (r: Result<Vec<WasmValue>, WasmError>)
        requires
            raw@.len() >= result_types@.len(),
        ensures
            match old(ctx).suspended_handle {
                Some(h) => r == Err::<Vec<WasmValue>, WasmError>(WasmError::Suspended(SuspensionKind::Safepoint))
                    && *final(ctx) == (LlvmRuntimeContext { suspended_handle: None, ..*old(ctx) })
                    && *final(self) == (LlvmJit {
                    active_suspension_id: Some(h.inner().id()),
                    suspended_handle: Some(h),
                    suspend_requested: false,
                    ..*old(self)
                }),
                None => *final(self) == unrequested(*old(self)) && match old(ctx).runtime_error {
                    Some(m) => r == Err::<Vec<WasmValue>, WasmError>(WasmError::Runtime(m))
                        && *final(ctx) == (LlvmRuntimeContext { runtime_error: None, ..*old(ctx) }),
                    None => match old(ctx).trap {
                        Some(code) => r == Err::<Vec<WasmValue>, WasmError>(WasmError::Trap(code))
                            && *final(ctx) == (LlvmRuntimeContext { trap: None, ..*old(ctx) }),
                        None => *final(ctx) == *old(ctx) && match unpacked_results(raw@, result_types@) {
                            Some(values) => r is Ok && r->Ok_0@ == values,
                            None => r matches Err(WasmError::Runtime(x)) && x@
                                == "LLVM JIT currently supports numeric results only"@,
                        },
                    },
                },
            },
    {
        if let Some(handle) = take_suspended_handle(ctx) {
            self.active_suspension_id = Some(handle.instance_id());
            self.suspended_handle = Some(handle);
            self.suspend_requested = false;
            return Err(WasmError::Suspended(SuspensionKind::Safepoint));
        }
        self.suspend_requested = false;
        if let Some(message) = take_runtime_error(ctx) {
            return Err(WasmError::Runtime(message));
        }
        if let Some(code) = take_trap(ctx) {
            return Err(WasmError::Trap(code));
        }
        let mut values: Vec<WasmValue> = Vec::new();
        let mut i: usize = 0;
        while i < result_types.len()
            invariant
                i <= result_types@.len() <= raw@.len(),
                *self == unrequested(*old(self)),
                *ctx == *old(ctx),
                old(ctx).suspended_handle is None,
                old(ctx).runtime_error is None,
                old(ctx).trap is None,
                values@ == Seq::new(i as nat, |k: int| unpacked(raw@[k], result_types@[k])->Some_0),
                forall|k: int| 0 <= k < i ==> #[trigger] unpacked(raw@[k], result_types@[k]) is Some,
            decreases result_types@.len() - i,
        {
            match unpack_raw_value(raw[i], result_types[i]) {
                Some(v) => values.push(v),
                None => {
                    proof {
                        reveal_strlit("LLVM JIT currently supports numeric results only");
                        assert(unpacked(raw@[i as int], result_types@[i as int]) is None);
                    }
                    return Err(
                        WasmError::Runtime(String::from_str("LLVM JIT currently supports numeric results only")),
                    );
                },
            }
            proof {
                assert(values@ =~= Seq::new((i + 1) as nat, |k: int| unpacked(raw@[k], result_types@[k])->Some_0));
            }
            i = i + 1;
        }
        Ok(values)
    }
}


/// Checks arguments against a function type and packs them.
fn check_args(ft: &FunctionType, args: &[WasmValue]) -> (r: Result<Vec<u64>, String>)
    ensures
        match arg_problem(*ft, args@) {
            Some(msg) => r is Err && r->Err_0@ == msg,
            None => r is Ok && r->Ok_0@ == packed_args(args@),
        },
{
    let n = ft.params.len();
    if args.len() != n {
        let mut m = String::from_str("Argument count mismatch: expected ");
        push_decimal(&mut m, n as u64);
        m.append(", got ");
        push_decimal(&mut m, args.len() as u64);
        proof {
            reveal_strlit("Argument count mismatch: expected ");
            reveal_strlit(", got ");
        }
        return Err(m);
    }
    let mut i: usize = 0;
    while i < args.len()
        invariant
            args@.len() == ft.params@.len(),
            i <= args@.len(),
            arg_type_check(ft.params@, args@, 0) == arg_type_check(ft.params@, args@, i as nat),
        decreases args@.len() - i,
    {
        let got = args[i].val_type();
        let want = ft.params[i];
        if got != want {
            let mut m = String::from_str("Argument ");
            push_decimal(&mut m, i as u64);
            m.append(" type mismatch: expected ");
            m.append(val_type_debug_str(want));
            m.append(", got ");
            m.append(val_type_debug_str(got));
            proof {
                reveal_strlit("Argument ");
                reveal_strlit(" type mismatch: expected ");
                reveal_strlit(", got ");
            }
            return Err(m);
        }
        i = i + 1;
    }
    let mut raw: Vec<u64> = Vec::new();
    let mut k: usize = 0;
    while k < args.len()
        invariant
            k <= args@.len(),
            arg_type_check(ft.params@, args@, 0) is None,
            args@.len() == ft.params@.len(),
            raw@ == packed_args(args@.subrange(0, k as int)),
            forall|q: int| 0 <= q < k ==> #[trigger] packed(args@[q]) is Some,
        decreases args@.len() - k,
    {
        match pack_wasm_value(&args[k]) {
            Some(x) => raw.push(x),
            None => {
                proof {
                    reveal_strlit("LLVM JIT currently supports numeric arguments only");
                    assert(packed(args@[k as int]) is None);
                }
                return Err(String::from_str("LLVM JIT currently supports numeric arguments only"));
            },
        }
        proof {
            assert(packed_args(args@.subrange(0, k + 1)) =~= packed_args(args@.subrange(0, k as int)).push(x_of(args@[k as int])));
        }
        k = k + 1;
    }
    proof {
        assert(args@.subrange(0, k as int) =~= args@);
    }
    Ok(raw)
}

/// The raw form of a numeric value.
spec fn x_of(v: WasmValue) -> u64 {
    packed(v)->Some_0
}


/// A call that a safepoint suspended blocks every new call until its
/// handle is resumed, and only that handle resumes it.
pub proof fn lemma_suspension_blocks_calls(
    j: LlvmJit,
    h: SuspendedHandle,
    other: crate::runtime::suspend::SuspendedInstance,
    thread: u64,
)
    requires
        j.resumed_state is None,
        other.id() != h.inner().id(),
    ensures
        ({
            let after = LlvmJit {
                active_suspension_id: Some(h.inner().id()),
                suspended_handle: Some(h),
                suspend_requested: false,
                ..j
            };
            &&& pending_block(after) is Some
            &&& resume_check(after, other, thread) is Some
        }),
{
}

/// A resumed call blocks new calls until it is continued, and a fresh call
/// opens a new epoch, after which handles of the old epoch are refused.
pub proof fn lemma_epochs_separate_calls(
    j: LlvmJit,
    thread: u64,
    stale: crate::runtime::suspend::SuspendedInstance,
)
    requires
        j.execution_epoch < u64::MAX,
        jit_ids(stale.state_model()) == Some((j.jit_id, j.execution_epoch)),
    ensures
        j.resumed_state is Some ==> pending_block(j) is Some,
        resume_check(started(j, true, thread), stale, thread) is Some,
{
}

} // verus!
