//! Snapshots of instance state, and the check that a snapshot fits a module.
//!
//! A snapshot records the hash of the module it was taken from: the first
//! eight bytes, read as a little-endian number, of the SHA-256 digest of the
//! module's fingerprint (its counts, function types, limits, global types,
//! table types, export and import names, and segment contents).

use super::error::WasmError;
use super::export::ExportType;
use super::import::Import;
use super::module::{DataKind, DataSegment, ElemKind, ElemSegment, Func, Module};
use super::types::{val_type_code, GlobalType, MemoryType, TableType};
use super::values::WasmValue;
use super::suspend::{
    control_bytes, control_heights, copy_slice, lemma_control_roundtrip, ControlStack, ExecutionEngine,
    InterpreterState, InterpreterView, OperandStack, StateView, SuspendedHandle, SuspendedInstance,
    SuspensionState,
};
use crate::memory::Memory;
use crate::bytes::{le32, le64, push_u32_le, push_u64_le, u64_at};
use crate::text::decimal_chars;
use vstd::prelude::*;
use vstd::string::StringExecFns;

verus! {

/// Snapshot format version used by serialised payloads.
pub const SNAPSHOT_FORMAT_VERSION: u32 = 1;

#[derive(Debug, Clone, Copy, PartialEq, Eq, Structural)]
/// Metadata associated with a snapshot payload.
pub struct SnapshotMetadata {
    /// Timestamp recorded when the snapshot was captured.
    pub timestamp: u64,
    /// Source instance identifier, if one was available.
    pub source_instance_id: Option<u64>,
}

#[derive(Debug, Clone)]
/// Snapshot of a single linear memory.
pub struct MemorySnapshot {
    /// The zero-based index.
    pub index: u32,
    /// Declared type of the captured memory.
    pub memory_type: MemoryType,
    /// Raw linear-memory bytes.
    pub data: Vec<u8>,
}

#[derive(Debug, Clone)]
/// Snapshot of a single global.
pub struct GlobalSnapshot {
    /// The zero-based index.
    pub index: u32,
    /// Declared type of the captured global.
    pub global_type: GlobalType,
    /// Captured value of the global.
    pub value: WasmValue,
}

#[derive(Debug, Clone)]
/// Snapshot of a single table.
pub struct TableSnapshot {
    /// The zero-based index.
    pub index: u32,
    /// Declared type of the captured table.
    pub table_type: TableType,
    /// Captured table elements.
    pub elements: Vec<WasmValue>,
}

#[derive(Debug, Clone)]
/// Captured interpreter state needed to resume execution.
pub struct InterpreterStateSnapshot {
    /// Program-counter offset within the current function body.
    pub pc: usize,
    /// Captured locals for the current frame.
    pub locals: Vec<WasmValue>,
    /// Captured operand-stack contents.
    pub operand_stack: Vec<WasmValue>,
    /// Maximum capacity of the operand stack.
    pub operand_stack_max_size: usize,
    /// Serialised control-stack state.
    pub control_stack: Vec<u8>,
    /// Identifier of the interpreter that produced the snapshot.
    pub interpreter_id: u64,
    /// Suspension epoch used to validate resumption.
    pub suspension_epoch: u64,
}

#[derive(Debug, Clone)]
/// Captured execution state for a suspended instance.
pub struct ExecutionStateSnapshot {
    /// Interpreter-specific execution state.
    pub interpreter_state: InterpreterStateSnapshot,
}

#[derive(Debug, Clone)]
/// Complete snapshot payload for an instance.
pub struct SnapshotPayload {
    /// Snapshot format version.
    pub version: u32,
    /// Hash of the source module used for compatibility checks.
    pub module_hash: u64,
    /// Snapshots of the instance memories.
    pub memory_snapshots: Vec<MemorySnapshot>,
    /// Snapshots of the instance globals.
    pub global_snapshots: Vec<GlobalSnapshot>,
    /// Snapshots of the instance tables.
    pub table_snapshots: Vec<TableSnapshot>,
    /// Captured execution state, if the instance was suspended.
    pub execution_state: Option<ExecutionStateSnapshot>,
    /// Snapshot metadata used for bookkeeping.
    pub metadata: SnapshotMetadata,
}

#[derive(Debug, Clone, PartialEq, Eq)]
/// Errors that can occur while capturing or restoring snapshots.
pub enum SnapshotError {
    /// The target instance is not currently suspended.
    InstanceNotSuspended(String),
    /// The snapshot contains a resource that is not currently supported.
    UnsupportedResource(String),
    /// The snapshot does not match the requested restore target.
    IncompatibleTarget(String),
    /// The snapshot payload is malformed or inconsistent.
    InvalidSnapshot(String),
    /// A snapshot operation is already in progress.
    SnapshotInProgress,
}

/// The message of a snapshot error.
pub open spec fn snapshot_error_text(e: SnapshotError) -> Seq<char> {
    match e {
        SnapshotError::InstanceNotSuspended(m) => "Instance not suspended: "@ + m@,
        SnapshotError::UnsupportedResource(m) => "Unsupported resource: "@ + m@,
        SnapshotError::IncompatibleTarget(m) => "Incompatible target: "@ + m@,
        SnapshotError::InvalidSnapshot(m) => "Invalid snapshot: "@ + m@,
        SnapshotError::SnapshotInProgress => "Snapshot already in progress"@,
    }
}

impl SnapshotError {
    /// Returns the message of this error.
    pub fn message(&self) -> (s: String)
        ensures
            s@ == snapshot_error_text(*self),
    {
        let (prefix, detail): (&str, Option<&String>) = match self {
            SnapshotError::InstanceNotSuspended(m) => ("Instance not suspended: ", Some(m)),
            SnapshotError::UnsupportedResource(m) => ("Unsupported resource: ", Some(m)),
            SnapshotError::IncompatibleTarget(m) => ("Incompatible target: ", Some(m)),
            SnapshotError::InvalidSnapshot(m) => ("Invalid snapshot: ", Some(m)),
            SnapshotError::SnapshotInProgress => ("Snapshot already in progress", None),
        };
        let mut s = String::from_str(prefix);
        if let Some(m) = detail {
            s.append(m.as_str());
        }
        proof {
            reveal_strlit("Instance not suspended: ");
            reveal_strlit("Unsupported resource: ");
            reveal_strlit("Incompatible target: ");
            reveal_strlit("Invalid snapshot: ");
            reveal_strlit("Snapshot already in progress");
        }
        s
    }
}

/// The result of a snapshot operation.
pub type Result<T> = core::result::Result<T, SnapshotError>;

/// The SHA-256 digest of some bytes.
pub uninterp spec fn sha256(data: Seq<u8>) -> Seq<u8>;

/// Calls `sha2::Sha256::digest`, which hashes the bytes with SHA-256. The
/// contract names the 32-byte digest; nothing more is stated of it.
#[verifier::external_body]
fn sha256_digest(data: &[u8]) -> (d: [u8; 32])
    ensures
        d@ == sha256(data@),
{
    <sha2::Sha256 as sha2::Digest>::digest(data).into()
}

/// The bytes of a flag.
pub open spec fn flag_byte(b: bool) -> u8 {
    if b {
        1
    } else {
        0
    }
}

/// The fingerprint bytes of the defined functions: their type indices.
pub open spec fn funcs_print(funcs: Seq<Func>) -> Seq<u8>
    decreases funcs.len(),
{
    if funcs.len() == 0 {
        seq![]
    } else {
        funcs_print(funcs.drop_last()) + le32(funcs.last().type_idx)
    }
}

/// The fingerprint bytes of the memories: minimum, and maximum if any.
pub open spec fn memories_print(mems: Seq<MemoryType>) -> Seq<u8>
    decreases mems.len(),
{
    if mems.len() == 0 {
        seq![]
    } else {
        memories_print(mems.drop_last()) + le32(mems.last().limits.spec_min()) + match mems.last().limits.spec_max() {
            Some(max) => le32(max),
            None => seq![],
        }
    }
}

/// The fingerprint bytes of the globals: value type code and mutability.
pub open spec fn globals_print(globals: Seq<GlobalType>) -> Seq<u8>
    decreases globals.len(),
{
    if globals.len() == 0 {
        seq![]
    } else {
        globals_print(globals.drop_last()) + seq![
            val_type_code(globals.last().content_type),
            flag_byte(globals.last().mutable),
        ]
    }
}

/// The fingerprint bytes of the tables: element type tag, minimum and
/// maximum if any, each limit as 64 bits.
pub open spec fn tables_print(tables: Seq<TableType>) -> Seq<u8>
    decreases tables.len(),
{
    if tables.len() == 0 {
        seq![]
    } else {
        tables_print(tables.drop_last()) + seq![tables.last().elem_type.spec_to_u8()] + le64(
            tables.last().limits.spec_min() as u64,
        ) + match tables.last().limits.spec_max() {
            Some(max) => le64(max as u64),
            None => seq![],
        }
    }
}

/// The fingerprint bytes of the exports: their names in UTF-8.
pub open spec fn exports_print(exports: Seq<ExportType>) -> Seq<u8>
    decreases exports.len(),
{
    if exports.len() == 0 {
        seq![]
    } else {
        exports_print(exports.drop_last()) + vstd::utf8::encode_utf8(exports.last().name@)
    }
}

/// The fingerprint bytes of the imports: module and field names in UTF-8.
pub open spec fn imports_print(imports: Seq<Import>) -> Seq<u8>
    decreases imports.len(),
{
    if imports.len() == 0 {
        seq![]
    } else {
        imports_print(imports.drop_last()) + vstd::utf8::encode_utf8(imports.last().module@)
            + vstd::utf8::encode_utf8(imports.last().name@)
    }
}

/// The fingerprint bytes of the data segments: kind, length and bytes.
pub open spec fn data_print(data: Seq<DataSegment>) -> Seq<u8>
    decreases data.len(),
{
    if data.len() == 0 {
        seq![]
    } else {
        data_print(data.drop_last()) + seq![
            match data.last().kind {
                DataKind::Active { .. } => 0u8,
                DataKind::Passive => 1u8,
            },
        ] + le64(data.last().init@.len() as u64) + data.last().init@
    }
}

/// The fingerprint bytes of the element segments: kind, then a zero length,
/// as segments carry no element list.
pub open spec fn elems_print(elems: Seq<ElemSegment>) -> Seq<u8>
    decreases elems.len(),
{
    if elems.len() == 0 {
        seq![]
    } else {
        elems_print(elems.drop_last()) + seq![
            match elems.last().kind {
                ElemKind::Active { .. } => 0u8,
                ElemKind::Passive => 1u8,
                ElemKind::Declarative => 2u8,
            },
        ] + le64(0)
    }
}

/// The fingerprint of a module: the counts of its parts as 64-bit numbers,
/// then the parts.
pub open spec fn module_fingerprint(m: Module) -> Seq<u8> {
    le64(m.types@.len() as u64) + le64(m.funcs@.len() as u64) + le64(m.tables@.len() as u64) + le64(
        m.memories@.len() as u64,
    ) + le64(m.globals@.len() as u64) + le64(m.exports@.len() as u64) + le64(m.imports@.len() as u64)
        + le64(m.data@.len() as u64) + le64(m.elems@.len() as u64) + funcs_print(m.funcs@) + memories_print(
        m.memories@,
    ) + globals_print(m.globals@) + tables_print(m.tables@) + exports_print(m.exports@) + imports_print(
        m.imports@,
    ) + data_print(m.data@) + elems_print(m.elems@)
}

/// The hash of a module: the first eight bytes of the SHA-256 digest of its
/// fingerprint, as a little-endian number.
pub open spec fn module_hash(m: Module) -> u64 {
    u64_at(sha256(module_fingerprint(m)), 0)
}

/// Appends the bytes of a string.
fn push_str_bytes(out: &mut Vec<u8>, s: &String)
    ensures
        final(out)@ == old(out)@ + vstd::utf8::encode_utf8(s@),
{
    let b = s.as_str().as_bytes();
    let mut i: usize = 0;
    while i < b.len()
        invariant
            0 <= i <= b@.len(),
            b@ == vstd::utf8::encode_utf8(s@),
            out@ == old(out)@ + b@.subrange(0, i as int),
        decreases b@.len() - i,
    {
        out.push(b[i]);
        i = i + 1;
        proof {
            assert(out@ =~= old(out)@ + b@.subrange(0, i as int));
        }
    }
    proof {
        assert(b@.subrange(0, b@.len() as int) =~= b@);
    }
}

/// Returns the fingerprint of a module.
fn fingerprint(module: &Module) -> (out: Vec<u8>)
    ensures
        out@ == module_fingerprint(*module),
{
    let mut out: Vec<u8> = Vec::new();
    push_u64_le(&mut out, module.types.len() as u64);
    push_u64_le(&mut out, module.funcs.len() as u64);
    push_u64_le(&mut out, module.tables.len() as u64);
    push_u64_le(&mut out, module.memories.len() as u64);
    push_u64_le(&mut out, module.globals.len() as u64);
    push_u64_le(&mut out, module.exports.len() as u64);
    push_u64_le(&mut out, module.imports.len() as u64);
    push_u64_le(&mut out, module.data.len() as u64);
    push_u64_le(&mut out, module.elems.len() as u64);
    let ghost head = out@;
    let mut i: usize = 0;
    while i < module.funcs.len()
        invariant
            0 <= i <= module.funcs@.len(),
            out@ == head + funcs_print(module.funcs@.subrange(0, i as int)),
        decreases module.funcs@.len() - i,
    {
        proof {
            assert(module.funcs@.subrange(0, i + 1).drop_last() =~= module.funcs@.subrange(0, i as int));
        }
        push_u32_le(&mut out, module.funcs[i].type_idx);
        i = i + 1;
    }
    proof {
        assert(module.funcs@.subrange(0, i as int) =~= module.funcs@);
    }
    let ghost head = out@;
    let mut i: usize = 0;
    while i < module.memories.len()
        invariant
            0 <= i <= module.memories@.len(),
            out@ == head + memories_print(module.memories@.subrange(0, i as int)),
        decreases module.memories@.len() - i,
    {
        proof {
            assert(module.memories@.subrange(0, i + 1).drop_last() =~= module.memories@.subrange(0, i as int));
        }
        let mem = module.memories[i];
        push_u32_le(&mut out, mem.limits.min());
        if let Some(max) = mem.limits.max() {
            push_u32_le(&mut out, max);
        }
        i = i + 1;
        proof {
            assert(out@ =~= head + memories_print(module.memories@.subrange(0, i as int)));
        }
    }
    proof {
        assert(module.memories@.subrange(0, i as int) =~= module.memories@);
    }
    let ghost head = out@;
    let mut i: usize = 0;
    while i < module.globals.len()
        invariant
            0 <= i <= module.globals@.len(),
            out@ == head + globals_print(module.globals@.subrange(0, i as int)),
        decreases module.globals@.len() - i,
    {
        proof {
            assert(module.globals@.subrange(0, i + 1).drop_last() =~= module.globals@.subrange(0, i as int));
        }
        let g = module.globals[i];
        let code = g.content_type.hash_bytes();
        out.push(code[0]);
        out.push(if g.mutable { 1 } else { 0 });
        i = i + 1;
        proof {
            assert(out@ =~= head + globals_print(module.globals@.subrange(0, i as int)));
        }
    }
    proof {
        assert(module.globals@.subrange(0, i as int) =~= module.globals@);
    }
    let ghost head = out@;
    let mut i: usize = 0;
    while i < module.tables.len()
        invariant
            0 <= i <= module.tables@.len(),
            out@ == head + tables_print(module.tables@.subrange(0, i as int)),
        decreases module.tables@.len() - i,
    {
        proof {
            assert(module.tables@.subrange(0, i + 1).drop_last() =~= module.tables@.subrange(0, i as int));
        }
        let t = module.tables[i];
        out.push(t.elem_type.to_u8());
        push_u64_le(&mut out, t.limits.min() as u64);
        if let Some(max) = t.limits.max() {
            push_u64_le(&mut out, max as u64);
        }
        i = i + 1;
        proof {
            assert(out@ =~= head + tables_print(module.tables@.subrange(0, i as int)));
        }
    }
    proof {
        assert(module.tables@.subrange(0, i as int) =~= module.tables@);
    }
    let ghost head = out@;
    let mut i: usize = 0;
    while i < module.exports.len()
        invariant
            0 <= i <= module.exports@.len(),
            out@ == head + exports_print(module.exports@.subrange(0, i as int)),
        decreases module.exports@.len() - i,
    {
        proof {
            assert(module.exports@.subrange(0, i + 1).drop_last() =~= module.exports@.subrange(0, i as int));
        }
        push_str_bytes(&mut out, &module.exports[i].name);
        i = i + 1;
        proof {
            assert(out@ =~= head + exports_print(module.exports@.subrange(0, i as int)));
        }
    }
    proof {
        assert(module.exports@.subrange(0, i as int) =~= module.exports@);
    }
    let ghost head = out@;
    let mut i: usize = 0;
    while i < module.imports.len()
        invariant
            0 <= i <= module.imports@.len(),
            out@ == head + imports_print(module.imports@.subrange(0, i as int)),
        decreases module.imports@.len() - i,
    {
        proof {
            assert(module.imports@.subrange(0, i + 1).drop_last() =~= module.imports@.subrange(0, i as int));
        }
        push_str_bytes(&mut out, &module.imports[i].module);
        push_str_bytes(&mut out, &module.imports[i].name);
        i = i + 1;
        proof {
            assert(out@ =~= head + imports_print(module.imports@.subrange(0, i as int)));
        }
    }
    proof {
        assert(module.imports@.subrange(0, i as int) =~= module.imports@);
    }
    let ghost head = out@;
    let mut i: usize = 0;
    while i < module.data.len()
        invariant
            0 <= i <= module.data@.len(),
            out@ == head + data_print(module.data@.subrange(0, i as int)),
        decreases module.data@.len() - i,
    {
        proof {
            assert(module.data@.subrange(0, i + 1).drop_last() =~= module.data@.subrange(0, i as int));
        }
        let seg = &module.data[i];
        let kind_byte: u8 = match seg.kind {
            DataKind::Active { .. } => 0,
            DataKind::Passive => 1,
        };
        out.push(kind_byte);
        push_u64_le(&mut out, seg.init.len() as u64);
        let ghost mid = out@;
        let mut j: usize = 0;
        while j < seg.init.len()
            invariant
                0 <= j <= seg.init@.len(),
                out@ == mid + seg.init@.subrange(0, j as int),
            decreases seg.init@.len() - j,
        {
            out.push(seg.init[j]);
            j = j + 1;
            proof {
                assert(out@ =~= mid + seg.init@.subrange(0, j as int));
            }
        }
        i = i + 1;
        proof {
            assert(seg.init@.subrange(0, seg.init@.len() as int) =~= seg.init@);
            assert(out@ =~= head + data_print(module.data@.subrange(0, i as int)));
        }
    }
    proof {
        assert(module.data@.subrange(0, i as int) =~= module.data@);
    }
    let ghost head = out@;
    let mut i: usize = 0;
    while i < module.elems.len()
        invariant
            0 <= i <= module.elems@.len(),
            out@ == head + elems_print(module.elems@.subrange(0, i as int)),
        decreases module.elems@.len() - i,
    {
        proof {
            assert(module.elems@.subrange(0, i + 1).drop_last() =~= module.elems@.subrange(0, i as int));
        }
        let kind_byte: u8 = match module.elems[i].kind {
            ElemKind::Active { .. } => 0,
            ElemKind::Passive => 1,
            ElemKind::Declarative => 2,
        };
        out.push(kind_byte);
        push_u64_le(&mut out, 0);
        i = i + 1;
        proof {
            assert(out@ =~= head + elems_print(module.elems@.subrange(0, i as int)));
        }
    }
    proof {
        assert(module.elems@.subrange(0, i as int) =~= module.elems@);
        assert(out@ =~= module_fingerprint(*module));
    }
    out
}

/// Returns the hash of a module.
pub fn compute_module_hash(module: &Module) -> (h: u64)
    ensures
        h == module_hash(*module),
{
    let print = fingerprint(module);
    let digest = sha256_digest(print.as_slice());
    crate::bytes::read_u64_at(&digest, 0)
}

/// What checking a snapshot against a module gives: a version other than
/// the current one, or a module hash other than the module's, is an
/// incompatible target.
pub open spec fn compatibility(version: u32, snapshot_hash: u64, target_hash: u64) -> core::result::Result<(), Seq<char>> {
    if version != SNAPSHOT_FORMAT_VERSION {
        Err(
            "snapshot format version "@ + decimal_chars(version as nat) + " is not compatible with runtime version "@
                + decimal_chars(SNAPSHOT_FORMAT_VERSION as nat),
        )
    } else if snapshot_hash != target_hash {
        Err("module hash mismatch: snapshot was created from a different module"@)
    } else {
        Ok(())
    }
}

/// Checks that a snapshot was taken, in the current format, from a module
/// with the target's hash.
pub fn validate_snapshot_compatibility(snapshot: &SnapshotPayload, target_module: &Module) -> (r: Result<()>)
    ensures
        match compatibility(snapshot.version, snapshot.module_hash, module_hash(*target_module)) {
            Ok(()) => r is Ok,
            Err(msg) => r matches Err(SnapshotError::IncompatibleTarget(m)) && m@ == msg,
        },
{
    if snapshot.version != SNAPSHOT_FORMAT_VERSION {
        let mut msg = crate::text::with_decimal("snapshot format version ", snapshot.version as u64);
        msg.append(" is not compatible with runtime version ");
        crate::text::push_decimal(&mut msg, SNAPSHOT_FORMAT_VERSION as u64);
        return Err(SnapshotError::IncompatibleTarget(msg));
    }
    let target_hash = compute_module_hash(target_module);
    if snapshot.module_hash != target_hash {
        return Err(
            SnapshotError::IncompatibleTarget(
                String::from_str("module hash mismatch: snapshot was created from a different module"),
            ),
        );
    }
    Ok(())
}

/// A snapshot in the current format that carries a module's hash is
/// compatible with that module.
pub proof fn lemma_own_module_compatible(m: Module)
    ensures
        compatibility(SNAPSHOT_FORMAT_VERSION, module_hash(m), module_hash(m)) is Ok,
{
}


#[derive(Debug, Clone, Copy, PartialEq, Eq, Structural)]
/// A global of an instance: its type and current value.
pub struct Global {
    /// Declared type of the global.
    pub type_: GlobalType,
    /// Current value.
    pub value: WasmValue,
}

#[derive(Debug, Clone)]
/// A table of an instance: its type and current elements.
pub struct Table {
    /// Declared type of the table.
    pub type_: TableType,
    /// Current elements.
    pub data: Vec<WasmValue>,
}

/// Why an execution state cannot be captured, if it cannot.
pub open spec fn capture_refusal(state: StateView) -> Option<Seq<char>> {
    match state {
        StateView::Jit(_) => Some("JIT execution state cannot be captured in snapshots"@),
        StateView::HostcallPending { .. } => Some("Hostcall pending state cannot be captured in snapshots"@),
        _ => None,
    }
}

/// Whether a captured interpreter state holds what an interpreter state
/// holds, the control stack in its serialised form.
pub open spec fn interpreter_captured(s: InterpreterStateSnapshot, v: InterpreterView) -> bool {
    &&& s.pc == v.pc
    &&& s.locals@ == v.locals
    &&& s.operand_stack@ == v.operands
    &&& s.operand_stack_max_size == v.operand_limit
    &&& s.control_stack@ == control_bytes(v.controls)
    &&& s.interpreter_id == v.interpreter_id
    &&& s.suspension_epoch == v.suspension_epoch
}

/// Whether a payload captures the given memories, globals and tables, each
/// under its position.
pub open spec fn resources_captured(p: SnapshotPayload, memories: Seq<Memory>, globals: Seq<Global>, tables: Seq<Table>) -> bool {
    &&& p.memory_snapshots@.len() == memories.len()
    &&& forall|i: int|
        0 <= i < memories.len() ==> (#[trigger] p.memory_snapshots@[i]).index == i as u32
            && p.memory_snapshots@[i].memory_type == memories[i].ty() && p.memory_snapshots@[i].data@
            == memories[i].bytes()
    &&& p.global_snapshots@.len() == globals.len()
    &&& forall|i: int|
        0 <= i < globals.len() ==> (#[trigger] p.global_snapshots@[i]).index == i as u32
            && p.global_snapshots@[i].global_type == globals[i].type_ && p.global_snapshots@[i].value
            == globals[i].value
    &&& p.table_snapshots@.len() == tables.len()
    &&& forall|i: int|
        0 <= i < tables.len() ==> (#[trigger] p.table_snapshots@[i]).index == i as u32
            && p.table_snapshots@[i].table_type == tables[i].type_ && p.table_snapshots@[i].elements@
            == tables[i].data@
}

/// Captures the state of an instance of `module`: its memories, globals and
/// tables, and the execution state of the suspended execution behind
/// `handle`, if any, at time `timestamp`. A compiled execution, or one
/// waiting for a hostcall, cannot be captured.
pub fn capture_snapshot(
    module: &Module,
    memories: &[Memory],
    globals: &[Global],
    tables: &[Table],
    handle: Option<&SuspendedHandle>,
    timestamp: u64,
) -> (r: Result<SnapshotPayload>)
    ensures
        match handle {
            Some(h) => match capture_refusal(h.inner().state_model()) {
                Some(msg) => r matches Err(SnapshotError::UnsupportedResource(m)) && m@ == msg,
                None => r is Ok,
            },
            None => r is Ok,
        },
        r matches Ok(p) ==> {
            &&& p.version == SNAPSHOT_FORMAT_VERSION
            &&& p.module_hash == module_hash(*module)
            &&& resources_captured(p, memories@, globals@, tables@)
            &&& p.metadata == (SnapshotMetadata {
                timestamp,
                source_instance_id: match handle {
                    Some(h) => Some(h.inner().id()),
                    None => None,
                },
            })
            &&& match handle {
                Some(h) => match h.inner().state_model() {
                    StateView::Interpreter(v) => p.execution_state matches Some(e) && interpreter_captured(
                        e.interpreter_state,
                        v,
                    ),
                    _ => p.execution_state is None,
                },
                None => p.execution_state is None,
            }
        },
{
    let mut execution_state: Option<ExecutionStateSnapshot> = None;
    let mut source_instance_id: Option<u64> = None;
    if let Some(h) = handle {
        source_instance_id = Some(h.instance_id());
        match h.suspension_state() {
            SuspensionState::Interpreter(st) => {
                execution_state = Some(
                    ExecutionStateSnapshot {
                        interpreter_state: InterpreterStateSnapshot {
                            pc: st.pc,
                            locals: copy_slice(st.locals.as_slice()),
                            operand_stack: st.operand_stack.to_vec(),
                            operand_stack_max_size: st.operand_stack.capacity(),
                            control_stack: st.control_stack.to_bytes(),
                            interpreter_id: st.interpreter_id,
                            suspension_epoch: st.suspension_epoch,
                        },
                    },
                );
            },
            SuspensionState::Jit(_) => {
                proof {
                    reveal_strlit("JIT execution state cannot be captured in snapshots");
                }
                return Err(
                    SnapshotError::UnsupportedResource(
                        String::from_str("JIT execution state cannot be captured in snapshots"),
                    ),
                );
            },
            SuspensionState::HostcallPending { .. } => {
                proof {
                    reveal_strlit("Hostcall pending state cannot be captured in snapshots");
                }
                return Err(
                    SnapshotError::UnsupportedResource(
                        String::from_str("Hostcall pending state cannot be captured in snapshots"),
                    ),
                );
            },
            SuspensionState::Empty => {},
        }
    }
    let mut memory_snapshots: Vec<MemorySnapshot> = Vec::new();
    let mut i: usize = 0;
    while i < memories.len()
        invariant
            i <= memories@.len(),
            memory_snapshots@.len() == i,
            forall|k: int|
                0 <= k < i ==> (#[trigger] memory_snapshots@[k]).index == k as u32
                    && memory_snapshots@[k].memory_type == memories@[k].ty() && memory_snapshots@[k].data@
                    == memories@[k].bytes(),
        decreases memories@.len() - i,
    {
        memory_snapshots.push(
            MemorySnapshot { index: i as u32, memory_type: *memories[i].type_(), data: copy_slice(memories[i].data()) },
        );
        i = i + 1;
    }
    let mut global_snapshots: Vec<GlobalSnapshot> = Vec::new();
    let mut i: usize = 0;
    while i < globals.len()
        invariant
            i <= globals@.len(),
            global_snapshots@.len() == i,
            forall|k: int|
                0 <= k < i ==> (#[trigger] global_snapshots@[k]).index == k as u32
                    && global_snapshots@[k].global_type == globals@[k].type_ && global_snapshots@[k].value
                    == globals@[k].value,
        decreases globals@.len() - i,
    {
        global_snapshots.push(GlobalSnapshot { index: i as u32, global_type: globals[i].type_, value: globals[i].value });
        i = i + 1;
    }
    let mut table_snapshots: Vec<TableSnapshot> = Vec::new();
    let mut i: usize = 0;
    while i < tables.len()
        invariant
            i <= tables@.len(),
            table_snapshots@.len() == i,
            forall|k: int|
                0 <= k < i ==> (#[trigger] table_snapshots@[k]).index == k as u32
                    && table_snapshots@[k].table_type == tables@[k].type_ && table_snapshots@[k].elements@
                    == tables@[k].data@,
        decreases tables@.len() - i,
    {
        table_snapshots.push(
            TableSnapshot { index: i as u32, table_type: tables[i].type_, elements: copy_slice(tables[i].data.as_slice()) },
        );
        i = i + 1;
    }
    Ok(
        SnapshotPayload {
            version: SNAPSHOT_FORMAT_VERSION,
            module_hash: compute_module_hash(module),
            memory_snapshots,
            global_snapshots,
            table_snapshots,
            execution_state,
            metadata: SnapshotMetadata { timestamp, source_instance_id },
        },
    )
}

/// Why restoring a part of a snapshot fails.
pub enum RestoreFault {
    /// The target does not match the snapshot.
    Incompatible(Seq<char>),
    /// The snapshot does not fit the target.
    Invalid(Seq<char>),
}

/// Whether an error reports a fault.
pub open spec fn reports(e: SnapshotError, f: RestoreFault) -> bool {
    match f {
        RestoreFault::Incompatible(msg) => e matches SnapshotError::IncompatibleTarget(m) && m@ == msg,
        RestoreFault::Invalid(msg) => e matches SnapshotError::InvalidSnapshot(m) && m@ == msg,
    }
}

/// Restoring the first `k` items one after the other from `start` with
/// `step`: the state reached, and the fault that stopped it, if one did.
pub open spec fn restore_pass<A, S>(
    items: Seq<A>,
    start: S,
    k: nat,
    step: spec_fn(A, S) -> core::result::Result<S, RestoreFault>,
) -> (S, Option<RestoreFault>)
    decreases k,
{
    if k == 0 {
        (start, None)
    } else {
        let (cur, fault) = restore_pass(items, start, (k - 1) as nat, step);
        if fault is Some {
            (cur, fault)
        } else {
            match step(items[k - 1], cur) {
                Ok(next) => (next, None),
                Err(f) => (cur, Some(f)),
            }
        }
    }
}

/// Once a pass has stopped, later items change nothing.
proof fn lemma_pass_stops<A, S>(
    items: Seq<A>,
    start: S,
    k: nat,
    n: nat,
    step: spec_fn(A, S) -> core::result::Result<S, RestoreFault>,
)
    requires
        k <= n,
        restore_pass(items, start, k, step).1 is Some,
    ensures
        restore_pass(items, start, n, step) == restore_pass(items, start, k, step),
    decreases n,
{
    if n > k {
        lemma_pass_stops(items, start, k, (n - 1) as nat, step);
    }
}

/// What a memory holds: its type and bytes.
pub open spec fn memory_views(ms: Seq<Memory>) -> Seq<(MemoryType, Seq<u8>)> {
    ms.map_values(|m: Memory| (m.ty(), m.bytes()))
}

/// What a table holds: its type and elements.
pub open spec fn table_views(ts: Seq<Table>) -> Seq<(TableType, Seq<WasmValue>)> {
    ts.map_values(|t: Table| (t.type_, t.data@))
}

/// Restoring one memory: it must exist, be large enough for the snapshot's
/// bytes and have the snapshot's type; then it holds those bytes.
pub open spec fn memory_step(s: MemorySnapshot, ms: Seq<(MemoryType, Seq<u8>)>) -> core::result::Result<
    Seq<(MemoryType, Seq<u8>)>,
    RestoreFault,
> {
    let i = s.index as int;
    if i >= ms.len() {
        Err(RestoreFault::Invalid("memory "@ + decimal_chars(s.index as nat) + " not found in target instance"@))
    } else if ms[i].1.len() < s.data@.len() {
        Err(RestoreFault::Invalid("target memory is too small for snapshot data"@))
    } else if ms[i].0 != s.memory_type {
        Err(RestoreFault::Incompatible("memory type mismatch"@))
    } else {
        Ok(ms.update(i, (ms[i].0, s.data@)))
    }
}

/// Restoring one global: it must exist and have the snapshot's type; then
/// it holds the snapshot's value.
pub open spec fn global_step(s: GlobalSnapshot, gs: Seq<Global>) -> core::result::Result<Seq<Global>, RestoreFault> {
    let i = s.index as int;
    if i >= gs.len() {
        Err(RestoreFault::Invalid("global "@ + decimal_chars(s.index as nat) + " not found in target instance"@))
    } else if gs[i].type_ != s.global_type {
        Err(RestoreFault::Incompatible("global "@ + decimal_chars(s.index as nat) + " type mismatch"@))
    } else {
        Ok(gs.update(i, Global { type_: gs[i].type_, value: s.value }))
    }
}

/// Restoring one table: it must exist, have the snapshot's type and hold
/// at least as many elements; then it holds the snapshot's elements.
pub open spec fn table_step(s: TableSnapshot, ts: Seq<(TableType, Seq<WasmValue>)>) -> core::result::Result<
    Seq<(TableType, Seq<WasmValue>)>,
    RestoreFault,
> {
    let i = s.index as int;
    if i >= ts.len() {
        Err(RestoreFault::Invalid("table "@ + decimal_chars(s.index as nat) + " not found in target instance"@))
    } else if ts[i].0 != s.table_type {
        Err(RestoreFault::Incompatible("table "@ + decimal_chars(s.index as nat) + " type mismatch"@))
    } else if ts[i].1.len() < s.elements@.len() {
        Err(RestoreFault::Invalid("target table is too small for snapshot data"@))
    } else {
        Ok(ts.update(i, (ts[i].0, s.elements@)))
    }
}

/// The memories after restoring the first `k` of a snapshot's memories,
/// and the fault that stopped it, if any.
pub open spec fn memory_pass(p: SnapshotPayload, ms: Seq<Memory>, k: nat) -> (Seq<(MemoryType, Seq<u8>)>, Option<RestoreFault>) {
    restore_pass(p.memory_snapshots@, memory_views(ms), k, |s: MemorySnapshot, v: Seq<(MemoryType, Seq<u8>)>| memory_step(s, v))
}

/// The globals after restoring the first `k` of a snapshot's globals, and
/// the fault that stopped it, if any.
pub open spec fn global_pass(p: SnapshotPayload, gs: Seq<Global>, k: nat) -> (Seq<Global>, Option<RestoreFault>) {
    restore_pass(p.global_snapshots@, gs, k, |s: GlobalSnapshot, v: Seq<Global>| global_step(s, v))
}

/// The tables after restoring the first `k` of a snapshot's tables, and
/// the fault that stopped it, if any.
pub open spec fn table_pass(p: SnapshotPayload, ts: Seq<Table>, k: nat) -> (Seq<(TableType, Seq<WasmValue>)>, Option<RestoreFault>) {
    restore_pass(p.table_snapshots@, table_views(ts), k, |s: TableSnapshot, v: Seq<(TableType, Seq<WasmValue>)>| table_step(s, v))
}

/// Whether a restore's result is the suspended execution the snapshot
/// captured, if it captured one, under the snapshot's source identifier
/// (0 when it has none).
pub open spec fn handle_restored(r: Result<Option<SuspendedHandle>>, p: SnapshotPayload) -> bool {
    match p.execution_state {
        None => r matches Ok(None),
        Some(e) => r matches Ok(Some(h)) && h.inner().state_model() == StateView::Interpreter(
            interpreter_restored(e.interpreter_state),
        ) && h.inner().id() == (match p.metadata.source_instance_id {
            Some(id) => id,
            None => 0,
        }) && h.inner().suspended_flag() && h.inner().engine_kind() == ExecutionEngine::Interpreter,
    }
}

/// Whether every memory snapshot that fits a memory fills it exactly, so
/// that its bytes can be copied over the memory's.
pub open spec fn memory_sizes_match(p: SnapshotPayload, ms: Seq<Memory>) -> bool {
    forall|j: int|
        0 <= j < p.memory_snapshots@.len() && (#[trigger] p.memory_snapshots@[j]).index < ms.len()
            && ms[p.memory_snapshots@[j].index as int].bytes().len() >= p.memory_snapshots@[j].data@.len()
            ==> ms[p.memory_snapshots@[j].index as int].bytes().len() == p.memory_snapshots@[j].data@.len()
}

/// The interpreter state a captured one restores to.
pub open spec fn interpreter_restored(s: InterpreterStateSnapshot) -> InterpreterView {
    InterpreterView {
        pc: s.pc,
        locals: s.locals@,
        operands: s.operand_stack@,
        operand_limit: s.operand_stack_max_size,
        controls: control_heights(s.control_stack@),
        interpreter_id: s.interpreter_id,
        suspension_epoch: s.suspension_epoch,
    }
}

/// Restores a snapshot into the memories, globals and tables of an
/// instance of `target_module`, after checking that it was taken from such
/// a module. Memories, then globals, then tables are restored in the order
/// the snapshot lists them; the first that does not fit stops the restore
/// with its error, after what came before it was restored. The result is the
/// suspended execution the snapshot captured, if any.
pub fn restore_snapshot(
    snapshot: &SnapshotPayload,
    target_module: &Module,
    memories: &mut Vec<Memory>,
    globals: &mut Vec<Global>,
    tables: &mut Vec<Table>,
) -> (r: Result<Option<SuspendedHandle>>)
    requires
        memory_sizes_match(*snapshot, old(memories)@),
    ensures
        match compatibility(snapshot.version, snapshot.module_hash, module_hash(*target_module)) {
            Err(msg) => (r matches Err(SnapshotError::IncompatibleTarget(m)) && m@ == msg) && final(memories)@
                == old(memories)@ && final(globals)@ == old(globals)@ && final(tables)@ == old(tables)@,
            Ok(()) => {
                let (mv, mf) = memory_pass(*snapshot, old(memories)@, snapshot.memory_snapshots@.len());
                &&& memory_views(final(memories)@) == mv
                &&& match mf {
                    Some(f) => (r matches Err(e) && reports(e, f)) && final(globals)@ == old(globals)@
                        && final(tables)@ == old(tables)@,
                    None => {
                        let (gv, gf) = global_pass(*snapshot, old(globals)@, snapshot.global_snapshots@.len());
                        &&& final(globals)@ == gv
                        &&& match gf {
                            Some(f) => (r matches Err(e) && reports(e, f)) && final(tables)@ == old(tables)@,
                            None => {
                                let (tv, tf) = table_pass(*snapshot, old(tables)@, snapshot.table_snapshots@.len());
                                &&& table_views(final(tables)@) == tv
                                &&& match tf {
                                    Some(f) => r matches Err(e) && reports(e, f),
                                    None => handle_restored(r, *snapshot),
                                }
                            },
                        }
                    },
                }
            },
        },
{
    match validate_snapshot_compatibility(snapshot, target_module) {
        Ok(()) => {},
        Err(e) => return Err(e),
    }
    match restore_memories(snapshot, memories) {
        Ok(()) => {},
        Err(e) => return Err(e),
    }
    match restore_globals(snapshot, globals) {
        Ok(()) => {},
        Err(e) => return Err(e),
    }
    match restore_tables(snapshot, tables) {
        Ok(()) => {},
        Err(e) => return Err(e),
    }
    match &snapshot.execution_state {
        None => Ok(None),
        Some(e) => {
            let st = &e.interpreter_state;
            let state = InterpreterState::capture(
                st.pc,
                copy_slice(st.locals.as_slice()),
                OperandStack::from_vec(copy_slice(st.operand_stack.as_slice()), st.operand_stack_max_size),
                ControlStack::from_bytes(st.control_stack.as_slice()),
                st.interpreter_id,
                st.suspension_epoch,
            );
            let id = match snapshot.metadata.source_instance_id {
                Some(id) => id,
                None => 0,
            };
            Ok(Some(SuspendedHandle::new(SuspendedInstance::new_interpreter(state, id))))
        },
    }
}

/// Restores a snapshot's globals, in order.
fn restore_globals(snapshot: &SnapshotPayload, globals: &mut Vec<Global>) -> (r: Result<()>)
    ensures
        final(globals)@ == global_pass(*snapshot, old(globals)@, snapshot.global_snapshots@.len()).0,
        match global_pass(*snapshot, old(globals)@, snapshot.global_snapshots@.len()).1 {
            Some(f) => r matches Err(e) && reports(e, f),
            None => r is Ok,
        },
{
    let n = snapshot.global_snapshots.len();
    let mut j: usize = 0;
    while j < n
        invariant
            n == snapshot.global_snapshots@.len(),
            j <= n,
            global_pass(*snapshot, old(globals)@, j as nat).1 is None,
            globals@ == global_pass(*snapshot, old(globals)@, j as nat).0,
        decreases n - j,
    {
        let s = &snapshot.global_snapshots[j];
        let i = s.index as usize;
        proof {
            assert(snapshot.global_snapshots@[j as int] == *s);
        }
        if i >= globals.len() {
            let mut msg = crate::text::with_decimal("global ", s.index as u64);
            msg.append(" not found in target instance");
            proof {
                reveal_strlit("global ");
                reveal_strlit(" not found in target instance");
                lemma_pass_stops(snapshot.global_snapshots@, old(globals)@, (j + 1) as nat, n as nat, |s: GlobalSnapshot, v: Seq<Global>| global_step(s, v));
            }
            return Err(SnapshotError::InvalidSnapshot(msg));
        }
        let ty = globals[i].type_;
        if ty != s.global_type {
            let mut msg = crate::text::with_decimal("global ", s.index as u64);
            msg.append(" type mismatch");
            proof {
                reveal_strlit("global ");
                reveal_strlit(" type mismatch");
                lemma_pass_stops(snapshot.global_snapshots@, old(globals)@, (j + 1) as nat, n as nat, |s: GlobalSnapshot, v: Seq<Global>| global_step(s, v));
            }
            return Err(SnapshotError::IncompatibleTarget(msg));
        }
        globals.set(i, Global { type_: ty, value: s.value });
        j = j + 1;
    }
    Ok(())
}

/// Restores a snapshot's tables, in order.
fn restore_tables(snapshot: &SnapshotPayload, tables: &mut Vec<Table>) -> (r: Result<()>)
    ensures
        table_views(final(tables)@) == table_pass(*snapshot, old(tables)@, snapshot.table_snapshots@.len()).0,
        match table_pass(*snapshot, old(tables)@, snapshot.table_snapshots@.len()).1 {
            Some(f) => r matches Err(e) && reports(e, f),
            None => r is Ok,
        },
{
    let n = snapshot.table_snapshots.len();
    let mut j: usize = 0;
    while j < n
        invariant
            n == snapshot.table_snapshots@.len(),
            j <= n,
            table_pass(*snapshot, old(tables)@, j as nat).1 is None,
            table_views(tables@) == table_pass(*snapshot, old(tables)@, j as nat).0,
        decreases n - j,
    {
        let s = &snapshot.table_snapshots[j];
        let i = s.index as usize;
        let ghost before = tables@;
        proof {
            assert(snapshot.table_snapshots@[j as int] == *s);
        }
        if i >= tables.len() {
            let mut msg = crate::text::with_decimal("table ", s.index as u64);
            msg.append(" not found in target instance");
            proof {
                reveal_strlit("table ");
                reveal_strlit(" not found in target instance");
                lemma_pass_stops(snapshot.table_snapshots@, table_views(old(tables)@), (j + 1) as nat, n as nat, |s: TableSnapshot, v: Seq<(TableType, Seq<WasmValue>)>| table_step(s, v));
            }
            return Err(SnapshotError::InvalidSnapshot(msg));
        }
        proof {
            assert(table_views(before)[i as int] == (before[i as int].type_, before[i as int].data@));
        }
        let ty = tables[i].type_;
        if ty != s.table_type {
            let mut msg = crate::text::with_decimal("table ", s.index as u64);
            msg.append(" type mismatch");
            proof {
                reveal_strlit("table ");
                reveal_strlit(" type mismatch");
                lemma_pass_stops(snapshot.table_snapshots@, table_views(old(tables)@), (j + 1) as nat, n as nat, |s: TableSnapshot, v: Seq<(TableType, Seq<WasmValue>)>| table_step(s, v));
            }
            return Err(SnapshotError::IncompatibleTarget(msg));
        }
        if tables[i].data.len() < s.elements.len() {
            proof {
                reveal_strlit("target table is too small for snapshot data");
                lemma_pass_stops(snapshot.table_snapshots@, table_views(old(tables)@), (j + 1) as nat, n as nat, |s: TableSnapshot, v: Seq<(TableType, Seq<WasmValue>)>| table_step(s, v));
            }
            return Err(SnapshotError::InvalidSnapshot(String::from_str("target table is too small for snapshot data")));
        }
        let data = copy_slice(s.elements.as_slice());
        tables.set(i, Table { type_: ty, data });
        proof {
            assert(table_views(tables@) =~= table_views(before).update(i as int, (ty, s.elements@)));
        }
        j = j + 1;
    }
    Ok(())
}

/// Restores a snapshot's memories, in order.
fn restore_memories(snapshot: &SnapshotPayload, memories: &mut Vec<Memory>) -> (r: Result<()>)
    requires
        memory_sizes_match(*snapshot, old(memories)@),
    ensures
        memory_views(final(memories)@) == memory_pass(*snapshot, old(memories)@, snapshot.memory_snapshots@.len()).0,
        match memory_pass(*snapshot, old(memories)@, snapshot.memory_snapshots@.len()).1 {
            Some(f) => r matches Err(e) && reports(e, f),
            None => r is Ok,
        },
{
    let n = snapshot.memory_snapshots.len();
    let mut j: usize = 0;
    while j < n
        invariant
            n == snapshot.memory_snapshots@.len(),
            j <= n,
            memory_pass(*snapshot, old(memories)@, j as nat).1 is None,
            memory_views(memories@) == memory_pass(*snapshot, old(memories)@, j as nat).0,
            memories@.len() == old(memories)@.len(),
            forall|k: int| 0 <= k < memories@.len() ==> #[trigger] memories@[k].bytes().len() == old(memories)@[k].bytes().len(),
            memory_sizes_match(*snapshot, old(memories)@),
        decreases n - j,
    {
        let s = &snapshot.memory_snapshots[j];
        let i = s.index as usize;
        let ghost before = memories@;
        if i >= memories.len() {
            let mut msg = crate::text::with_decimal("memory ", s.index as u64);
            msg.append(" not found in target instance");
            proof {
                reveal_strlit("memory ");
                reveal_strlit(" not found in target instance");
                lemma_pass_stops(snapshot.memory_snapshots@, memory_views(old(memories)@), (j + 1) as nat, n as nat, |s: MemorySnapshot, v: Seq<(MemoryType, Seq<u8>)>| memory_step(s, v));
            }
            return Err(SnapshotError::InvalidSnapshot(msg));
        }
        proof {
            assert(memory_views(before)[i as int] == (before[i as int].ty(), before[i as int].bytes()));
        }
        if memories[i].data().len() < s.data.len() {
            proof {
                reveal_strlit("target memory is too small for snapshot data");
                lemma_pass_stops(snapshot.memory_snapshots@, memory_views(old(memories)@), (j + 1) as nat, n as nat, |s: MemorySnapshot, v: Seq<(MemoryType, Seq<u8>)>| memory_step(s, v));
            }
            return Err(SnapshotError::InvalidSnapshot(String::from_str("target memory is too small for snapshot data")));
        }
        if *memories[i].type_() != s.memory_type {
            proof {
                reveal_strlit("memory type mismatch");
                lemma_pass_stops(snapshot.memory_snapshots@, memory_views(old(memories)@), (j + 1) as nat, n as nat, |s: MemorySnapshot, v: Seq<(MemoryType, Seq<u8>)>| memory_step(s, v));
            }
            return Err(SnapshotError::IncompatibleTarget(String::from_str("memory type mismatch")));
        }
        proof {
            assert(snapshot.memory_snapshots@[j as int] == *s);
            assert(old(memories)@[i as int].bytes().len() == s.data@.len());
        }
        let _ = memories[i].write(0, s.data.as_slice());
        proof {
            assert(memories@[i as int].bytes() =~= s.data@);
            assert(memory_views(memories@) =~= memory_views(before).update(i as int, (before[i as int].ty(), s.data@)));
        }
        j = j + 1;
    }
    Ok(())
}

proof fn lemma_memory_pass_captured(p: SnapshotPayload, ms: Seq<Memory>, gs: Seq<Global>, ts: Seq<Table>, k: nat)
    requires
        resources_captured(p, ms, gs, ts),
        ms.len() <= u32::MAX + 1,
        k <= ms.len(),
    ensures
        memory_pass(p, ms, k) == (memory_views(ms), None::<RestoreFault>),
    decreases k,
{
    if k > 0 {
        lemma_memory_pass_captured(p, ms, gs, ts, (k - 1) as nat);
        let i = k - 1;
        let s = p.memory_snapshots@[i];
        let v = memory_views(ms);
        assert(s.index == i);
        assert(v[i] == (ms[i].ty(), ms[i].bytes()));
        assert(v.update(i, (v[i].0, s.data@)) =~= v);
    }
}

proof fn lemma_global_pass_captured(p: SnapshotPayload, ms: Seq<Memory>, gs: Seq<Global>, ts: Seq<Table>, k: nat)
    requires
        resources_captured(p, ms, gs, ts),
        gs.len() <= u32::MAX + 1,
        k <= gs.len(),
    ensures
        global_pass(p, gs, k) == (gs, None::<RestoreFault>),
    decreases k,
{
    if k > 0 {
        lemma_global_pass_captured(p, ms, gs, ts, (k - 1) as nat);
        let i = k - 1;
        let s = p.global_snapshots@[i];
        assert(s.index == i);
        assert(gs.update(i, Global { type_: gs[i].type_, value: s.value }) =~= gs);
    }
}

proof fn lemma_table_pass_captured(p: SnapshotPayload, ms: Seq<Memory>, gs: Seq<Global>, ts: Seq<Table>, k: nat)
    requires
        resources_captured(p, ms, gs, ts),
        ts.len() <= u32::MAX + 1,
        k <= ts.len(),
    ensures
        table_pass(p, ts, k) == (table_views(ts), None::<RestoreFault>),
    decreases k,
{
    if k > 0 {
        lemma_table_pass_captured(p, ms, gs, ts, (k - 1) as nat);
        let i = k - 1;
        let s = p.table_snapshots@[i];
        let v = table_views(ts);
        assert(s.index == i);
        assert(v[i] == (ts[i].type_, ts[i].data@));
        assert(v.update(i, (v[i].0, s.elements@)) =~= v);
    }
}

/// Restoring a snapshot into the state it was captured from succeeds and
/// changes nothing: every memory, global and table is given back what it
/// holds, and a captured interpreter state comes back as it was.
pub proof fn lemma_restore_captured(p: SnapshotPayload, ms: Seq<Memory>, gs: Seq<Global>, ts: Seq<Table>)
    requires
        resources_captured(p, ms, gs, ts),
        ms.len() <= u32::MAX + 1,
        gs.len() <= u32::MAX + 1,
        ts.len() <= u32::MAX + 1,
    ensures
        memory_sizes_match(p, ms),
        memory_pass(p, ms, p.memory_snapshots@.len()) == (memory_views(ms), None::<RestoreFault>),
        global_pass(p, gs, p.global_snapshots@.len()) == (gs, None::<RestoreFault>),
        table_pass(p, ts, p.table_snapshots@.len()) == (table_views(ts), None::<RestoreFault>),
        forall|v: InterpreterView|
            p.execution_state is Some && #[trigger] interpreter_captured(
                p.execution_state->Some_0.interpreter_state,
                v,
            ) ==> interpreter_restored(p.execution_state->Some_0.interpreter_state) == v,
{
    lemma_memory_pass_captured(p, ms, gs, ts, ms.len());
    lemma_global_pass_captured(p, ms, gs, ts, gs.len());
    lemma_table_pass_captured(p, ms, gs, ts, ts.len());
    assert forall|j: int|
        0 <= j < p.memory_snapshots@.len() && (#[trigger] p.memory_snapshots@[j]).index < ms.len()
            && ms[p.memory_snapshots@[j].index as int].bytes().len() >= p.memory_snapshots@[j].data@.len()
            implies ms[p.memory_snapshots@[j].index as int].bytes().len() == p.memory_snapshots@[j].data@.len() by {
        assert(p.memory_snapshots@[j].index == j);
    }
    assert forall|v: InterpreterView|
        p.execution_state is Some && #[trigger] interpreter_captured(p.execution_state->Some_0.interpreter_state, v)
            implies interpreter_restored(p.execution_state->Some_0.interpreter_state) == v by {
        let e = p.execution_state->Some_0;
        lemma_control_roundtrip(v.controls);
        assert(interpreter_restored(e.interpreter_state) =~= v);
    }
}

/// The fingerprint bytes of one data segment: its kind, its length, its bytes.
pub open spec fn data_entry(d: DataSegment) -> Seq<u8> {
    seq![
        match d.kind {
            DataKind::Active { .. } => 0u8,
            DataKind::Passive => 1u8,
        },
    ] + le64(d.init@.len() as u64) + d.init@
}

proof fn lemma_data_print_back(s: Seq<DataSegment>)
    requires
        s.len() > 0,
    ensures
        data_print(s) == data_print(s.drop_last()) + data_entry(s.last()),
{
    assert(data_print(s) =~= data_print(s.drop_last()) + data_entry(s.last()));
}

/// The fingerprint of data segments read from the front: the first
/// segment's entry, then the rest.
proof fn lemma_data_print_front(s: Seq<DataSegment>)
    requires
        s.len() > 0,
    ensures
        data_print(s) == data_entry(s[0]) + data_print(s.drop_first()),
    decreases s.len(),
{
    lemma_data_print_back(s);
    if s.len() == 1 {
        assert(s.drop_first().len() == 0);
        assert(s.drop_last().len() == 0);
        assert(data_print(s) =~= data_entry(s[0]) + data_print(s.drop_first()));
    } else {
        let d = s.drop_last();
        let t = s.drop_first();
        lemma_data_print_front(d);
        lemma_data_print_back(t);
        assert(t.drop_last() =~= d.drop_first());
        assert(t.last() == s.last());
        assert(d[0] == s[0]);
        assert(data_print(s) =~= data_entry(s[0]) + data_print(s.drop_first()));
    }
}

/// Two lists of data segments of the same length with the same
/// fingerprint hold the same bytes, segment by segment.
proof fn lemma_data_print_injective(a: Seq<DataSegment>, b: Seq<DataSegment>)
    requires
        data_print(a) == data_print(b),
        a.len() == b.len(),
        forall|i: int| 0 <= i < a.len() ==> (#[trigger] a[i]).init@.len() <= u64::MAX,
        forall|i: int| 0 <= i < b.len() ==> (#[trigger] b[i]).init@.len() <= u64::MAX,
    ensures
        forall|i: int| 0 <= i < a.len() ==> (#[trigger] a[i]).init@ == b[i].init@,
    decreases a.len(),
{
    if a.len() > 0 {
        lemma_data_print_front(a);
        lemma_data_print_front(b);
        let x = data_print(a);
        let ea = data_entry(a[0]);
        let eb = data_entry(b[0]);
        let la = a[0].init@.len() as u64;
        let lb = b[0].init@.len() as u64;
        assert(x.subrange(1, 9) =~= le64(la));
        assert(x.subrange(1, 9) =~= le64(lb));
        crate::bytes::lemma_le64_roundtrip(la);
        crate::bytes::lemma_le64_roundtrip(lb);
        assert(la == lb);
        assert(ea.len() == eb.len());
        assert(ea =~= x.subrange(0, ea.len() as int));
        assert(eb =~= x.subrange(0, eb.len() as int));
        assert(a[0].init@ =~= ea.subrange(9, ea.len() as int));
        assert(b[0].init@ =~= eb.subrange(9, eb.len() as int));
        assert(data_print(a.drop_first()) =~= x.subrange(ea.len() as int, x.len() as int));
        assert(data_print(b.drop_first()) =~= x.subrange(eb.len() as int, x.len() as int));
        let ta = a.drop_first();
        let tb = b.drop_first();
        assert forall|i: int| 0 <= i < ta.len() implies (#[trigger] ta[i]).init@.len() <= u64::MAX by {
            assert(ta[i] == a[i + 1]);
        }
        assert forall|i: int| 0 <= i < tb.len() implies (#[trigger] tb[i]).init@.len() <= u64::MAX by {
            assert(tb[i] == b[i + 1]);
        }
        lemma_data_print_injective(ta, tb);
        assert forall|i: int| 0 <= i < a.len() implies (#[trigger] a[i]).init@ == b[i].init@ by {
            if i > 0 {
                assert(a[i] == ta[i - 1]);
                assert(b[i] == tb[i - 1]);
            }
        }
    }
}

/// The module fingerprint covers the bytes of the data segments: two
/// modules that agree on everything else and have the same fingerprint
/// have the same bytes in every data segment. So a snapshot's module hash
/// tells apart modules whose data differs only in its bytes, as far as the
/// digest does.
pub proof fn lemma_fingerprint_determines_data(m1: Module, m2: Module)
    requires
        module_fingerprint(m1) == module_fingerprint(m2),
        m1.types@ == m2.types@,
        m1.funcs@ == m2.funcs@,
        m1.tables@ == m2.tables@,
        m1.memories@ == m2.memories@,
        m1.globals@ == m2.globals@,
        m1.exports@ == m2.exports@,
        m1.imports@ == m2.imports@,
        m1.elems@ == m2.elems@,
        m1.data@.len() == m2.data@.len(),
        forall|i: int| 0 <= i < m1.data@.len() ==> (#[trigger] m1.data@[i]).init@.len() <= u64::MAX,
        forall|i: int| 0 <= i < m2.data@.len() ==> (#[trigger] m2.data@[i]).init@.len() <= u64::MAX,
    ensures
        forall|i: int| 0 <= i < m1.data@.len() ==> (#[trigger] m1.data@[i]).init@ == m2.data@[i].init@,
{
    let f = module_fingerprint(m1);
    let d1 = data_print(m1.data@);
    let d2 = data_print(m2.data@);
    let e = elems_print(m1.elems@);
    let head1 = le64(m1.types@.len() as u64) + le64(m1.funcs@.len() as u64) + le64(m1.tables@.len() as u64)
        + le64(m1.memories@.len() as u64) + le64(m1.globals@.len() as u64) + le64(m1.exports@.len() as u64)
        + le64(m1.imports@.len() as u64) + le64(m1.data@.len() as u64) + le64(m1.elems@.len() as u64)
        + funcs_print(m1.funcs@) + memories_print(m1.memories@) + globals_print(m1.globals@) + tables_print(
        m1.tables@,
    ) + exports_print(m1.exports@) + imports_print(m1.imports@);
    assert(module_fingerprint(m1) == head1 + d1 + e);
    assert(module_fingerprint(m2) == head1 + d2 + e);
    assert(d1.len() == d2.len());
    assert(d1 =~= f.subrange(head1.len() as int, (head1.len() + d1.len()) as int));
    assert(d2 =~= f.subrange(head1.len() as int, (head1.len() + d2.len()) as int));
    lemma_data_print_injective(m1.data@, m2.data@);
}

} // verus!
