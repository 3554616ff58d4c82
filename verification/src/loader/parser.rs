//! The binary module parser.
//!
//! `parse_spec` states, byte by byte, what a parse of a binary module gives:
//! the module it builds, or the message of the error that stops it. The
//! parser reads the header, then sections until the data ends; each section
//! starts with its id byte and a 4-byte little-endian size, which the parser
//! reads and does not use.

use super::reader::{read_error_text, BinaryReader, ReadError};
use crate::bytes::u32_at;
use crate::leb128::{uleb32, Uleb32};
use crate::runtime::error::WasmError;
use crate::runtime::export::{ExportKind, ExportType};
use crate::runtime::import::{Import, ImportKind};
use crate::runtime::module::{DataKind, DataSegment, ElemKind, ElemSegment, Func, Local, Module};
use crate::runtime::types::{
    val_type_code, FunctionType, GlobalType, Limits, MemoryType, NumType, RefType, TableType, ValType,
};
use crate::text::{decimal_chars, hex_chars, push_decimal, push_hex, with_decimal};
use vstd::prelude::*;
use vstd::string::StringExecFns;

verus! {

/// The magic number a binary module starts with, read as a little-endian word.
pub const MAGIC: u32 = 0x6D736100;

/// The binary format version the parser reads.
pub const CURRENT_VERSION: u32 = 1;

/// The result of parsing a part of the input from a position.
pub enum Parsed<T> {
    /// A value was read; the position after it.
    Got(T, int),
    /// Parsing stops with this message.
    Fail(Seq<char>),
    /// The input makes the parser fail an arithmetic check.
    Panic,
}

/// The same failure, for a parse of another type.
pub open spec fn stop<A, B>(r: Parsed<A>) -> Parsed<B> {
    match r {
        Parsed::Fail(e) => Parsed::Fail(e),
        _ => Parsed::Panic,
    }
}

/// The message of a read that ran into the end of the data.
pub open spec fn eof_text() -> Seq<char> {
    read_error_text(ReadError::UnexpectedEof)
}

/// A byte.
pub open spec fn p_u8(s: Seq<u8>, p: int) -> Parsed<u8> {
    if 0 <= p < s.len() {
        Parsed::Got(s[p], p + 1)
    } else {
        Parsed::Fail(eof_text())
    }
}

/// A little-endian 32-bit value.
pub open spec fn p_u32(s: Seq<u8>, p: int) -> Parsed<u32> {
    if 0 <= p && p + 4 <= s.len() {
        Parsed::Got(u32_at(s, p), p + 4)
    } else {
        Parsed::Fail(eof_text())
    }
}

/// An unsigned LEB128 number of at most five bytes.
pub open spec fn p_uleb(s: Seq<u8>, p: int) -> Parsed<u32> {
    match uleb32(s, p) {
        Uleb32::Done { value, next } => Parsed::Got(value, next),
        Uleb32::Eof { .. } => Parsed::Fail(eof_text()),
        Uleb32::TooLong { .. } => Parsed::Fail(read_error_text(ReadError::Uleb128Overflow)),
    }
}

/// `n` raw bytes.
pub open spec fn p_bytes(s: Seq<u8>, p: int, n: int) -> Parsed<Seq<u8>> {
    if 0 <= p && p + n <= s.len() {
        Parsed::Got(s.subrange(p, p + n), p + n)
    } else {
        Parsed::Fail(eof_text())
    }
}

/// The value type a type byte stands for.
pub open spec fn val_type_of(b: u8) -> Option<ValType> {
    if b == 0x7F {
        Some(ValType::Num(NumType::I32))
    } else if b == 0x7E {
        Some(ValType::Num(NumType::I64))
    } else if b == 0x7D {
        Some(ValType::Num(NumType::F32))
    } else if b == 0x7C {
        Some(ValType::Num(NumType::F64))
    } else if b == 0x70 {
        Some(ValType::Ref(RefType::FuncRef))
    } else if b == 0x6F {
        Some(ValType::Ref(RefType::ExternRef))
    } else {
        None
    }
}

/// A value type.
pub open spec fn p_val(s: Seq<u8>, p: int) -> Parsed<ValType> {
    match p_u8(s, p) {
        Parsed::Got(b, q) => match val_type_of(b) {
            Some(t) => Parsed::Got(t, q),
            None => Parsed::Fail("unknown val type: "@ + decimal_chars(b as nat)),
        },
        other => stop(other),
    }
}

/// `n` value types, after those in `acc`.
pub open spec fn p_vals(s: Seq<u8>, p: int, n: nat, acc: Seq<ValType>) -> Parsed<Seq<ValType>>
    decreases n,
{
    if n == 0 {
        Parsed::Got(acc, p)
    } else {
        match p_val(s, p) {
            Parsed::Got(t, q) => p_vals(s, q, (n - 1) as nat, acc.push(t)),
            other => stop(other),
        }
    }
}

/// Table or memory limits: a flags byte, the minimum, and the maximum when
/// the low flag bit is set.
pub open spec fn p_limits(s: Seq<u8>, p: int) -> Parsed<Limits> {
    match p_u8(s, p) {
        Parsed::Got(flags, q) => if flags & 1u8 == 0 {
            match p_uleb(s, q) {
                Parsed::Got(min, r) => Parsed::Got(Limits::Min(min), r),
                other => stop(other),
            }
        } else {
            match p_uleb(s, q) {
                Parsed::Got(min, r) => match p_uleb(s, r) {
                    Parsed::Got(max, t) => Parsed::Got(Limits::MinMax(min, max), t),
                    other => stop(other),
                },
                other => stop(other),
            }
        },
        other => stop(other),
    }
}

/// The placement of a data or element segment.
pub enum PlacementModel {
    /// Placed into a table or memory at an offset expression.
    Active(u32, Seq<u8>),
    /// Placed on request.
    Passive,
    /// Only declares references.
    Declarative,
}

/// A module as a value.
#[verifier::ext_equal]
pub struct ModuleModel {
    /// Function types: parameters and results.
    pub types: Seq<(Seq<ValType>, Seq<ValType>)>,
    /// Imports: module name, field name and kind.
    pub imports: Seq<(Seq<char>, Seq<char>, ImportKind)>,
    /// Defined functions: type index, locals and body.
    pub funcs: Seq<(u32, Seq<Local>, Seq<u8>)>,
    /// Tables.
    pub tables: Seq<TableType>,
    /// Memories.
    pub memories: Seq<MemoryType>,
    /// Globals.
    pub globals: Seq<GlobalType>,
    /// Exports: name and kind.
    pub exports: Seq<(Seq<char>, ExportKind)>,
    /// The start function.
    pub start: Option<u32>,
    /// Element segments: placement and type.
    pub elems: Seq<(PlacementModel, RefType)>,
    /// Data segments: placement and bytes.
    pub data: Seq<(PlacementModel, Seq<u8>)>,
}

/// The module with nothing in it.
pub open spec fn empty_model() -> ModuleModel {
    ModuleModel {
        types: seq![],
        imports: seq![],
        funcs: seq![],
        tables: seq![],
        memories: seq![],
        globals: seq![],
        exports: seq![],
        start: None,
        elems: seq![],
        data: seq![],
    }
}

/// A module as a value.
pub open spec fn module_model(m: Module) -> ModuleModel {
    ModuleModel {
        types: m.types@.map_values(|t: FunctionType| (t.params@, t.results@)),
        imports: m.imports@.map_values(|i: Import| (i.module@, i.name@, i.kind)),
        funcs: m.funcs@.map_values(|f: Func| (f.type_idx, f.locals@, f.body@)),
        tables: m.tables@,
        memories: m.memories@,
        globals: m.globals@,
        exports: m.exports@.map_values(|e: ExportType| (e.name@, e.kind)),
        start: m.start,
        elems: m.elems@.map_values(
            |e: ElemSegment|
                (
                    match e.kind {
                        ElemKind::Active { table_idx, offset } => PlacementModel::Active(table_idx, offset@),
                        ElemKind::Passive => PlacementModel::Passive,
                        ElemKind::Declarative => PlacementModel::Declarative,
                    },
                    e.type_,
                ),
        ),
        data: m.data@.map_values(
            |d: DataSegment|
                (
                    match d.kind {
                        DataKind::Active { memory_idx, offset } => PlacementModel::Active(memory_idx, offset@),
                        DataKind::Passive => PlacementModel::Passive,
                    },
                    d.init@,
                ),
        ),
    }
}

/// The text that invalid UTF-8 bytes are read as: `String::from_utf8_lossy`.
pub uninterp spec fn utf8_lossy(bytes: Seq<u8>) -> Seq<char>;

/// Calls `String::from_utf8_lossy`, which decodes UTF-8 and puts U+FFFD in
/// place of each invalid sequence. The contract names the result and states
/// that ASCII bytes come out as the characters with their codes; what other
/// bytes give is not stated.
#[verifier::external_body]
fn string_from_utf8_lossy(bytes: &[u8]) -> (s: String)
    ensures
        s@ == utf8_lossy(bytes@),
        (forall|i: int| 0 <= i < bytes@.len() ==> bytes@[i] < 0x80u8) ==> s@ == bytes@.map_values(
            |b: u8| b as char,
        ),
{
    String::from_utf8_lossy(bytes).into_owned()
}

/// `n` function types, added to the module.
pub open spec fn p_types(s: Seq<u8>, p: int, n: nat, m: ModuleModel) -> Parsed<ModuleModel>
    decreases n,
{
    if n == 0 {
        Parsed::Got(m, p)
    } else {
        match p_u32(s, p) {
            Parsed::Got(form, p1) => if form as i32 != -1 {
                Parsed::Fail("expected func type form"@)
            } else {
                match p_uleb(s, p1) {
                    Parsed::Got(pc, p2) => match p_vals(s, p2, pc as nat, seq![]) {
                        Parsed::Got(params, p3) => match p_uleb(s, p3) {
                            Parsed::Got(rc, p4) => match p_vals(s, p4, rc as nat, seq![]) {
                                Parsed::Got(results, p5) => p_types(
                                    s,
                                    p5,
                                    (n - 1) as nat,
                                    ModuleModel { types: m.types.push((params, results)), ..m },
                                ),
                                other => stop(other),
                            },
                            other => stop(other),
                        },
                        other => stop(other),
                    },
                    other => stop(other),
                }
            },
            other => stop(other),
        }
    }
}

/// The kind part of an import with kind byte `k`.
pub open spec fn p_import_kind(s: Seq<u8>, p: int, k: u8) -> Parsed<ImportKind> {
    if k == 0 {
        match p_uleb(s, p) {
            Parsed::Got(idx, q) => Parsed::Got(ImportKind::Func(idx), q),
            other => stop(other),
        }
    } else if k == 1 {
        match p_u8(s, p) {
            Parsed::Got(elem, q) => match p_limits(s, q) {
                Parsed::Got(limits, r) => if elem != 0x70 {
                    Parsed::Fail("expected funcref table"@)
                } else {
                    Parsed::Got(ImportKind::Table(TableType { elem_type: RefType::FuncRef, limits }), r)
                },
                other => stop(other),
            },
            other => stop(other),
        }
    } else if k == 2 {
        match p_limits(s, p) {
            Parsed::Got(limits, q) => Parsed::Got(ImportKind::Memory(MemoryType { limits }), q),
            other => stop(other),
        }
    } else if k == 3 {
        match p_val(s, p) {
            Parsed::Got(t, q) => match p_u8(s, q) {
                Parsed::Got(b, r) => Parsed::Got(ImportKind::Global(GlobalType { content_type: t, mutable: b != 0 }), r),
                other => stop(other),
            },
            other => stop(other),
        }
    } else {
        Parsed::Fail("unknown import kind: "@ + decimal_chars(k as nat))
    }
}

/// `n` imports, added to the module.
pub open spec fn p_imports(s: Seq<u8>, p: int, n: nat, m: ModuleModel) -> Parsed<ModuleModel>
    decreases n,
{
    if n == 0 {
        Parsed::Got(m, p)
    } else {
        match p_uleb(s, p) {
            Parsed::Got(mlen, p1) => match p_bytes(s, p1, mlen as int) {
                Parsed::Got(mb, p2) => match p_uleb(s, p2) {
                    Parsed::Got(nlen, p3) => match p_bytes(s, p3, nlen as int) {
                        Parsed::Got(nb, p4) => match p_u8(s, p4) {
                            Parsed::Got(k, p5) => match p_import_kind(s, p5, k) {
                                Parsed::Got(kind, p6) => p_imports(
                                    s,
                                    p6,
                                    (n - 1) as nat,
                                    ModuleModel {
                                        imports: m.imports.push((utf8_lossy(mb), utf8_lossy(nb), kind)),
                                        ..m
                                    },
                                ),
                                other => stop(other),
                            },
                            other => stop(other),
                        },
                        other => stop(other),
                    },
                    other => stop(other),
                },
                other => stop(other),
            },
            other => stop(other),
        }
    }
}

/// `n` function declarations, added to the module with no locals and no body.
pub open spec fn p_funcs(s: Seq<u8>, p: int, n: nat, m: ModuleModel) -> Parsed<ModuleModel>
    decreases n,
{
    if n == 0 {
        Parsed::Got(m, p)
    } else {
        match p_uleb(s, p) {
            Parsed::Got(idx, q) => p_funcs(
                s,
                q,
                (n - 1) as nat,
                ModuleModel { funcs: m.funcs.push((idx, seq![], seq![])), ..m },
            ),
            other => stop(other),
        }
    }
}

/// `n` tables, added to the module.
pub open spec fn p_tables(s: Seq<u8>, p: int, n: nat, m: ModuleModel) -> Parsed<ModuleModel>
    decreases n,
{
    if n == 0 {
        Parsed::Got(m, p)
    } else {
        match p_u8(s, p) {
            Parsed::Got(elem, q) => if elem != 0x70 && elem != 0x6F {
                Parsed::Fail("expected funcref or externref table"@)
            } else {
                match p_limits(s, q) {
                    Parsed::Got(limits, r) => p_tables(
                        s,
                        r,
                        (n - 1) as nat,
                        ModuleModel {
                            tables: m.tables.push(
                                TableType {
                                    elem_type: if elem == 0x70 {
                                        RefType::FuncRef
                                    } else {
                                        RefType::ExternRef
                                    },
                                    limits,
                                },
                            ),
                            ..m
                        },
                    ),
                    other => stop(other),
                }
            },
            other => stop(other),
        }
    }
}

/// `n` memories, added to the module.
pub open spec fn p_memories(s: Seq<u8>, p: int, n: nat, m: ModuleModel) -> Parsed<ModuleModel>
    decreases n,
{
    if n == 0 {
        Parsed::Got(m, p)
    } else {
        match p_limits(s, p) {
            Parsed::Got(limits, q) => p_memories(
                s,
                q,
                (n - 1) as nat,
                ModuleModel { memories: m.memories.push(MemoryType { limits }), ..m },
            ),
            other => stop(other),
        }
    }
}

/// `n` globals, added to the module; each skips a 10-byte initialiser.
pub open spec fn p_globals(s: Seq<u8>, p: int, n: nat, m: ModuleModel) -> Parsed<ModuleModel>
    decreases n,
{
    if n == 0 {
        Parsed::Got(m, p)
    } else {
        match p_val(s, p) {
            Parsed::Got(t, p1) => match p_u8(s, p1) {
                Parsed::Got(b, p2) => match p_bytes(s, p2, 10) {
                    Parsed::Got(_, p3) => p_globals(
                        s,
                        p3,
                        (n - 1) as nat,
                        ModuleModel {
                            globals: m.globals.push(GlobalType { content_type: t, mutable: b != 0 }),
                            ..m
                        },
                    ),
                    other => stop(other),
                },
                other => stop(other),
            },
            other => stop(other),
        }
    }
}

/// The export kind a kind byte and index stand for.
pub open spec fn export_kind_of(k: u8, idx: u32) -> Option<ExportKind> {
    if k == 0 {
        Some(ExportKind::Func(idx))
    } else if k == 1 {
        Some(ExportKind::Table(idx))
    } else if k == 2 {
        Some(ExportKind::Memory(idx))
    } else if k == 3 {
        Some(ExportKind::Global(idx))
    } else {
        None
    }
}

/// `n` exports, added to the module.
pub open spec fn p_exports(s: Seq<u8>, p: int, n: nat, m: ModuleModel) -> Parsed<ModuleModel>
    decreases n,
{
    if n == 0 {
        Parsed::Got(m, p)
    } else {
        match p_uleb(s, p) {
            Parsed::Got(nlen, p1) => match p_bytes(s, p1, nlen as int) {
                Parsed::Got(nb, p2) => match p_u8(s, p2) {
                    Parsed::Got(k, p3) => match p_uleb(s, p3) {
                        Parsed::Got(idx, p4) => match export_kind_of(k, idx) {
                            Some(kind) => p_exports(
                                s,
                                p4,
                                (n - 1) as nat,
                                ModuleModel { exports: m.exports.push((utf8_lossy(nb), kind)), ..m },
                            ),
                            None => Parsed::Fail("unknown export kind: "@ + decimal_chars(k as nat)),
                        },
                        other => stop(other),
                    },
                    other => stop(other),
                },
                other => stop(other),
            },
            other => stop(other),
        }
    }
}

/// `n` LEB128 numbers, skipped.
pub open spec fn p_skip_ulebs(s: Seq<u8>, p: int, n: nat) -> Parsed<()>
    decreases n,
{
    if n == 0 {
        Parsed::Got((), p)
    } else {
        match p_uleb(s, p) {
            Parsed::Got(_, q) => p_skip_ulebs(s, q, (n - 1) as nat),
            other => stop(other),
        }
    }
}

/// `n` element segments, added to the module as active function-reference
/// segments; their function indices are read and dropped.
pub open spec fn p_elems(s: Seq<u8>, p: int, n: nat, m: ModuleModel) -> Parsed<ModuleModel>
    decreases n,
{
    if n == 0 {
        Parsed::Got(m, p)
    } else {
        match p_u8(s, p) {
            Parsed::Got(kind, p1) => {
                let head: Parsed<(u32, Seq<u8>)> = if kind == 0 {
                    match p_bytes(s, p1, 10) {
                        Parsed::Got(off, q) => Parsed::Got((0u32, off), q),
                        other => stop(other),
                    }
                } else {
                    match p_uleb(s, p1) {
                        Parsed::Got(t, q) => match p_bytes(s, q, 10) {
                            Parsed::Got(off, r) => Parsed::Got((t, off), r),
                            other => stop(other),
                        },
                        other => stop(other),
                    }
                };
                match head {
                    Parsed::Got((t, off), p2) => match p_uleb(s, p2) {
                        Parsed::Got(num, p3) => match p_skip_ulebs(s, p3, num as nat) {
                            Parsed::Got(_, p4) => p_elems(
                                s,
                                p4,
                                (n - 1) as nat,
                                ModuleModel {
                                    elems: m.elems.push((PlacementModel::Active(t, off), RefType::FuncRef)),
                                    ..m
                                },
                            ),
                            other => stop(other),
                        },
                        other => stop(other),
                    },
                    other => stop(other),
                }
            },
            other => stop(other),
        }
    }
}

/// `n` local declarations, after those in `acc`.
pub open spec fn p_locals(s: Seq<u8>, p: int, n: nat, acc: Seq<Local>) -> Parsed<Seq<Local>>
    decreases n,
{
    if n == 0 {
        Parsed::Got(acc, p)
    } else {
        match p_uleb(s, p) {
            Parsed::Got(count, q) => match p_val(s, q) {
                Parsed::Got(t, r) => p_locals(s, r, (n - 1) as nat, acc.push(Local { count, type_: t })),
                other => stop(other),
            },
            other => stop(other),
        }
    }
}

/// The bytes the parser takes local declarations to occupy in a body: one
/// per 32-bit or reference local, two per 64-bit local.
pub open spec fn locals_size(locals: Seq<Local>) -> int
    decreases locals.len(),
{
    if locals.len() == 0 {
        0
    } else {
        locals_size(locals.drop_last()) + match locals.last().type_ {
            ValType::Num(NumType::I64) | ValType::Num(NumType::F64) => 2 * locals.last().count,
            _ => locals.last().count as int,
        }
    }
}

/// The bodies of the functions from the `i`-th on: each is a size, the local
/// declarations, then the size less the locals' size in code bytes.
pub open spec fn p_bodies(s: Seq<u8>, p: int, i: nat, m: ModuleModel) -> Parsed<ModuleModel>
    decreases m.funcs.len() - i,
{
    if i >= m.funcs.len() {
        Parsed::Got(m, p)
    } else {
        match p_uleb(s, p) {
            Parsed::Got(size, p1) => match p_uleb(s, p1) {
                Parsed::Got(lc, p2) => match p_locals(s, p2, lc as nat, seq![]) {
                    Parsed::Got(locals, p3) => if locals_size(locals) > size {
                        Parsed::Panic
                    } else {
                        match p_bytes(s, p3, size - locals_size(locals)) {
                            Parsed::Got(body, p4) => p_bodies(
                                s,
                                p4,
                                i + 1,
                                ModuleModel { funcs: m.funcs.update(i as int, (m.funcs[i as int].0, locals, body)), ..m },
                            ),
                            other => stop(other),
                        }
                    },
                    other => stop(other),
                },
                other => stop(other),
            },
            other => stop(other),
        }
    }
}

/// `n` data segments, added to the module as active segments for memory 0.
pub open spec fn p_data_segments(s: Seq<u8>, p: int, n: nat, m: ModuleModel) -> Parsed<ModuleModel>
    decreases n,
{
    if n == 0 {
        Parsed::Got(m, p)
    } else {
        match p_u8(s, p) {
            Parsed::Got(kind, p1) => {
                let head: Parsed<Seq<u8>> = if kind == 0 {
                    p_bytes(s, p1, 10)
                } else {
                    Parsed::Got(seq![], p1)
                };
                match head {
                    Parsed::Got(off, p2) => match p_uleb(s, p2) {
                        Parsed::Got(size, p3) => match p_bytes(s, p3, size as int) {
                            Parsed::Got(init, p4) => p_data_segments(
                                s,
                                p4,
                                (n - 1) as nat,
                                ModuleModel { data: m.data.push((PlacementModel::Active(0, off), init)), ..m },
                            ),
                            other => stop(other),
                        },
                        other => stop(other),
                    },
                    other => stop(other),
                }
            },
            other => stop(other),
        }
    }
}

/// The type section.
pub open spec fn p_type_section(s: Seq<u8>, p: int, m: ModuleModel) -> Parsed<ModuleModel> {
    match p_uleb(s, p) {
        Parsed::Got(n, q) => p_types(s, q, n as nat, m),
        other => stop(other),
    }
}

/// The import section.
pub open spec fn p_import_section(s: Seq<u8>, p: int, m: ModuleModel) -> Parsed<ModuleModel> {
    match p_uleb(s, p) {
        Parsed::Got(n, q) => p_imports(s, q, n as nat, m),
        other => stop(other),
    }
}

/// The function section.
pub open spec fn p_function_section(s: Seq<u8>, p: int, m: ModuleModel) -> Parsed<ModuleModel> {
    match p_uleb(s, p) {
        Parsed::Got(n, q) => p_funcs(s, q, n as nat, m),
        other => stop(other),
    }
}

/// The table section.
pub open spec fn p_table_section(s: Seq<u8>, p: int, m: ModuleModel) -> Parsed<ModuleModel> {
    match p_uleb(s, p) {
        Parsed::Got(n, q) => p_tables(s, q, n as nat, m),
        other => stop(other),
    }
}

/// The memory section.
pub open spec fn p_memory_section(s: Seq<u8>, p: int, m: ModuleModel) -> Parsed<ModuleModel> {
    match p_uleb(s, p) {
        Parsed::Got(n, q) => p_memories(s, q, n as nat, m),
        other => stop(other),
    }
}

/// The global section.
pub open spec fn p_global_section(s: Seq<u8>, p: int, m: ModuleModel) -> Parsed<ModuleModel> {
    match p_uleb(s, p) {
        Parsed::Got(n, q) => p_globals(s, q, n as nat, m),
        other => stop(other),
    }
}

/// The export section.
pub open spec fn p_export_section(s: Seq<u8>, p: int, m: ModuleModel) -> Parsed<ModuleModel> {
    match p_uleb(s, p) {
        Parsed::Got(n, q) => p_exports(s, q, n as nat, m),
        other => stop(other),
    }
}

/// The start section.
pub open spec fn p_start_section(s: Seq<u8>, p: int, m: ModuleModel) -> Parsed<ModuleModel> {
    match p_uleb(s, p) {
        Parsed::Got(idx, q) => Parsed::Got(ModuleModel { start: Some(idx), ..m }, q),
        other => stop(other),
    }
}

/// The element section.
pub open spec fn p_elem_section(s: Seq<u8>, p: int, m: ModuleModel) -> Parsed<ModuleModel> {
    match p_uleb(s, p) {
        Parsed::Got(n, q) => p_elems(s, q, n as nat, m),
        other => stop(other),
    }
}

/// The code section: as many bodies as there are declared functions.
pub open spec fn p_code_section(s: Seq<u8>, p: int, m: ModuleModel) -> Parsed<ModuleModel> {
    match p_uleb(s, p) {
        Parsed::Got(n, q) => if n != m.funcs.len() {
            Parsed::Fail("function and code section size mismatch"@)
        } else {
            p_bodies(s, q, 0, m)
        },
        other => stop(other),
    }
}

/// The data section.
pub open spec fn p_data_section(s: Seq<u8>, p: int, m: ModuleModel) -> Parsed<ModuleModel> {
    match p_uleb(s, p) {
        Parsed::Got(n, q) => p_data_segments(s, q, n as nat, m),
        other => stop(other),
    }
}

/// A custom section: a name length, then everything to the end of the data.
pub open spec fn p_custom_section(s: Seq<u8>, p: int, m: ModuleModel) -> Parsed<ModuleModel> {
    match p_uleb(s, p) {
        Parsed::Got(_, q) => Parsed::Got(m, s.len() as int),
        other => stop(other),
    }
}

/// The contents of a section with id `id`.
#[verifier::opaque]
pub open spec fn p_section(s: Seq<u8>, p: int, id: u8, m: ModuleModel) -> Parsed<ModuleModel> {
    if id == 0 {
        p_custom_section(s, p, m)
    } else if id == 1 {
        p_type_section(s, p, m)
    } else if id == 2 {
        p_import_section(s, p, m)
    } else if id == 3 {
        p_function_section(s, p, m)
    } else if id == 4 {
        p_table_section(s, p, m)
    } else if id == 5 {
        p_memory_section(s, p, m)
    } else if id == 6 {
        p_global_section(s, p, m)
    } else if id == 7 {
        p_export_section(s, p, m)
    } else if id == 8 {
        p_start_section(s, p, m)
    } else if id == 9 {
        p_elem_section(s, p, m)
    } else if id == 10 {
        p_code_section(s, p, m)
    } else if id == 11 {
        p_data_section(s, p, m)
    } else {
        Parsed::Fail("unknown section id: "@ + decimal_chars(id as nat))
    }
}

/// Sections from `p` to the end of the data, for at most `fuel` sections.
pub open spec fn p_sections(s: Seq<u8>, p: int, m: ModuleModel, fuel: nat) -> Parsed<ModuleModel>
    decreases fuel,
{
    if p >= s.len() {
        Parsed::Got(m, p)
    } else if fuel == 0 {
        Parsed::Panic
    } else {
        match p_u8(s, p) {
            Parsed::Got(id, p1) => match p_u32(s, p1) {
                Parsed::Got(_, p2) => match p_section(s, p2, id, m) {
                    Parsed::Got(m2, p3) => p_sections(s, p3, m2, (fuel - 1) as nat),
                    other => stop(other),
                },
                Parsed::Fail(e) => Parsed::Fail("failed to read section size: "@ + e),
                Parsed::Panic => Parsed::Panic,
            },
            Parsed::Fail(e) => Parsed::Fail("failed to read section id: "@ + e),
            Parsed::Panic => Parsed::Panic,
        }
    }
}

/// What parsing a binary module gives: the header (magic number and
/// version), then sections to the end of the data.
pub open spec fn parse_spec(s: Seq<u8>) -> Parsed<ModuleModel> {
    match p_u32(s, 0) {
        Parsed::Got(magic, p1) => if magic != MAGIC {
            Parsed::Fail("invalid magic number: "@ + hex_chars(magic as nat))
        } else {
            match p_u32(s, p1) {
                Parsed::Got(version, p2) => if version != CURRENT_VERSION {
                    Parsed::Fail("unsupported version: "@ + decimal_chars(version as nat))
                } else {
                    p_sections(s, p2, empty_model(), s.len() + 1)
                },
                Parsed::Fail(e) => Parsed::Fail("invalid version: "@ + e),
                Parsed::Panic => Parsed::Panic,
            }
        },
        Parsed::Fail(e) => Parsed::Fail("invalid magic number: "@ + e),
        Parsed::Panic => Parsed::Panic,
    }
}

/// Whether a result is what a parse of a value gives, and the reader stands
/// where that parse ends.
pub open spec fn gives<T>(st: Parsed<T>, r: Result<T, WasmError>, pos: int) -> bool {
    match st {
        Parsed::Got(v, q) => r == Ok::<T, WasmError>(v) && pos == q,
        Parsed::Fail(e) => r matches Err(WasmError::Load(x)) && x@ == e,
        Parsed::Panic => false,
    }
}

/// Whether a section parser's result and the module it filled are what a
/// parse of the section gives.
pub open spec fn builds(st: Parsed<ModuleModel>, r: Result<(), WasmError>, pos: int, m: Module) -> bool {
    match st {
        Parsed::Got(mm, q) => r is Ok && pos == q && module_model(m) == mm,
        Parsed::Fail(e) => r matches Err(WasmError::Load(x)) && x@ == e,
        Parsed::Panic => r matches Err(WasmError::Other(_)),
    }
}

/// The load error for a failed read.
fn load_error(e: ReadError) -> (w: WasmError)
    ensures
        w matches WasmError::Load(x) && x@ == read_error_text(e),
{
    WasmError::Load(e.message())
}

/// A load error with the given message.
fn load_message(msg: &str) -> (w: WasmError)
    ensures
        w matches WasmError::Load(x) && x@ == msg@,
{
    WasmError::Load(String::from_str(msg))
}

/// A load error: the message, then a number in decimal.
fn load_with_decimal(msg: &str, n: u64) -> (w: WasmError)
    ensures
        w matches WasmError::Load(x) && x@ == msg@ + decimal_chars(n as nat),
{
    WasmError::Load(with_decimal(msg, n))
}

/// Reads an unsigned LEB128 number as the parser does.
fn next_uleb(reader: &mut BinaryReader) -> (r: Result<u32, WasmError>)
    requires
        old(reader).wf(),
    ensures
        final(reader).wf(),
        final(reader).data() == old(reader).data(),
        final(reader).pos() >= old(reader).pos(),
        gives(p_uleb(old(reader).data(), old(reader).pos()), r, final(reader).pos()),
{
    proof {
        crate::leb128::lemma_uleb32_advances(reader.data(), reader.pos(), 0);
    }
    match reader.read_uleb128() {
        Ok(v) => Ok(v),
        Err(e) => Err(load_error(e)),
    }
}

/// Reads a byte as the parser does.
fn next_u8(reader: &mut BinaryReader) -> (r: Result<u8, WasmError>)
    requires
        old(reader).wf(),
    ensures
        final(reader).wf(),
        final(reader).data() == old(reader).data(),
        final(reader).pos() >= old(reader).pos(),
        gives(p_u8(old(reader).data(), old(reader).pos()), r, final(reader).pos()),
{
    match reader.read_u8() {
        Ok(v) => Ok(v),
        Err(e) => Err(load_error(e)),
    }
}

/// Reads `n` raw bytes as the parser does.
fn next_bytes(reader: &mut BinaryReader, n: usize) -> (r: Result<Vec<u8>, WasmError>)
    requires
        old(reader).wf(),
    ensures
        final(reader).wf(),
        final(reader).data() == old(reader).data(),
        final(reader).pos() >= old(reader).pos(),
        match p_bytes(old(reader).data(), old(reader).pos(), n as int) {
            Parsed::Got(v, q) => r matches Ok(b) && b@ == v && final(reader).pos() == q,
            Parsed::Fail(e) => r matches Err(WasmError::Load(x)) && x@ == e,
            Parsed::Panic => false,
        },
{
    match reader.read_bytes(n) {
        Ok(v) => Ok(v),
        Err(e) => Err(load_error(e)),
    }
}

/// Reads and drops `n` unsigned LEB128 numbers.
fn skip_ulebs(reader: &mut BinaryReader, n: u32) -> (r: Result<(), WasmError>)
    requires
        old(reader).wf(),
    ensures
        final(reader).wf(),
        final(reader).data() == old(reader).data(),
        final(reader).pos() >= old(reader).pos(),
        gives(p_skip_ulebs(old(reader).data(), old(reader).pos(), n as nat), r, final(reader).pos()),
{
    let ghost s = reader.data();
    let mut j: u32 = 0;
    while j < n
        invariant
            reader.wf(),
            reader.data() == s,
            s == old(reader).data(),
            reader.pos() >= old(reader).pos(),
            j <= n,
            p_skip_ulebs(s, reader.pos(), (n - j) as nat) == p_skip_ulebs(s, old(reader).pos(), n as nat),
        decreases n - j,
    {
        match next_uleb(reader) {
            Ok(_) => {},
            Err(e) => return Err(e),
        }
        j = j + 1;
    }
    Ok(())
}

#[derive(Debug)]
/// The binary module parser.
pub struct Parser;

impl Parser {
    /// Creates a parser.
    pub fn new() -> (p: Self) {
        Self
    }

    /// Reads a value type.
    fn read_val_type(&self, reader: &mut BinaryReader) -> (r: Result<ValType, WasmError>)
        requires
            old(reader).wf(),
        ensures
            final(reader).wf(),
            final(reader).data() == old(reader).data(),
            final(reader).pos() >= old(reader).pos(),
            gives(p_val(old(reader).data(), old(reader).pos()), r, final(reader).pos()),
    {
        let type_byte = match next_u8(reader) {
            Ok(b) => b,
            Err(e) => return Err(e),
        };
        if type_byte == 0x7F {
            Ok(ValType::Num(NumType::I32))
        } else if type_byte == 0x7E {
            Ok(ValType::Num(NumType::I64))
        } else if type_byte == 0x7D {
            Ok(ValType::Num(NumType::F32))
        } else if type_byte == 0x7C {
            Ok(ValType::Num(NumType::F64))
        } else if type_byte == 0x70 {
            Ok(ValType::Ref(RefType::FuncRef))
        } else if type_byte == 0x6F {
            Ok(ValType::Ref(RefType::ExternRef))
        } else {
            Err(load_with_decimal("unknown val type: ", type_byte as u64))
        }
    }

    /// Reads `n` value types.
    fn read_val_types(&self, reader: &mut BinaryReader, n: u32) -> (r: Result<Vec<ValType>, WasmError>)
        requires
            old(reader).wf(),
        ensures
            final(reader).wf(),
            final(reader).data() == old(reader).data(),
            final(reader).pos() >= old(reader).pos(),
            match p_vals(old(reader).data(), old(reader).pos(), n as nat, seq![]) {
                Parsed::Got(v, q) => r matches Ok(t) && t@ == v && final(reader).pos() == q,
                Parsed::Fail(e) => r matches Err(WasmError::Load(x)) && x@ == e,
                Parsed::Panic => false,
            },
    {
        let ghost s = reader.data();
        let mut types: Vec<ValType> = Vec::new();
        let mut i: u32 = 0;
        while i < n
            invariant
                reader.wf(),
                reader.data() == s,
                s == old(reader).data(),
                reader.pos() >= old(reader).pos(),
                i <= n,
                p_vals(s, reader.pos(), (n - i) as nat, types@) == p_vals(s, old(reader).pos(), n as nat, seq![]),
            decreases n - i,
        {
            let t = match self.read_val_type(reader) {
                Ok(t) => t,
                Err(e) => return Err(e),
            };
            types.push(t);
            i = i + 1;
        }
        Ok(types)
    }

    /// Reads table or memory limits.
    fn read_limits(&self, reader: &mut BinaryReader) -> (r: Result<Limits, WasmError>)
        requires
            old(reader).wf(),
        ensures
            final(reader).wf(),
            final(reader).data() == old(reader).data(),
            final(reader).pos() >= old(reader).pos(),
            gives(p_limits(old(reader).data(), old(reader).pos()), r, final(reader).pos()),
    {
        let flags = match next_u8(reader) {
            Ok(b) => b,
            Err(e) => return Err(e),
        };
        if flags & 0x01 == 0 {
            let min = match next_uleb(reader) {
                Ok(v) => v,
                Err(e) => return Err(e),
            };
            Ok(Limits::Min(min))
        } else {
            let min = match next_uleb(reader) {
                Ok(v) => v,
                Err(e) => return Err(e),
            };
            let max = match next_uleb(reader) {
                Ok(v) => v,
                Err(e) => return Err(e),
            };
            Ok(Limits::MinMax(min, max))
        }
    }

    /// Parses a type section.
    fn parse_type(&self, reader: &mut BinaryReader, module: &mut Module) -> (r: Result<(), WasmError>)
        requires
            old(reader).wf(),
        ensures
            final(reader).wf(),
            final(reader).data() == old(reader).data(),
            final(reader).pos() >= old(reader).pos(),
            builds(p_type_section(old(reader).data(), old(reader).pos(), module_model(*old(module))), r, final(reader).pos(), *final(module)),
    {
        let ghost s = reader.data();
        let count = match next_uleb(reader) {
            Ok(v) => v,
            Err(e) => return Err(e),
        };
        let ghost q0 = reader.pos();
        let mut i: u32 = 0;
        while i < count
            invariant
                reader.wf(),
                reader.data() == s,
                s == old(reader).data(),
                reader.pos() >= old(reader).pos(),
                i <= count,
                p_type_section(s, old(reader).pos(), module_model(*old(module))) == p_types(s, q0, count as nat, module_model(*old(module))),
                p_types(s, reader.pos(), (count - i) as nat, module_model(*module)) == p_types(s, q0, count as nat, module_model(*old(module))),
            decreases count - i,
        {
            let form = match reader.read_i32() {
                Ok(v) => v,
                Err(e) => return Err(load_error(e)),
            };
            if form != -0x01 {
                return Err(load_message("expected func type form"));
            }
            let param_count = match next_uleb(reader) {
                Ok(v) => v,
                Err(e) => return Err(e),
            };
            let params = match self.read_val_types(reader, param_count) {
                Ok(v) => v,
                Err(e) => return Err(e),
            };
            let result_count = match next_uleb(reader) {
                Ok(v) => v,
                Err(e) => return Err(e),
            };
            let results = match self.read_val_types(reader, result_count) {
                Ok(v) => v,
                Err(e) => return Err(e),
            };
            let ghost mm = module_model(*module);
            let ghost entry = (params@, results@);
            module.types.push(FunctionType::new(params, results));
            proof {
                assert(module_model(*module) =~= ModuleModel { types: mm.types.push(entry), ..mm });
            }
            i = i + 1;
        }
        Ok(())
    }
}

impl Parser {
    /// Reads the kind part of an import with kind byte `kind_byte`.
    fn read_import_kind(&self, reader: &mut BinaryReader, kind_byte: u8) -> (r: Result<ImportKind, WasmError>)
        requires
            old(reader).wf(),
        ensures
            final(reader).wf(),
            final(reader).data() == old(reader).data(),
            final(reader).pos() >= old(reader).pos(),
            gives(p_import_kind(old(reader).data(), old(reader).pos(), kind_byte), r, final(reader).pos()),
    {
        if kind_byte == 0x00 {
            let type_idx = match next_uleb(reader) {
                Ok(v) => v,
                Err(e) => return Err(e),
            };
            Ok(ImportKind::Func(type_idx))
        } else if kind_byte == 0x01 {
            let elem_type = match next_u8(reader) {
                Ok(v) => v,
                Err(e) => return Err(e),
            };
            let limits = match self.read_limits(reader) {
                Ok(v) => v,
                Err(e) => return Err(e),
            };
            if elem_type != 0x70 {
                return Err(load_message("expected funcref table"));
            }
            Ok(ImportKind::Table(TableType::new(RefType::FuncRef, limits)))
        } else if kind_byte == 0x02 {
            let limits = match self.read_limits(reader) {
                Ok(v) => v,
                Err(e) => return Err(e),
            };
            Ok(ImportKind::Memory(MemoryType::new(limits)))
        } else if kind_byte == 0x03 {
            let content_type = match self.read_val_type(reader) {
                Ok(v) => v,
                Err(e) => return Err(e),
            };
            let mutable = match next_u8(reader) {
                Ok(v) => v != 0,
                Err(e) => return Err(e),
            };
            Ok(ImportKind::Global(GlobalType::new(content_type, mutable)))
        } else {
            Err(load_with_decimal("unknown import kind: ", kind_byte as u64))
        }
    }

    /// Parses an import section.
    fn parse_import(&self, reader: &mut BinaryReader, module: &mut Module) -> (r: Result<(), WasmError>)
        requires
            old(reader).wf(),
        ensures
            final(reader).wf(),
            final(reader).data() == old(reader).data(),
            final(reader).pos() >= old(reader).pos(),
            builds(p_import_section(old(reader).data(), old(reader).pos(), module_model(*old(module))), r, final(reader).pos(), *final(module)),
    {
        let ghost s = reader.data();
        let count = match next_uleb(reader) {
            Ok(v) => v,
            Err(e) => return Err(e),
        };
        let ghost q0 = reader.pos();
        let mut i: u32 = 0;
        while i < count
            invariant
                reader.wf(),
                reader.data() == s,
                s == old(reader).data(),
                reader.pos() >= old(reader).pos(),
                i <= count,
                p_import_section(s, old(reader).pos(), module_model(*old(module))) == p_imports(s, q0, count as nat, module_model(*old(module))),
                p_imports(s, reader.pos(), (count - i) as nat, module_model(*module)) == p_imports(s, q0, count as nat, module_model(*old(module))),
            decreases count - i,
        {
            let module_len = match next_uleb(reader) {
                Ok(v) => v,
                Err(e) => return Err(e),
            };
            let module_name = match next_bytes(reader, module_len as usize) {
                Ok(v) => v,
                Err(e) => return Err(e),
            };
            let module_str = string_from_utf8_lossy(module_name.as_slice());
            let name_len = match next_uleb(reader) {
                Ok(v) => v,
                Err(e) => return Err(e),
            };
            let name = match next_bytes(reader, name_len as usize) {
                Ok(v) => v,
                Err(e) => return Err(e),
            };
            let name_str = string_from_utf8_lossy(name.as_slice());
            let kind_byte = match next_u8(reader) {
                Ok(v) => v,
                Err(e) => return Err(e),
            };
            let kind = match self.read_import_kind(reader, kind_byte) {
                Ok(v) => v,
                Err(e) => return Err(e),
            };
            let ghost mm = module_model(*module);
            let ghost entry = (module_str@, name_str@, kind);
            module.imports.push(Import { module: module_str, name: name_str, kind });
            proof {
                assert(module_model(*module) =~= ModuleModel { imports: mm.imports.push(entry), ..mm });
            }
            i = i + 1;
        }
        Ok(())
    }

    /// Parses a function section: the type index of each defined function.
    fn parse_function(&self, reader: &mut BinaryReader, module: &mut Module) -> (r: Result<(), WasmError>)
        requires
            old(reader).wf(),
        ensures
            final(reader).wf(),
            final(reader).data() == old(reader).data(),
            final(reader).pos() >= old(reader).pos(),
            builds(p_function_section(old(reader).data(), old(reader).pos(), module_model(*old(module))), r, final(reader).pos(), *final(module)),
    {
        let ghost s = reader.data();
        let count = match next_uleb(reader) {
            Ok(v) => v,
            Err(e) => return Err(e),
        };
        let ghost q0 = reader.pos();
        let mut i: u32 = 0;
        while i < count
            invariant
                reader.wf(),
                reader.data() == s,
                s == old(reader).data(),
                reader.pos() >= old(reader).pos(),
                i <= count,
                p_function_section(s, old(reader).pos(), module_model(*old(module))) == p_funcs(s, q0, count as nat, module_model(*old(module))),
                p_funcs(s, reader.pos(), (count - i) as nat, module_model(*module)) == p_funcs(s, q0, count as nat, module_model(*old(module))),
            decreases count - i,
        {
            let type_idx = match next_uleb(reader) {
                Ok(v) => v,
                Err(e) => return Err(e),
            };
            let ghost mm = module_model(*module);
            module.funcs.push(Func { type_idx, locals: Vec::new(), body: Vec::new() });
            proof {
                assert(module_model(*module) =~= ModuleModel {
                    funcs: mm.funcs.push((type_idx, Seq::<Local>::empty(), Seq::<u8>::empty())),
                    ..mm
                });
            }
            i = i + 1;
        }
        Ok(())
    }

    /// Parses a table section.
    fn parse_table(&self, reader: &mut BinaryReader, module: &mut Module) -> (r: Result<(), WasmError>)
        requires
            old(reader).wf(),
        ensures
            final(reader).wf(),
            final(reader).data() == old(reader).data(),
            final(reader).pos() >= old(reader).pos(),
            builds(p_table_section(old(reader).data(), old(reader).pos(), module_model(*old(module))), r, final(reader).pos(), *final(module)),
    {
        let ghost s = reader.data();
        let count = match next_uleb(reader) {
            Ok(v) => v,
            Err(e) => return Err(e),
        };
        let ghost q0 = reader.pos();
        let mut i: u32 = 0;
        while i < count
            invariant
                reader.wf(),
                reader.data() == s,
                s == old(reader).data(),
                reader.pos() >= old(reader).pos(),
                i <= count,
                p_table_section(s, old(reader).pos(), module_model(*old(module))) == p_tables(s, q0, count as nat, module_model(*old(module))),
                p_tables(s, reader.pos(), (count - i) as nat, module_model(*module)) == p_tables(s, q0, count as nat, module_model(*old(module))),
            decreases count - i,
        {
            let elem_type = match next_u8(reader) {
                Ok(v) => v,
                Err(e) => return Err(e),
            };
            if elem_type != 0x70 && elem_type != 0x6F {
                return Err(load_message("expected funcref or externref table"));
            }
            let limits = match self.read_limits(reader) {
                Ok(v) => v,
                Err(e) => return Err(e),
            };
            let ref_type = if elem_type == 0x70 {
                RefType::FuncRef
            } else {
                RefType::ExternRef
            };
            let ghost mm = module_model(*module);
            let t = TableType::new(ref_type, limits);
            module.tables.push(t);
            proof {
                assert(module_model(*module) =~= ModuleModel { tables: mm.tables.push(t), ..mm });
            }
            i = i + 1;
        }
        Ok(())
    }

    /// Parses a memory section.
    fn parse_memory(&self, reader: &mut BinaryReader, module: &mut Module) -> (r: Result<(), WasmError>)
        requires
            old(reader).wf(),
        ensures
            final(reader).wf(),
            final(reader).data() == old(reader).data(),
            final(reader).pos() >= old(reader).pos(),
            builds(p_memory_section(old(reader).data(), old(reader).pos(), module_model(*old(module))), r, final(reader).pos(), *final(module)),
    {
        let ghost s = reader.data();
        let count = match next_uleb(reader) {
            Ok(v) => v,
            Err(e) => return Err(e),
        };
        let ghost q0 = reader.pos();
        let mut i: u32 = 0;
        while i < count
            invariant
                reader.wf(),
                reader.data() == s,
                s == old(reader).data(),
                reader.pos() >= old(reader).pos(),
                i <= count,
                p_memory_section(s, old(reader).pos(), module_model(*old(module))) == p_memories(s, q0, count as nat, module_model(*old(module))),
                p_memories(s, reader.pos(), (count - i) as nat, module_model(*module)) == p_memories(s, q0, count as nat, module_model(*old(module))),
            decreases count - i,
        {
            let limits = match self.read_limits(reader) {
                Ok(v) => v,
                Err(e) => return Err(e),
            };
            let ghost mm = module_model(*module);
            let t = MemoryType::new(limits);
            module.memories.push(t);
            proof {
                assert(module_model(*module) =~= ModuleModel { memories: mm.memories.push(t), ..mm });
            }
            i = i + 1;
        }
        Ok(())
    }

    /// Parses a global section; each initialiser is skipped as 10 bytes.
    fn parse_global(&self, reader: &mut BinaryReader, module: &mut Module) -> (r: Result<(), WasmError>)
        requires
            old(reader).wf(),
        ensures
            final(reader).wf(),
            final(reader).data() == old(reader).data(),
            final(reader).pos() >= old(reader).pos(),
            builds(p_global_section(old(reader).data(), old(reader).pos(), module_model(*old(module))), r, final(reader).pos(), *final(module)),
    {
        let ghost s = reader.data();
        let count = match next_uleb(reader) {
            Ok(v) => v,
            Err(e) => return Err(e),
        };
        let ghost q0 = reader.pos();
        let mut i: u32 = 0;
        while i < count
            invariant
                reader.wf(),
                reader.data() == s,
                s == old(reader).data(),
                reader.pos() >= old(reader).pos(),
                i <= count,
                p_global_section(s, old(reader).pos(), module_model(*old(module))) == p_globals(s, q0, count as nat, module_model(*old(module))),
                p_globals(s, reader.pos(), (count - i) as nat, module_model(*module)) == p_globals(s, q0, count as nat, module_model(*old(module))),
            decreases count - i,
        {
            let content_type = match self.read_val_type(reader) {
                Ok(v) => v,
                Err(e) => return Err(e),
            };
            let mutable = match next_u8(reader) {
                Ok(v) => v != 0,
                Err(e) => return Err(e),
            };
            match next_bytes(reader, 10) {
                Ok(_) => {},
                Err(e) => return Err(e),
            }
            let ghost mm = module_model(*module);
            let t = GlobalType::new(content_type, mutable);
            module.globals.push(t);
            proof {
                assert(module_model(*module) =~= ModuleModel { globals: mm.globals.push(t), ..mm });
            }
            i = i + 1;
        }
        Ok(())
    }

    /// Parses an export section.
    fn parse_export(&self, reader: &mut BinaryReader, module: &mut Module) -> (r: Result<(), WasmError>)
        requires
            old(reader).wf(),
        ensures
            final(reader).wf(),
            final(reader).data() == old(reader).data(),
            final(reader).pos() >= old(reader).pos(),
            builds(p_export_section(old(reader).data(), old(reader).pos(), module_model(*old(module))), r, final(reader).pos(), *final(module)),
    {
        let ghost s = reader.data();
        let count = match next_uleb(reader) {
            Ok(v) => v,
            Err(e) => return Err(e),
        };
        let ghost q0 = reader.pos();
        let mut i: u32 = 0;
        while i < count
            invariant
                reader.wf(),
                reader.data() == s,
                s == old(reader).data(),
                reader.pos() >= old(reader).pos(),
                i <= count,
                p_export_section(s, old(reader).pos(), module_model(*old(module))) == p_exports(s, q0, count as nat, module_model(*old(module))),
                p_exports(s, reader.pos(), (count - i) as nat, module_model(*module)) == p_exports(s, q0, count as nat, module_model(*old(module))),
            decreases count - i,
        {
            let name_len = match next_uleb(reader) {
                Ok(v) => v,
                Err(e) => return Err(e),
            };
            let name = match next_bytes(reader, name_len as usize) {
                Ok(v) => v,
                Err(e) => return Err(e),
            };
            let name_str = string_from_utf8_lossy(name.as_slice());
            let kind_byte = match next_u8(reader) {
                Ok(v) => v,
                Err(e) => return Err(e),
            };
            let idx = match next_uleb(reader) {
                Ok(v) => v,
                Err(e) => return Err(e),
            };
            let kind = if kind_byte == 0x00 {
                ExportKind::Func(idx)
            } else if kind_byte == 0x01 {
                ExportKind::Table(idx)
            } else if kind_byte == 0x02 {
                ExportKind::Memory(idx)
            } else if kind_byte == 0x03 {
                ExportKind::Global(idx)
            } else {
                return Err(load_with_decimal("unknown export kind: ", kind_byte as u64));
            };
            let ghost mm = module_model(*module);
            let ghost entry = (name_str@, kind);
            module.exports.push(ExportType { name: name_str, kind });
            proof {
                assert(module_model(*module) =~= ModuleModel { exports: mm.exports.push(entry), ..mm });
            }
            i = i + 1;
        }
        Ok(())
    }

    /// Parses a start section.
    fn parse_start(&self, reader: &mut BinaryReader, module: &mut Module) -> (r: Result<(), WasmError>)
        requires
            old(reader).wf(),
        ensures
            final(reader).wf(),
            final(reader).data() == old(reader).data(),
            final(reader).pos() >= old(reader).pos(),
            builds(p_start_section(old(reader).data(), old(reader).pos(), module_model(*old(module))), r, final(reader).pos(), *final(module)),
    {
        let func_idx = match next_uleb(reader) {
            Ok(v) => v,
            Err(e) => return Err(e),
        };
        let ghost mm = module_model(*module);
        module.start = Some(func_idx);
        proof {
            assert(module_model(*module) =~= ModuleModel { start: Some(func_idx), ..mm });
        }
        Ok(())
    }

    /// Parses a custom section: the name length, then the rest of the data.
    fn parse_custom(&self, reader: &mut BinaryReader) -> (r: Result<(), WasmError>)
        requires
            old(reader).wf(),
        ensures
            final(reader).wf(),
            final(reader).data() == old(reader).data(),
            final(reader).pos() >= old(reader).pos(),
            match p_custom_section(old(reader).data(), old(reader).pos(), empty_model()) {
                Parsed::Got(_, q) => r is Ok && final(reader).pos() == q,
                Parsed::Fail(e) => r matches Err(WasmError::Load(x)) && x@ == e,
                Parsed::Panic => false,
            },
    {
        match next_uleb(reader) {
            Ok(_) => {},
            Err(e) => return Err(e),
        }
        while reader.remaining() > 0
            invariant
                reader.wf(),
                reader.data() == old(reader).data(),
                reader.pos() >= old(reader).pos(),
            ensures
                reader.wf(),
                reader.data() == old(reader).data(),
                reader.pos() >= old(reader).pos(),
                reader.pos() == reader.data().len(),
            decreases reader.data().len() - reader.pos(),
        {
            match reader.read_u8() {
                Ok(_) => {},
                Err(_) => break,
            }
        }
        Ok(())
    }
}

impl Parser {
    /// Parses an element section.
    fn parse_elem(&self, reader: &mut BinaryReader, module: &mut Module) -> (r: Result<(), WasmError>)
        requires
            old(reader).wf(),
        ensures
            final(reader).wf(),
            final(reader).data() == old(reader).data(),
            final(reader).pos() >= old(reader).pos(),
            builds(p_elem_section(old(reader).data(), old(reader).pos(), module_model(*old(module))), r, final(reader).pos(), *final(module)),
    {
        let ghost s = reader.data();
        let count = match next_uleb(reader) {
            Ok(v) => v,
            Err(e) => return Err(e),
        };
        let ghost q0 = reader.pos();
        let mut i: u32 = 0;
        while i < count
            invariant
                reader.wf(),
                reader.data() == s,
                s == old(reader).data(),
                reader.pos() >= old(reader).pos(),
                i <= count,
                p_elem_section(s, old(reader).pos(), module_model(*old(module))) == p_elems(s, q0, count as nat, module_model(*old(module))),
                p_elems(s, reader.pos(), (count - i) as nat, module_model(*module)) == p_elems(s, q0, count as nat, module_model(*old(module))),
            decreases count - i,
        {
            let kind = match next_u8(reader) {
                Ok(v) => v,
                Err(e) => return Err(e),
            };
            let (table_idx, offset) = if kind == 0x00 {
                let offset = match next_bytes(reader, 10) {
                    Ok(v) => v,
                    Err(e) => return Err(e),
                };
                (0u32, offset)
            } else {
                let table_idx = match next_uleb(reader) {
                    Ok(v) => v,
                    Err(e) => return Err(e),
                };
                let offset = match next_bytes(reader, 10) {
                    Ok(v) => v,
                    Err(e) => return Err(e),
                };
                (table_idx, offset)
            };
            let num_elem = match next_uleb(reader) {
                Ok(v) => v,
                Err(e) => return Err(e),
            };
            match skip_ulebs(reader, num_elem) {
                Ok(()) => {},
                Err(e) => return Err(e),
            }
            let ghost mm = module_model(*module);
            let ghost entry = (PlacementModel::Active(table_idx, offset@), RefType::FuncRef);
            module.elems.push(ElemSegment { kind: ElemKind::Active { table_idx, offset }, type_: RefType::FuncRef });
            proof {
                assert(module_model(*module) =~= ModuleModel { elems: mm.elems.push(entry), ..mm });
            }
            i = i + 1;
        }
        Ok(())
    }

    /// Parses a data section.
    fn parse_data(&self, reader: &mut BinaryReader, module: &mut Module) -> (r: Result<(), WasmError>)
        requires
            old(reader).wf(),
        ensures
            final(reader).wf(),
            final(reader).data() == old(reader).data(),
            final(reader).pos() >= old(reader).pos(),
            builds(p_data_section(old(reader).data(), old(reader).pos(), module_model(*old(module))), r, final(reader).pos(), *final(module)),
    {
        let ghost s = reader.data();
        let count = match next_uleb(reader) {
            Ok(v) => v,
            Err(e) => return Err(e),
        };
        let ghost q0 = reader.pos();
        let mut i: u32 = 0;
        while i < count
            invariant
                reader.wf(),
                reader.data() == s,
                s == old(reader).data(),
                reader.pos() >= old(reader).pos(),
                i <= count,
                p_data_section(s, old(reader).pos(), module_model(*old(module))) == p_data_segments(s, q0, count as nat, module_model(*old(module))),
                p_data_segments(s, reader.pos(), (count - i) as nat, module_model(*module)) == p_data_segments(s, q0, count as nat, module_model(*old(module))),
            decreases count - i,
        {
            let kind = match next_u8(reader) {
                Ok(v) => v,
                Err(e) => return Err(e),
            };
            let offset = if kind == 0x00 {
                match next_bytes(reader, 10) {
                    Ok(v) => v,
                    Err(e) => return Err(e),
                }
            } else {
                Vec::new()
            };
            let init_size = match next_uleb(reader) {
                Ok(v) => v as usize,
                Err(e) => return Err(e),
            };
            let init = match next_bytes(reader, init_size) {
                Ok(v) => v,
                Err(e) => return Err(e),
            };
            let ghost mm = module_model(*module);
            let ghost entry = (PlacementModel::Active(0, offset@), init@);
            module.data.push(DataSegment { kind: DataKind::Active { memory_idx: 0, offset }, init });
            proof {
                assert(module_model(*module) =~= ModuleModel { data: mm.data.push(entry), ..mm });
            }
            i = i + 1;
        }
        Ok(())
    }

    /// Parses local declarations.
    fn parse_locals(&self, reader: &mut BinaryReader) -> (r: Result<Vec<Local>, WasmError>)
        requires
            old(reader).wf(),
        ensures
            final(reader).wf(),
            final(reader).data() == old(reader).data(),
            final(reader).pos() >= old(reader).pos(),
            match p_uleb(old(reader).data(), old(reader).pos()) {
                Parsed::Got(n, q) => match p_locals(old(reader).data(), q, n as nat, seq![]) {
                    Parsed::Got(v, q2) => r matches Ok(l) && l@ == v && final(reader).pos() == q2,
                    Parsed::Fail(e) => r matches Err(WasmError::Load(x)) && x@ == e,
                    Parsed::Panic => false,
                },
                Parsed::Fail(e) => r matches Err(WasmError::Load(x)) && x@ == e,
                Parsed::Panic => false,
            },
    {
        let ghost s = reader.data();
        let count = match next_uleb(reader) {
            Ok(v) => v,
            Err(e) => return Err(e),
        };
        let ghost q0 = reader.pos();
        let mut locals: Vec<Local> = Vec::new();
        let mut i: u32 = 0;
        while i < count
            invariant
                reader.wf(),
                reader.data() == s,
                s == old(reader).data(),
                reader.pos() >= old(reader).pos(),
                i <= count,
                p_uleb(s, old(reader).pos()) == Parsed::Got(count, q0),
                p_locals(s, reader.pos(), (count - i) as nat, locals@) == p_locals(s, q0, count as nat, seq![]),
            decreases count - i,
        {
            let n = match next_uleb(reader) {
                Ok(v) => v,
                Err(e) => return Err(e),
            };
            let type_ = match self.read_val_type(reader) {
                Ok(v) => v,
                Err(e) => return Err(e),
            };
            locals.push(Local { count: n, type_ });
            i = i + 1;
        }
        Ok(locals)
    }

    /// Returns the bytes the parser takes local declarations to occupy, when
    /// they are no more than `limit`; `None` when they are more.
    fn calc_locals_size(&self, locals: &[Local], limit: u32) -> (size: Option<usize>)
        ensures
            locals_size(locals@) <= limit ==> size == Some(locals_size(locals@) as usize),
            locals_size(locals@) > limit ==> size is None,
            locals_size(locals@) >= 0,
    {
        proof {
            lemma_locals_size_prefix(locals@, 0);
        }
        let mut size: u64 = 0;
        let mut i: usize = 0;
        while i < locals.len()
            invariant
                0 <= i <= locals@.len(),
                size == locals_size(locals@.subrange(0, i as int)),
                size <= limit,
            decreases locals@.len() - i,
        {
            proof {
                assert(locals@.subrange(0, i + 1).drop_last() =~= locals@.subrange(0, i as int));
                lemma_locals_size_prefix(locals@, i + 1);
            }
            let local = locals[i];
            let type_size: u64 = match local.type_ {
                ValType::Num(NumType::I64) | ValType::Num(NumType::F64) => 2,
                _ => 1,
            };
            size = size + type_size * (local.count as u64);
            if size > limit as u64 {
                return None;
            }
            i = i + 1;
        }
        proof {
            assert(locals@.subrange(0, i as int) =~= locals@);
        }
        Some(size as usize)
    }

    /// Parses a code section: one body for each declared function, in order.
    fn parse_code(&self, reader: &mut BinaryReader, module: &mut Module) -> (r: Result<(), WasmError>)
        requires
            old(reader).wf(),
        ensures
            final(reader).wf(),
            final(reader).data() == old(reader).data(),
            final(reader).pos() >= old(reader).pos(),
            builds(p_code_section(old(reader).data(), old(reader).pos(), module_model(*old(module))), r, final(reader).pos(), *final(module)),
    {
        let ghost s = reader.data();
        let count = match next_uleb(reader) {
            Ok(v) => v,
            Err(e) => return Err(e),
        };
        if count as usize != module.funcs.len() {
            return Err(load_message("function and code section size mismatch"));
        }
        let ghost q0 = reader.pos();
        let mut i: usize = 0;
        while i < module.funcs.len()
            invariant
                reader.wf(),
                reader.data() == s,
                s == old(reader).data(),
                reader.pos() >= old(reader).pos(),
                i <= module.funcs@.len(),
                module.funcs@.len() == old(module).funcs@.len(),
                p_code_section(s, old(reader).pos(), module_model(*old(module))) == p_bodies(s, q0, 0, module_model(*old(module))),
                p_bodies(s, reader.pos(), i as nat, module_model(*module)) == p_bodies(s, q0, 0, module_model(*old(module))),
            decreases module.funcs@.len() - i,
        {
            let body_size = match next_uleb(reader) {
                Ok(v) => v,
                Err(e) => return Err(e),
            };
            let locals = match self.parse_locals(reader) {
                Ok(v) => v,
                Err(e) => return Err(e),
            };
            let locals_bytes = match self.calc_locals_size(locals.as_slice(), body_size) {
                Some(n) => n,
                None => {
                    return Err(
                        WasmError::Other(String::from_str("attempt to subtract with overflow")),
                    );
                },
            };
            let body = match next_bytes(reader, body_size as usize - locals_bytes) {
                Ok(v) => v,
                Err(e) => return Err(e),
            };
            let ghost mm = module_model(*module);
            let type_idx = module.funcs[i].type_idx;
            let ghost entry = (type_idx, locals@, body@);
            module.funcs.set(i, Func { type_idx, locals, body });
            proof {
                assert(module_model(*module) =~= ModuleModel { funcs: mm.funcs.update(i as int, entry), ..mm });
            }
            i = i + 1;
        }
        Ok(())
    }
}

/// The locals size of a prefix of declarations is no more than that of all of them.
proof fn lemma_locals_size_prefix(locals: Seq<Local>, i: int)
    requires
        0 <= i <= locals.len(),
    ensures
        0 <= locals_size(locals.subrange(0, i)) <= locals_size(locals),
    decreases locals.len(),
{
    if i == locals.len() {
        assert(locals.subrange(0, i) =~= locals);
        lemma_locals_size_nonneg(locals);
    } else {
        lemma_locals_size_prefix(locals.drop_last(), i);
        assert(locals.drop_last().subrange(0, i) =~= locals.subrange(0, i));
    }
}

/// The locals size is never negative.
proof fn lemma_locals_size_nonneg(locals: Seq<Local>)
    ensures
        locals_size(locals) >= 0,
    decreases locals.len(),
{
    if locals.len() > 0 {
        lemma_locals_size_nonneg(locals.drop_last());
    }
}

/// A load error: a context message, then the message of a read error.
fn load_after(context: &str, e: ReadError) -> (w: WasmError)
    ensures
        w matches WasmError::Load(x) && x@ == context@ + read_error_text(e),
{
    let mut msg = String::from_str(context);
    let detail = e.message();
    msg.append(detail.as_str());
    WasmError::Load(msg)
}

impl Parser {
    /// Parses the contents of a section with id `section_id`.
    fn parse_section(&self, reader: &mut BinaryReader, module: &mut Module, section_id: u8) -> (r: Result<(), WasmError>)
        requires
            old(reader).wf(),
        ensures
            final(reader).wf(),
            final(reader).data() == old(reader).data(),
            final(reader).pos() >= old(reader).pos(),
            builds(p_section(old(reader).data(), old(reader).pos(), section_id, module_model(*old(module))), r, final(reader).pos(), *final(module)),
    {
        reveal(p_section);
        if section_id == 0 {
            self.parse_custom(reader)
        } else if section_id == 1 {
            self.parse_type(reader, module)
        } else if section_id == 2 {
            self.parse_import(reader, module)
        } else if section_id == 3 {
            self.parse_function(reader, module)
        } else if section_id == 4 {
            self.parse_table(reader, module)
        } else if section_id == 5 {
            self.parse_memory(reader, module)
        } else if section_id == 6 {
            self.parse_global(reader, module)
        } else if section_id == 7 {
            self.parse_export(reader, module)
        } else if section_id == 8 {
            self.parse_start(reader, module)
        } else if section_id == 9 {
            self.parse_elem(reader, module)
        } else if section_id == 10 {
            self.parse_code(reader, module)
        } else if section_id == 11 {
            self.parse_data(reader, module)
        } else {
            Err(load_with_decimal("unknown section id: ", section_id as u64))
        }
    }
}

impl Parser {
    /// Parses a binary module.
    pub fn parse(&self, data: &[u8]) -> (r: Result<Module, WasmError>)
        requires
            !(parse_spec(data@) is Panic),
        ensures
            match parse_spec(data@) {
                Parsed::Got(mm, _) => r matches Ok(m) && module_model(m) == mm,
                Parsed::Fail(e) => r matches Err(WasmError::Load(x)) && x@ == e,
                Parsed::Panic => false,
            },
    {
        let mut reader = BinaryReader::from_slice(data);
        self.parse_module(&mut reader)
    }

    /// Parses a binary module, or returns `None` for the inputs on which
    /// `parse` is not defined: a function body whose size is smaller than
    /// its local declarations.
    pub fn parse_checked(&self, data: &[u8]) -> (r: Option<Result<Module, WasmError>>)
        ensures
            match parse_spec(data@) {
                Parsed::Got(mm, _) => r matches Some(Ok(m)) && module_model(m) == mm,
                Parsed::Fail(e) => r matches Some(Err(WasmError::Load(x))) && x@ == e,
                Parsed::Panic => r is None,
            },
    {
        let mut reader = BinaryReader::from_slice(data);
        match self.parse_module(&mut reader) {
            Err(WasmError::Other(_)) => None,
            other => Some(other),
        }
    }

    /// Parses the module from the reader's position 0.
    fn parse_module(&self, reader: &mut BinaryReader) -> (r: Result<Module, WasmError>)
        requires
            old(reader).wf(),
            old(reader).pos() == 0,
        ensures
            match parse_spec(old(reader).data()) {
                Parsed::Got(mm, _) => r matches Ok(m) && module_model(m) == mm,
                Parsed::Fail(e) => r matches Err(WasmError::Load(x)) && x@ == e,
                Parsed::Panic => r matches Err(WasmError::Other(_)),
            },
    {
        let ghost s = reader.data();
        let magic = match reader.read_u32() {
            Ok(v) => v,
            Err(e) => return Err(load_after("invalid magic number: ", e)),
        };
        if magic != MAGIC {
            let mut msg = String::from_str("invalid magic number: ");
            push_hex(&mut msg, magic as u64);
            return Err(WasmError::Load(msg));
        }
        let version = match reader.read_u32() {
            Ok(v) => v,
            Err(e) => return Err(load_after("invalid version: ", e)),
        };
        if version != CURRENT_VERSION {
            return Err(load_with_decimal("unsupported version: ", version as u64));
        }
        let mut module = Module::new();
        proof {
            assert(module_model(module) =~= empty_model());
        }
        let ghost mut fuel: nat = (s.len() + 1) as nat;
        while reader.remaining() > 0
            invariant
                reader.wf(),
                reader.data() == s,
                s == old(reader).data(),
                reader.pos() >= 8,
                fuel + reader.pos() >= s.len() + 1,
                parse_spec(s) == p_sections(s, 8, empty_model(), (s.len() + 1) as nat),
                p_sections(s, reader.pos(), module_model(module), fuel) == p_sections(s, 8, empty_model(), (s.len() + 1) as nat),
            decreases s.len() - reader.pos(),
        {
            let ghost m0 = module_model(module);
            let section_id = match reader.read_u8() {
                Ok(v) => v,
                Err(e) => return Err(load_after("failed to read section id: ", e)),
            };
            match reader.read_u32() {
                Ok(_) => {},
                Err(e) => return Err(load_after("failed to read section size: ", e)),
            }
            let r = self.parse_section(reader, &mut module, section_id);
            match r {
                Ok(()) => {},
                Err(e) => return Err(e),
            }
            proof {
                fuel = (fuel - 1) as nat;
            }
        }
        Ok(module)
    }
}

impl Default for Parser {
    fn default() -> (p: Self) {
        Self::new()
    }
}


/// The code of an export's kind in the WebAssembly binary format
/// (`externtype`): 0 a function, 1 a table, 2 a memory, 3 a global, 4 a tag.
pub open spec fn export_code(k: ExportKind) -> u8 {
    match k {
        ExportKind::Func(_) => 0,
        ExportKind::Table(_) => 1,
        ExportKind::Memory(_) => 2,
        ExportKind::Global(_) => 3,
        ExportKind::Tag(_) => 4,
    }
}

/// The index an export refers to.
pub open spec fn export_index(k: ExportKind) -> u32 {
    match k {
        ExportKind::Func(i) => i,
        ExportKind::Table(i) => i,
        ExportKind::Memory(i) => i,
        ExportKind::Global(i) => i,
        ExportKind::Tag(i) => i,
    }
}

/// An export's kind byte is read as the kind with that binary code, over
/// the index that follows it: the export encodes back to the bytes it was
/// read from. The codes 0 to 3 are accepted, and no other.
pub proof fn lemma_export_kind_codes(k: u8, idx: u32)
    ensures
        export_kind_of(k, idx) is Some <==> k <= 3,
        export_kind_of(k, idx) matches Some(e) ==> export_code(e) == k && export_index(e) == idx,
{
}

/// The code of an import's kind in the WebAssembly binary format: 0 a
/// function, 1 a table, 2 a memory, 3 a global.
pub open spec fn import_code(k: ImportKind) -> u8 {
    match k {
        ImportKind::Func(_) => 0,
        ImportKind::Table(_) => 1,
        ImportKind::Memory(_) => 2,
        ImportKind::Global(_) => 3,
    }
}

/// An import's kind byte is read as the kind with that binary code.
pub proof fn lemma_import_kind_codes(s: Seq<u8>, p: int, k: u8)
    ensures
        p_import_kind(s, p, k) matches Parsed::Got(ik, _) ==> import_code(ik) == k,
{
}

/// A value-type byte is read as the type with that binary code.
pub proof fn lemma_val_type_codes(b: u8)
    ensures
        val_type_of(b) matches Some(t) ==> val_type_code(t) == b,
        val_type_of(b) is None <==> !(b == 0x7F || b == 0x7E || b == 0x7D || b == 0x7C || b == 0x70 || b == 0x6F),
{
}

} // verus!
