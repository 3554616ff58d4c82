//! The in-memory form of a parsed WebAssembly module.

use super::export::ExportType;
use super::import::{Import, ImportKind};
use super::types::{FunctionType, GlobalType, MemoryType, RefType, TableType, ValType};
use std::collections::HashMap;
use vstd::prelude::*;

verus! {

#[derive(Debug, Clone)]
/// A parsed WebAssembly module.
pub struct Module {
    /// Function types.
    pub types: Vec<FunctionType>,
    /// Functions defined by the module.
    pub funcs: Vec<Func>,
    /// Tables.
    pub tables: Vec<TableType>,
    /// Memories.
    pub memories: Vec<MemoryType>,
    /// Globals.
    pub globals: Vec<GlobalType>,
    /// Exports.
    pub exports: Vec<ExportType>,
    /// Imports.
    pub imports: Vec<Import>,
    /// Index of the start function, if any.
    pub start: Option<u32>,
    /// Data segments.
    pub data: Vec<DataSegment>,
    /// Element segments.
    pub elems: Vec<ElemSegment>,
}

#[derive(Debug, Clone)]
/// A function defined by a module.
pub struct Func {
    /// Index of the function's type.
    pub type_idx: u32,
    /// Local variable declarations.
    pub locals: Vec<Local>,
    /// The body's code bytes.
    pub body: Vec<u8>,
}

#[derive(Debug, Clone, Copy, PartialEq, Eq, Structural)]
/// A run of local variables of one type.
pub struct Local {
    /// Number of locals in the run.
    pub count: u32,
    /// Their type.
    pub type_: ValType,
}

#[derive(Debug, Clone)]
/// A data segment.
pub struct DataSegment {
    /// Whether and where the segment is placed.
    pub kind: DataKind,
    /// The bytes of the segment.
    pub init: Vec<u8>,
}

#[derive(Debug, Clone)]
/// The placement of a data segment.
pub enum DataKind {
    /// Placed at instantiation into a memory at an offset expression.
    Active { memory_idx: u32, offset: Vec<u8> },
    /// Placed on request.
    Passive,
}

#[derive(Debug, Clone)]
/// An element segment.
pub struct ElemSegment {
    /// Whether and where the segment is placed.
    pub kind: ElemKind,
    /// Type of the elements.
    pub type_: RefType,
}

#[derive(Debug, Clone)]
/// The placement of an element segment.
pub enum ElemKind {
    /// Placed at instantiation into a table at an offset expression.
    Active { table_idx: u32, offset: Vec<u8> },
    /// Placed on request.
    Passive,
    /// Only declares references.
    Declarative,
}

#[derive(Debug, Clone)]
/// Debug names of a module.
pub struct NameSection {
    /// Name of the module.
    pub module_name: Option<String>,
    /// Names of functions by index.
    pub func_names: HashMap<u32, String>,
    /// Names of locals by function index and local index.
    pub local_names: HashMap<u32, HashMap<u32, String>>,
}

/// Whether an import is a function import.
pub open spec fn is_func_import(i: Import) -> bool {
    i.kind is Func
}

/// The number of function imports in a list of imports.
pub open spec fn func_import_count(imports: Seq<Import>) -> nat
    decreases imports.len(),
{
    if imports.len() == 0 {
        0
    } else {
        func_import_count(imports.drop_last()) + if is_func_import(imports.last()) {
            1nat
        } else {
            0nat
        }
    }
}

/// Whether `i` is the first export named `name`.
pub open spec fn first_export_named(exports: Seq<ExportType>, name: Seq<char>, i: int) -> bool {
    &&& 0 <= i < exports.len()
    &&& exports[i].name@ == name
    &&& forall|j: int| 0 <= j < i ==> exports[j].name@ != name
}

/// The number of function imports is at most the number of imports.
pub proof fn lemma_func_import_count_bound(imports: Seq<Import>)
    ensures
        func_import_count(imports) <= imports.len(),
    decreases imports.len(),
{
    if imports.len() > 0 {
        lemma_func_import_count_bound(imports.drop_last());
    }
}

impl Module {
    /// Creates an empty module.
    pub fn new() -> (m: Self)
        ensures
            m.types@.len() == 0,
            m.funcs@.len() == 0,
            m.tables@.len() == 0,
            m.memories@.len() == 0,
            m.globals@.len() == 0,
            m.exports@.len() == 0,
            m.imports@.len() == 0,
            m.start is None,
            m.data@.len() == 0,
            m.elems@.len() == 0,
    {
        Self {
            types: Vec::new(),
            funcs: Vec::new(),
            tables: Vec::new(),
            memories: Vec::new(),
            globals: Vec::new(),
            exports: Vec::new(),
            imports: Vec::new(),
            start: None,
            data: Vec::new(),
            elems: Vec::new(),
        }
    }

    /// Returns the function type at the given index.
    pub fn type_at(&self, idx: u32) -> (r: Option<&FunctionType>)
        ensures
            r == (if idx < self.types@.len() {
                Some(&self.types@[idx as int])
            } else {
                None
            }),
    {
        if (idx as usize) < self.types.len() {
            Some(&self.types[idx as usize])
        } else {
            None
        }
    }

    /// Returns the defined function at the given index.
    pub fn func_at(&self, idx: u32) -> (r: Option<&Func>)
        ensures
            r == (if idx < self.funcs@.len() {
                Some(&self.funcs@[idx as int])
            } else {
                None
            }),
    {
        if (idx as usize) < self.funcs.len() {
            Some(&self.funcs[idx as usize])
        } else {
            None
        }
    }

    /// Returns the defined function at an index of the defined functions
    /// (imports not counted).
    pub fn defined_func_at(&self, idx: u32) -> (r: Option<&Func>)
        ensures
            r == (if idx < self.funcs@.len() {
                Some(&self.funcs@[idx as int])
            } else {
                None
            }),
    {
        self.func_at(idx)
    }

    /// Returns the table type at the given index.
    pub fn table_at(&self, idx: u32) -> (r: Option<&TableType>)
        ensures
            r == (if idx < self.tables@.len() {
                Some(&self.tables@[idx as int])
            } else {
                None
            }),
    {
        if (idx as usize) < self.tables.len() {
            Some(&self.tables[idx as usize])
        } else {
            None
        }
    }

    /// Returns the memory type at the given index.
    pub fn memory_at(&self, idx: u32) -> (r: Option<&MemoryType>)
        ensures
            r == (if idx < self.memories@.len() {
                Some(&self.memories@[idx as int])
            } else {
                None
            }),
    {
        if (idx as usize) < self.memories.len() {
            Some(&self.memories[idx as usize])
        } else {
            None
        }
    }

    /// Returns the global type at the given index.
    pub fn global_at(&self, idx: u32) -> (r: Option<&GlobalType>)
        ensures
            r == (if idx < self.globals@.len() {
                Some(&self.globals@[idx as int])
            } else {
                None
            }),
    {
        if (idx as usize) < self.globals.len() {
            Some(&self.globals[idx as usize])
        } else {
            None
        }
    }

    /// Returns the type of a defined function.
    pub fn func_type(&self, func_idx: u32) -> (r: Option<&FunctionType>)
        ensures
            r == (if func_idx < self.funcs@.len() && self.funcs@[func_idx as int].type_idx
                < self.types@.len() {
                Some(&self.types@[self.funcs@[func_idx as int].type_idx as int])
            } else {
                None
            }),
    {
        match self.func_at(func_idx) {
            Some(func) => self.type_at(func.type_idx),
            None => None,
        }
    }

    /// Returns the first export with the given name.
    pub fn export(&self, name: &str) -> (r: Option<&ExportType>)
        ensures
            match r {
                Some(e) => exists|i: int|
                    first_export_named(self.exports@, name@, i) && *e == self.exports@[i],
                None => forall|i: int|
                    0 <= i < self.exports@.len() ==> self.exports@[i].name@ != name@,
            },
    {
        let target = String::from_str(name);
        let mut i: usize = 0;
        while i < self.exports.len()
            invariant
                i <= self.exports@.len(),
                target@ == name@,
                forall|j: int| 0 <= j < i ==> self.exports@[j].name@ != name@,
            decreases self.exports@.len() - i,
        {
            if self.exports[i].name == target {
                assert(first_export_named(self.exports@, name@, i as int));
                return Some(&self.exports[i]);
            }
            i = i + 1;
        }
        None
    }

    /// Returns the size of the function index space: function imports plus
    /// defined functions.
    pub fn func_count(&self) -> (n: u32)
        requires
            (func_import_count(self.imports@) as u32) + (self.funcs@.len() as u32) <= u32::MAX,
        ensures
            n == (func_import_count(self.imports@) as u32) + (self.funcs@.len() as u32),
    {
        let import_count = self.func_import_count_usize();
        import_count as u32 + self.funcs.len() as u32
    }

    /// Returns the number of function imports.
    pub fn func_import_count_usize(&self) -> (n: usize)
        ensures
            n == func_import_count(self.imports@),
    {
        let mut count: usize = 0;
        let mut i: usize = 0;
        while i < self.imports.len()
            invariant
                i <= self.imports@.len(),
                count == func_import_count(self.imports@.take(i as int)),
                count <= i,
            decreases self.imports@.len() - i,
        {
            proof {
                assert(self.imports@.take(i + 1).drop_last() =~= self.imports@.take(i as int));
            }
            if let ImportKind::Func(_) = self.imports[i].kind {
                count = count + 1;
            }
            i = i + 1;
        }
        proof {
            assert(self.imports@.take(i as int) =~= self.imports@);
        }
        count
    }

    /// Returns the number of imports.
    pub fn import_count(&self) -> (n: usize)
        ensures
            n == self.imports@.len(),
    {
        self.imports.len()
    }

    /// Returns the function imports, in order.
    pub fn get_func_imports(&self) -> (r: Vec<&Import>)
        ensures
            r@.map_values(|x: &Import| *x) == self.imports@.filter(|i: Import| is_func_import(i)),
    {
        let mut r: Vec<&Import> = Vec::new();
        let mut i: usize = 0;
        while i < self.imports.len()
            invariant
                i <= self.imports@.len(),
                r@.map_values(|x: &Import| *x) == self.imports@.take(i as int).filter(
                    |i: Import| is_func_import(i),
                ),
            decreases self.imports@.len() - i,
        {
            proof {
                reveal_with_fuel(Seq::<_>::filter, 1);
                assert(self.imports@.take(i + 1).drop_last() =~= self.imports@.take(i as int));
            }
            let ghost before = r@;
            if let ImportKind::Func(_) = self.imports[i].kind {
                r.push(&self.imports[i]);
                proof {
                    assert(r@.map_values(|x: &Import| *x) =~= before.map_values(|x: &Import| *x).push(
                        self.imports@[i as int],
                    ));
                }
            }
            i = i + 1;
        }
        proof {
            assert(self.imports@.take(i as int) =~= self.imports@);
        }
        r
    }
}

impl Default for Module {
    fn default() -> (m: Self)
        ensures
            m.types@.len() == 0,
            m.funcs@.len() == 0,
            m.imports@.len() == 0,
            m.exports@.len() == 0,
    {
        Self::new()
    }
}

} // verus!
