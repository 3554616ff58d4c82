//! A cache of generated code, call trampolines and OSR entry points.

use std::collections::HashMap;
use vstd::prelude::*;

verus! {

#[derive(Clone, Copy, Debug, PartialEq, Eq, Structural)]
/// An entry point into compiled code at a WebAssembly program counter.
pub struct OsrEntryPoint {
    /// WebAssembly program-counter offset of the entry.
    pub pc_offset: u32,
    /// Native address to enter at.
    pub target_address: u64,
}

/// A call trampoline for a table slot.
pub(crate) struct Trampoline {
    code: Vec<u8>,
    target: u32,
}

impl Trampoline {
    /// The function the trampoline calls.
    pub closed spec fn target_fn(&self) -> u32 {
        self.target
    }
}

/// Cache of generated code.
pub struct JitCodeCache {
    trampolines: HashMap<u32, Trampoline>,
    compiled_code: HashMap<u64, Vec<u8>>,
    osr_enabled: bool,
    osr_threshold: u64,
    osr_entry_points: HashMap<u64, Vec<OsrEntryPoint>>,
}

impl JitCodeCache {
    /// The stored code by key.
    pub closed spec fn compiled(&self) -> Map<u64, Seq<u8>> {
        self.compiled_code@.map_values(|v: Vec<u8>| v@)
    }

    /// The OSR entry points of each function, in the order they were added.
    pub closed spec fn entry_points(&self) -> Map<u64, Seq<OsrEntryPoint>> {
        self.osr_entry_points@.map_values(|v: Vec<OsrEntryPoint>| v@)
    }

    /// The target function of the trampoline of each table slot.
    pub closed spec fn trampoline_targets(&self) -> Map<u32, u32> {
        self.trampolines@.map_values(|t: Trampoline| t.target)
    }

    /// Whether on-stack replacement is enabled.
    pub closed spec fn osr_on(&self) -> bool {
        self.osr_enabled
    }

    /// The call count from which a function is considered for OSR.
    pub closed spec fn threshold(&self) -> u64 {
        self.osr_threshold
    }

    /// Creates an empty cache with OSR disabled and a threshold of 1000.
    pub fn new() -> (c: Self)
        ensures
            c.compiled() == Map::<u64, Seq<u8>>::empty(),
            c.entry_points() == Map::<u64, Seq<OsrEntryPoint>>::empty(),
            c.trampoline_targets() == Map::<u32, u32>::empty(),
            !c.osr_on(),
            c.threshold() == 1000,
    {
        let c = Self {
            trampolines: HashMap::new(),
            compiled_code: HashMap::new(),
            osr_enabled: false,
            osr_threshold: 1000,
            osr_entry_points: HashMap::new(),
        };
        proof {
            assert(c.compiled() =~= Map::<u64, Seq<u8>>::empty());
            assert(c.entry_points() =~= Map::<u64, Seq<OsrEntryPoint>>::empty());
            assert(c.trampoline_targets() =~= Map::<u32, u32>::empty());
        }
        c
    }

    /// Enables on-stack replacement.
    pub fn enable_osr(&mut self)
        ensures
            final(self).osr_on(),
            final(self).threshold() == old(self).threshold(),
            final(self).compiled() == old(self).compiled(),
            final(self).entry_points() == old(self).entry_points(),
            final(self).trampoline_targets() == old(self).trampoline_targets(),
    {
        self.osr_enabled = true;
    }

    /// Disables on-stack replacement.
    pub fn disable_osr(&mut self)
        ensures
            !final(self).osr_on(),
            final(self).threshold() == old(self).threshold(),
            final(self).compiled() == old(self).compiled(),
            final(self).entry_points() == old(self).entry_points(),
            final(self).trampoline_targets() == old(self).trampoline_targets(),
    {
        self.osr_enabled = false;
    }

    /// Returns whether on-stack replacement is enabled.
    pub fn is_osr_enabled(&self) -> (b: bool)
        ensures
            b == self.osr_on(),
    {
        self.osr_enabled
    }

    /// Sets the OSR threshold.
    pub fn set_osr_threshold(&mut self, threshold: u64)
        ensures
            final(self).threshold() == threshold,
            final(self).osr_on() == old(self).osr_on(),
            final(self).compiled() == old(self).compiled(),
            final(self).entry_points() == old(self).entry_points(),
            final(self).trampoline_targets() == old(self).trampoline_targets(),
    {
        self.osr_threshold = threshold;
    }

    /// Returns the OSR threshold.
    pub fn get_osr_threshold(&self) -> (t: u64)
        ensures
            t == self.threshold(),
    {
        self.osr_threshold
    }

    /// Adds an OSR entry point after the function's earlier ones.
    pub fn add_osr_entry_point(&mut self, func_idx: u64, pc_offset: u32, target_address: u64)
        ensures
            final(self).entry_points() == old(self).entry_points().insert(
                func_idx,
                (if old(self).entry_points().contains_key(func_idx) {
                    old(self).entry_points()[func_idx]
                } else {
                    Seq::<OsrEntryPoint>::empty()
                }).push(OsrEntryPoint { pc_offset, target_address }),
            ),
            final(self).osr_on() == old(self).osr_on(),
            final(self).threshold() == old(self).threshold(),
            final(self).compiled() == old(self).compiled(),
            final(self).trampoline_targets() == old(self).trampoline_targets(),
    {
        broadcast use vstd::std_specs::hash::group_hash_axioms;

        let entry = OsrEntryPoint { pc_offset, target_address };
        let mut list = match self.osr_entry_points.remove(&func_idx) {
            Some(v) => v,
            None => Vec::new(),
        };
        list.push(entry);
        self.osr_entry_points.insert(func_idx, list);
        proof {
            assert(self.entry_points() =~= old(self).entry_points().insert(
                func_idx,
                (if old(self).entry_points().contains_key(func_idx) {
                    old(self).entry_points()[func_idx]
                } else {
                    Seq::<OsrEntryPoint>::empty()
                }).push(entry),
            ));
        }
    }

    /// Returns the OSR entry points of a function, if any were added.
    pub fn get_osr_entry_points(&self, func_idx: u64) -> (r: Option<&Vec<OsrEntryPoint>>)
        ensures
            match r {
                Some(v) => self.entry_points().contains_key(func_idx) && v@ == self.entry_points()[func_idx],
                None => !self.entry_points().contains_key(func_idx),
            },
    {
        broadcast use vstd::std_specs::hash::group_hash_axioms;

        self.osr_entry_points.get(&func_idx)
    }

    /// Installs a trampoline for a table slot, replacing any earlier one.
    pub fn add_trampoline(&mut self, table_idx: u32, target: u32)
        ensures
            final(self).trampoline_targets() == old(self).trampoline_targets().insert(table_idx, target),
            final(self).osr_on() == old(self).osr_on(),
            final(self).threshold() == old(self).threshold(),
            final(self).compiled() == old(self).compiled(),
            final(self).entry_points() == old(self).entry_points(),
    {
        broadcast use vstd::std_specs::hash::group_hash_axioms;

        let trampoline = Trampoline { code: Vec::new(), target };
        self.trampolines.insert(table_idx, trampoline);
        proof {
            assert(self.trampoline_targets() =~= old(self).trampoline_targets().insert(table_idx, target));
        }
    }

    /// Stores code under a key, replacing any earlier code.
    pub fn store_compiled(&mut self, key: u64, code: Vec<u8>)
        ensures
            final(self).compiled() == old(self).compiled().insert(key, code@),
            final(self).osr_on() == old(self).osr_on(),
            final(self).threshold() == old(self).threshold(),
            final(self).entry_points() == old(self).entry_points(),
            final(self).trampoline_targets() == old(self).trampoline_targets(),
    {
        broadcast use vstd::std_specs::hash::group_hash_axioms;

        let ghost c = code@;
        self.compiled_code.insert(key, code);
        proof {
            assert(self.compiled() =~= old(self).compiled().insert(key, c));
        }
    }

    /// Returns the code stored under a key.
    pub fn get_compiled(&self, key: u64) -> (r: Option<&Vec<u8>>)
        ensures
            match r {
                Some(v) => self.compiled().contains_key(key) && v@ == self.compiled()[key],
                None => !self.compiled().contains_key(key),
            },
    {
        broadcast use vstd::std_specs::hash::group_hash_axioms;

        self.compiled_code.get(&key)
    }

    /// Returns the trampoline of a table slot.
    pub(crate) fn get_trampoline(&self, table_idx: u32) -> (r: Option<&Trampoline>)
        ensures
            match r {
                Some(t) => self.trampoline_targets().contains_key(table_idx) && t.target_fn() == self.trampoline_targets()[table_idx],
                None => !self.trampoline_targets().contains_key(table_idx),
            },
    {
        broadcast use vstd::std_specs::hash::group_hash_axioms;

        self.trampolines.get(&table_idx)
    }
}

/// What was stored under a key is what a read of that key gives back, until
/// the key is stored again.
pub proof fn lemma_store_then_get(m: Map<u64, Seq<u8>>, key: u64, code: Seq<u8>, other: u64)
    ensures
        m.insert(key, code).contains_key(key),
        m.insert(key, code)[key] == code,
        other != key ==> m.insert(key, code).contains_key(other) == m.contains_key(other),
        other != key && m.contains_key(other) ==> m.insert(key, code)[other] == m[other],
{
}

impl Default for JitCodeCache {
    fn default() -> (c: Self)
        ensures
            c.compiled() == Map::<u64, Seq<u8>>::empty(),
            c.entry_points() == Map::<u64, Seq<OsrEntryPoint>>::empty(),
            c.trampoline_targets() == Map::<u32, u32>::empty(),
            !c.osr_on(),
            c.threshold() == 1000,
    {
        Self::new()
    }
}

} // verus!
