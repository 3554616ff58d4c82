//! A linear-scan register allocator.

use super::emitter::{
    mov_mr_bytes, mov_rm_bytes, Address, Emitter, Reg,
};
use vstd::prelude::*;
use vstd::seq_lib::{to_multiset_build, to_multiset_insert};

verus! {

#[derive(Clone, Copy, Debug, PartialEq, Eq, Structural)]
/// Location assigned to a value by the register allocator.
pub enum ValueLoc {
    /// The value is held in a machine register.
    Register(Reg),
    /// The value is spilled to a stack slot.
    SpillSlot(u32),
}

impl ValueLoc {
    /// Returns whether the value is in a register.
    pub fn is_register(&self) -> (r: bool)
        ensures
            r == (*self is Register),
    {
        match self {
            ValueLoc::Register(_) => true,
            ValueLoc::SpillSlot(_) => false,
        }
    }

    /// Returns whether the value is spilled.
    pub fn is_spill(&self) -> (r: bool)
        ensures
            r == (*self is SpillSlot),
    {
        match self {
            ValueLoc::Register(_) => false,
            ValueLoc::SpillSlot(_) => true,
        }
    }

    /// Returns the register, if the value is in one.
    pub fn as_register(&self) -> (r: Option<Reg>)
        ensures
            r == (match *self {
                ValueLoc::Register(reg) => Some(reg),
                ValueLoc::SpillSlot(_) => None,
            }),
    {
        match self {
            ValueLoc::Register(r) => Some(*r),
            ValueLoc::SpillSlot(_) => None,
        }
    }

    /// Returns the spill slot, if the value is spilled.
    pub fn as_spill_slot(&self) -> (r: Option<u32>)
        ensures
            r == (match *self {
                ValueLoc::Register(_) => None,
                ValueLoc::SpillSlot(s) => Some(s),
            }),
    {
        match self {
            ValueLoc::Register(_) => None,
            ValueLoc::SpillSlot(s) => Some(*s),
        }
    }
}

#[derive(Clone, Copy, Debug, PartialEq, Eq, Structural)]
/// Live range of a single value.
pub struct LiveInterval {
    /// Identifier of the tracked value.
    pub value_id: u32,
    /// First program position covered by the interval.
    pub start: u32,
    /// Exclusive end position of the interval.
    pub end: u32,
    /// Location assigned to the value.
    pub loc: ValueLoc,
    /// Whether the interval is pinned to a fixed location.
    pub is_fixed: bool,
    /// Whether the interval has been split.
    pub is_split: bool,
}

impl LiveInterval {
    /// The interval that a value starts with: empty, at `start`, in `rax`.
    pub open spec fn fresh(value_id: u32, start: u32) -> LiveInterval {
        LiveInterval {
            value_id,
            start,
            end: start,
            loc: ValueLoc::Register(Reg::Rax),
            is_fixed: false,
            is_split: false,
        }
    }

    /// Creates an empty interval for a value, starting at `start`.
    pub fn new(value_id: u32, start: u32) -> (i: Self)
        ensures
            i == LiveInterval::fresh(value_id, start),
    {
        Self {
            value_id,
            start,
            end: start,
            loc: ValueLoc::Register(Reg::Rax),
            is_fixed: false,
            is_split: false,
        }
    }

    /// Returns whether the interval covers the given position.
    pub fn covers(&self, pos: u32) -> (r: bool)
        ensures
            r == (self.start <= pos < self.end),
    {
        pos >= self.start && pos < self.end
    }

    /// Extends the interval to end at `pos`, if it ends before.
    pub fn extends_to(&mut self, pos: u32)
        ensures
            *final(self) == (LiveInterval {
                end: if pos > old(self).end {
                    pos
                } else {
                    old(self).end
                },
                ..*old(self)
            }),
    {
        if pos > self.end {
            self.end = pos;
        }
    }
}

#[derive(Clone, Copy, Debug, PartialEq, Eq, Hash, Structural)]
/// Closed-open interval used for liveness calculations.
pub struct Interval(pub u32, pub u32);

/// The position where an interval starting at `key` goes into `sorted`: after
/// every leading interval that starts at or before `key`.
pub open spec fn insert_pos(sorted: Seq<LiveInterval>, key: u32) -> int
    decreases sorted.len(),
{
    if sorted.len() == 0 {
        0
    } else if sorted[0].start > key {
        0
    } else {
        1 + insert_pos(sorted.drop_first(), key)
    }
}

/// The stable sort of intervals by start position: each interval goes after
/// all earlier ones that start at or before it.
pub open spec fn sort_by_start(s: Seq<LiveInterval>) -> Seq<LiveInterval>
    decreases s.len(),
{
    if s.len() == 0 {
        s
    } else {
        let r = sort_by_start(s.drop_last());
        r.insert(insert_pos(r, s.last().start), s.last())
    }
}

/// Whether intervals are in ascending order of start position.
pub open spec fn sorted_by_start(s: Seq<LiveInterval>) -> bool {
    forall|i: int, j: int| 0 <= i <= j < s.len() ==> s[i].start <= s[j].start
}

/// The first index at which an interval of `value_id` occurs.
pub open spec fn first_with_id(s: Seq<LiveInterval>, value_id: u32, i: int) -> bool {
    &&& 0 <= i < s.len()
    &&& s[i].value_id == value_id
    &&& forall|j: int| 0 <= j < i ==> s[j].value_id != value_id
}

/// Whether no interval of `value_id` occurs.
pub open spec fn has_no_id(s: Seq<LiveInterval>, value_id: u32) -> bool {
    forall|j: int| 0 <= j < s.len() ==> s[j].value_id != value_id
}

/// The effect on intervals of giving a value a new location: the first
/// interval of the value (if any) takes the location.
pub open spec fn with_location(s: Seq<LiveInterval>, value_id: u32, loc: ValueLoc) -> Seq<
    LiveInterval,
> {
    if exists|i: int| first_with_id(s, value_id, i) {
        let i = choose|i: int| first_with_id(s, value_id, i);
        s.update(i, LiveInterval { loc: loc, ..s[i] })
    } else {
        s
    }
}

/// The number of intervals in `s` that are not fixed.
pub open spec fn unfixed_count(s: Seq<LiveInterval>) -> nat
    decreases s.len(),
{
    if s.len() == 0 {
        0
    } else {
        unfixed_count(s.drop_last()) + if s.last().is_fixed {
            0nat
        } else {
            1nat
        }
    }
}

/// The location given to the `k`-th interval (in order) when there is no free
/// register: the next spill slot.
pub open spec fn spill_loc(first_slot: u32, s: Seq<LiveInterval>, k: int) -> ValueLoc {
    ValueLoc::SpillSlot((first_slot + unfixed_count(s.take(k))) as u32)
}

/// The locations that allocation computes for the intervals `s` (sorted), as
/// a map from value to location: the location computed for the last unfixed
/// interval of each value.
pub open spec fn planned_locations(s: Seq<LiveInterval>, reg: Option<Reg>, first_slot: u32) -> Map<
    u32,
    ValueLoc,
>
    decreases s.len(),
{
    if s.len() == 0 {
        Map::empty()
    } else {
        let prev = planned_locations(s.drop_last(), reg, first_slot);
        if s.last().is_fixed {
            prev
        } else {
            prev.insert(
                s.last().value_id,
                match reg {
                    Some(r) => ValueLoc::Register(r),
                    None => spill_loc(first_slot, s, s.len() - 1),
                },
            )
        }
    }
}

/// The intervals after every planned location has been applied.
pub open spec fn apply_locations(s: Seq<LiveInterval>, plan: Map<u32, ValueLoc>) -> Seq<LiveInterval> {
    Seq::new(
        s.len(),
        |i: int|
            if plan.contains_key(s[i].value_id) && first_with_id(s, s[i].value_id, i) {
                LiveInterval { loc: plan[s[i].value_id], ..s[i] }
            } else {
                s[i]
            },
    )
}

/// The stack offset of a spill slot, when it is representable: slots are
/// eight bytes wide, downwards from the stack pointer.
pub open spec fn spill_offset_ok(slot: u32) -> bool {
    let v = (slot as i32) as int + 1;
    &&& v <= i32::MAX
    &&& i32::MIN < 8 * v <= i32::MAX
}

/// The stack offset of a spill slot.
pub open spec fn spill_offset(slot: u32) -> i32 {
    (-(8 * ((slot as i32) as int + 1))) as i32
}

/// An address relative to the stack pointer.
pub open spec fn rsp_address(offset: i32) -> Address {
    Address { base: Some(Reg::Rsp), index: None, scale: 1, displacement: Some(offset) }
}

/// Linear scan allocator.
pub struct LinearScanAllocator {
    available_regs: Vec<Reg>,
    allocated_regs: Vec<(Reg, u32)>,
    spill_slots: u32,
    intervals: Vec<LiveInterval>,
}

impl LinearScanAllocator {
    /// The registers the allocator hands out, in order of preference.
    pub closed spec fn available(&self) -> Seq<Reg> {
        self.available_regs@
    }

    /// The registers currently marked as allocated.
    pub closed spec fn allocated(&self) -> Seq<Reg> {
        self.allocated_regs@.map_values(|p: (Reg, u32)| p.0)
    }

    /// The number of spill slots handed out.
    pub closed spec fn spill_count(&self) -> u32 {
        self.spill_slots
    }

    /// The live intervals, in order.
    pub closed spec fn intervals(&self) -> Seq<LiveInterval> {
        self.intervals@
    }

    /// The registers that `new` makes available.
    pub open spec fn default_registers() -> Seq<Reg> {
        seq![
            Reg::Rax,
            Reg::Rcx,
            Reg::Rdx,
            Reg::Rbx,
            Reg::Rsi,
            Reg::Rdi,
            Reg::R8,
            Reg::R9,
            Reg::R10,
            Reg::R11,
        ]
    }

    /// The register that `allocate_register` returns: the first available
    /// register that is not allocated.
    pub open spec fn first_free_register(available: Seq<Reg>, allocated: Seq<Reg>) -> Option<Reg>
        decreases available.len(),
    {
        if available.len() == 0 {
            None
        } else if !allocated.contains(available[0]) {
            Some(available[0])
        } else {
            Self::first_free_register(available.drop_first(), allocated)
        }
    }

    /// Creates an allocator with ten free registers, no spill slots and no intervals.
    pub fn new() -> (a: Self)
        ensures
            a.available() == Self::default_registers(),
            a.allocated() == Seq::<Reg>::empty(),
            a.spill_count() == 0,
            a.intervals() == Seq::<LiveInterval>::empty(),
    {
        let mut available_regs = Vec::new();
        available_regs.push(Reg::Rax);
        available_regs.push(Reg::Rcx);
        available_regs.push(Reg::Rdx);
        available_regs.push(Reg::Rbx);
        available_regs.push(Reg::Rsi);
        available_regs.push(Reg::Rdi);
        available_regs.push(Reg::R8);
        available_regs.push(Reg::R9);
        available_regs.push(Reg::R10);
        available_regs.push(Reg::R11);
        let a = Self {
            available_regs,
            allocated_regs: Vec::new(),
            spill_slots: 0,
            intervals: Vec::new(),
        };
        proof {
            assert(a.available() =~= Self::default_registers());
            assert(a.allocated() =~= Seq::<Reg>::empty());
        }
        a
    }

    /// Returns the number of spill slots handed out so far.
    pub fn spill_slot_count(&self) -> (n: u32)
        ensures
            n == self.spill_count(),
    {
        self.spill_slots
    }

    /// Adds an empty interval for a value, starting at `start`.
    pub fn create_interval(&mut self, value_id: u32, start: u32)
        ensures
            final(self).intervals() == old(self).intervals().push(
                LiveInterval::fresh(value_id, start),
            ),
            final(self).available() == old(self).available(),
            final(self).allocated() == old(self).allocated(),
            final(self).spill_count() == old(self).spill_count(),
    {
        let interval = LiveInterval::new(value_id, start);
        self.intervals.push(interval);
    }

    /// Returns the index of the first interval of a value.
    fn find_interval(&self, value_id: u32) -> (r: Option<usize>)
        ensures
            match r {
                Some(i) => first_with_id(self.intervals(), value_id, i as int),
                None => has_no_id(self.intervals(), value_id),
            },
    {
        let mut i: usize = 0;
        while i < self.intervals.len()
            invariant
                i <= self.intervals@.len(),
                forall|j: int| 0 <= j < i ==> self.intervals@[j].value_id != value_id,
            decreases self.intervals@.len() - i,
        {
            if self.intervals[i].value_id == value_id {
                return Some(i);
            }
            i = i + 1;
        }
        None
    }

    /// Returns the first interval of a value.
    pub fn get_interval(&self, value_id: u32) -> (r: Option<&LiveInterval>)
        ensures
            match r {
                Some(iv) => exists|i: int|
                    first_with_id(self.intervals(), value_id, i) && *iv == self.intervals()[i],
                None => has_no_id(self.intervals(), value_id),
            },
    {
        match self.find_interval(value_id) {
            Some(i) => Some(&self.intervals[i]),
            None => None,
        }
    }

    /// Returns the first interval of a value, mutably.
    pub fn get_interval_mut(&mut self, value_id: u32) -> (r: Option<&mut LiveInterval>)
        ensures
            match r {
                Some(iv) => exists|i: int|
                    first_with_id(old(self).intervals(), value_id, i) && *iv == old(
                        self,
                    ).intervals()[i] && final(self).intervals() == old(self).intervals().update(
                        i,
                        *final(iv),
                    ),
                None => has_no_id(old(self).intervals(), value_id) && *final(self) == *old(
                    self,
                ),
            },
            final(self).available() == old(self).available(),
            final(self).allocated() == old(self).allocated(),
            final(self).spill_count() == old(self).spill_count(),
    {
        match self.find_interval(value_id) {
            Some(i) => {
                Some(&mut self.intervals[i])
            },
            None => None,
        }
    }

    /// Extends the first interval of a value to end at `end`, if it ends before.
    pub fn update_interval_end(&mut self, value_id: u32, end: u32)
        ensures
            (exists|i: int|
                first_with_id(old(self).intervals(), value_id, i) && final(self).intervals()
                    == old(self).intervals().update(
                    i,
                    LiveInterval {
                        end: if end > old(self).intervals()[i].end {
                            end
                        } else {
                            old(self).intervals()[i].end
                        },
                        ..old(self).intervals()[i]
                    },
                )) || (has_no_id(old(self).intervals(), value_id) && final(self).intervals()
                == old(self).intervals()),
            final(self).available() == old(self).available(),
            final(self).allocated() == old(self).allocated(),
            final(self).spill_count() == old(self).spill_count(),
    {
        match self.find_interval(value_id) {
            Some(i) => {
                let ghost s = self.intervals@;
                let mut iv = self.intervals[i];
                iv.extends_to(end);
                self.intervals.set(i, iv);
                proof {
                    assert(first_with_id(s, value_id, i as int));
                    assert(self.intervals@ =~= s.update(
                        i as int,
                        LiveInterval { end: if end > s[i as int].end { end } else { s[i as int].end }, ..s[i as int] },
                    ));
                }
            },
            None => {},
        }
    }

    /// Gives the first interval of a value the location `loc`.
    pub fn set_location(&mut self, value_id: u32, loc: ValueLoc)
        ensures
            final(self).intervals() == with_location(old(self).intervals(), value_id, loc),
            final(self).available() == old(self).available(),
            final(self).allocated() == old(self).allocated(),
            final(self).spill_count() == old(self).spill_count(),
    {
        match self.find_interval(value_id) {
            Some(i) => {
                let ghost s = self.intervals@;
                let mut iv = self.intervals[i];
                iv.loc = loc;
                self.intervals.set(i, iv);
                proof {
                    assert(first_with_id(s, value_id, i as int));
                    let c = choose|k: int| first_with_id(s, value_id, k);
                    assert(c == i);
                }
            },
            None => {},
        }
    }

    /// Returns the first available register that is not allocated.
    pub fn allocate_register(&mut self) -> (r: Option<Reg>)
        ensures
            r == Self::first_free_register(old(self).available(), old(self).allocated()),
            *final(self) == *old(self),
    {
        let mut i: usize = 0;
        proof {
            assert(self.available().skip(0) =~= self.available());
        }
        while i < self.available_regs.len()
            invariant
                i <= self.available_regs@.len(),
                Self::first_free_register(self.available(), self.allocated()) == Self::first_free_register(
                    self.available().skip(i as int),
                    self.allocated(),
                ),
            decreases self.available_regs@.len() - i,
        {
            let reg = self.available_regs[i];
            let mut j: usize = 0;
            let mut taken = false;
            while j < self.allocated_regs.len()
                invariant
                    j <= self.allocated_regs@.len(),
                    taken == exists|k: int| 0 <= k < j && self.allocated_regs@[k].0 == reg,
                decreases self.allocated_regs@.len() - j,
            {
                if self.allocated_regs[j].0 == reg {
                    taken = true;
                }
                j = j + 1;
            }
            proof {
                let rest = self.available().skip(i as int);
                assert(rest[0] == reg);
                assert(rest.drop_first() =~= self.available().skip(i + 1));
                if taken {
                    let k = choose|k: int| 0 <= k < j && self.allocated_regs@[k].0 == reg;
                    assert(self.allocated()[k] == reg);
                } else {
                    assert forall|k: int| 0 <= k < self.allocated().len() implies self.allocated()[k]
                        != reg by {
                        assert(self.allocated()[k] == self.allocated_regs@[k].0);
                    }
                }
            }
            if !taken {
                return Some(reg);
            }
            i = i + 1;
        }
        None
    }

    /// Hands out the next spill slot.
    pub fn allocate_spill_slot(&mut self) -> (slot: u32)
        requires
            old(self).spill_count() < u32::MAX,
        ensures
            slot == old(self).spill_count(),
            final(self).spill_count() == old(self).spill_count() + 1,
            final(self).intervals() == old(self).intervals(),
            final(self).available() == old(self).available(),
            final(self).allocated() == old(self).allocated(),
    {
        let slot = self.spill_slots;
        self.spill_slots = self.spill_slots + 1;
        slot
    }

    /// Marks a register as no longer allocated.
    pub fn free_register(&mut self, reg: Reg)
        ensures
            final(self).allocated() == old(self).allocated().filter(|r: Reg| r != reg),
            final(self).intervals() == old(self).intervals(),
            final(self).available() == old(self).available(),
            final(self).spill_count() == old(self).spill_count(),
    {
        let mut kept: Vec<(Reg, u32)> = Vec::new();
        let mut i: usize = 0;
        while i < self.allocated_regs.len()
            invariant
                i <= self.allocated_regs@.len(),
                kept@.map_values(|p: (Reg, u32)| p.0) == self.allocated_regs@.take(
                    i as int,
                ).map_values(|p: (Reg, u32)| p.0).filter(|r: Reg| r != reg),
            decreases self.allocated_regs@.len() - i,
        {
            proof {
                reveal_with_fuel(Seq::<_>::filter, 1);
                assert(self.allocated_regs@.take(i + 1).map_values(|p: (Reg, u32)| p.0).drop_last()
                    =~= self.allocated_regs@.take(i as int).map_values(|p: (Reg, u32)| p.0));
            }
            let ghost before = kept@;
            let entry = self.allocated_regs[i];
            if entry.0 != reg {
                kept.push(entry);
                proof {
                    assert(kept@.map_values(|p: (Reg, u32)| p.0) =~= before.map_values(
                        |p: (Reg, u32)| p.0,
                    ).push(entry.0));
                }
            }
            i = i + 1;
        }
        proof {
            assert(self.allocated_regs@.take(i as int) =~= self.allocated_regs@);
        }
        self.allocated_regs = kept;
    }

    /// Sorts the intervals by start position, stably.
    fn sort_intervals_by_start(&mut self)
        ensures
            final(self).intervals() == sort_by_start(old(self).intervals()),
            final(self).available() == old(self).available(),
            final(self).allocated() == old(self).allocated(),
            final(self).spill_count() == old(self).spill_count(),
    {
        let mut sorted: Vec<LiveInterval> = Vec::new();
        let mut i: usize = 0;
        proof {
            assert(self.intervals@.take(0) =~= Seq::<LiveInterval>::empty());
        }
        while i < self.intervals.len()
            invariant
                i <= self.intervals@.len(),
                sorted@ == sort_by_start(self.intervals@.take(i as int)),
            decreases self.intervals@.len() - i,
        {
            let x = self.intervals[i];
            let mut p: usize = 0;
            while p < sorted.len() && sorted[p].start <= x.start
                invariant
                    p <= sorted@.len(),
                    forall|j: int| 0 <= j < p ==> sorted@[j].start <= x.start,
                decreases sorted@.len() - p,
            {
                p = p + 1;
            }
            proof {
                lemma_insert_pos_is(sorted@, x.start, p as int);
                let t = self.intervals@.take(i + 1);
                assert(t.drop_last() =~= self.intervals@.take(i as int));
                assert(t.last() == x);
            }
            sorted.insert(p, x);
            i = i + 1;
        }
        proof {
            assert(self.intervals@.take(i as int) =~= self.intervals@);
        }
        self.intervals = sorted;
    }

    /// Assigns a location to every interval that is not fixed: the intervals
    /// are sorted by start position, each unfixed interval is given the first
    /// free register or, when there is none, the next spill slot, and the
    /// location planned last for each value goes to the value's first interval.
    pub fn allocate(&mut self)
        requires
            Self::first_free_register(old(self).available(), old(self).allocated()) is None
                ==> old(self).spill_count() + unfixed_count(sort_by_start(old(self).intervals()))
                <= u32::MAX,
        ensures
            ({
                let sorted = sort_by_start(old(self).intervals());
                let reg = Self::first_free_register(old(self).available(), old(self).allocated());
                &&& final(self).intervals() == apply_locations(
                    sorted,
                    planned_locations(sorted, reg, old(self).spill_count()),
                )
                &&& final(self).spill_count() == old(self).spill_count() + if reg is None {
                    unfixed_count(sorted)
                } else {
                    0
                }
            }),
            final(self).available() == old(self).available(),
            final(self).allocated() == old(self).allocated(),
    {
        broadcast use vstd::std_specs::hash::group_hash_axioms;

        let ghost reg0 = Self::first_free_register(self.available(), self.allocated());
        let ghost first_slot = self.spill_count();
        self.sort_intervals_by_start();
        let ghost sorted = self.intervals@;
        let mut new_locations: std::collections::HashMap<u32, ValueLoc> =
            std::collections::HashMap::new();
        let mut k: usize = 0;
        proof {
            assert(sorted.take(0) =~= Seq::<LiveInterval>::empty());
        }
        while k < self.intervals.len()
            invariant
                k <= self.intervals@.len(),
                self.intervals@ == sorted,
                reg0 == Self::first_free_register(self.available(), self.allocated()),
                new_locations@ == planned_locations(sorted.take(k as int), reg0, first_slot),
                self.spill_count() == first_slot + if reg0 is None {
                    unfixed_count(sorted.take(k as int))
                } else {
                    0
                },
                reg0 is None ==> first_slot + unfixed_count(sorted) <= u32::MAX,
                self.available() == old(self).available(),
                self.allocated() == old(self).allocated(),
            decreases self.intervals@.len() - k,
        {
            let value_id = self.intervals[k].value_id;
            let is_fixed = self.intervals[k].is_fixed;
            let ghost t = sorted.take(k + 1);
            proof {
                assert(t.drop_last() =~= sorted.take(k as int));
                assert(t.last() == sorted[k as int]);
                lemma_unfixed_count_prefix(sorted, k as int + 1);
            }
            if !is_fixed {
                if let Some(reg) = self.allocate_register() {
                    new_locations.insert(value_id, ValueLoc::Register(reg));
                } else {
                    let spill_slot = self.allocate_spill_slot();
                    new_locations.insert(value_id, ValueLoc::SpillSlot(spill_slot));
                    proof {
                        assert(t.take(k as int) =~= sorted.take(k as int));
                    }
                }
            }
            k = k + 1;
        }
        proof {
            assert(sorted.take(k as int) =~= sorted);
        }
        let ghost plan = new_locations@;
        let mut i: usize = 0;
        while i < self.intervals.len()
            invariant
                i <= self.intervals@.len(),
                self.intervals@.len() == sorted.len(),
                plan == new_locations@,
                plan == planned_locations(sorted, reg0, first_slot),
                forall|j: int|
                    0 <= j < sorted.len() ==> #[trigger] self.intervals@[j] == if j < i {
                        apply_locations(sorted, plan)[j]
                    } else {
                        sorted[j]
                    },
                self.available() == old(self).available(),
                self.allocated() == old(self).allocated(),
                self.spill_count() == first_slot + if reg0 is None {
                    unfixed_count(sorted)
                } else {
                    0
                },
            decreases self.intervals@.len() - i,
        {
            let value_id = self.intervals[i].value_id;
            let mut first = true;
            let mut j: usize = 0;
            while j < i
                invariant
                    j <= i < self.intervals@.len(),
                    self.intervals@.len() == sorted.len(),
                    forall|m: int|
                        0 <= m < sorted.len() ==> #[trigger] self.intervals@[m].value_id
                            == sorted[m].value_id,
                    value_id == sorted[i as int].value_id,
                    first == forall|m: int| 0 <= m < j ==> sorted[m].value_id != value_id,
                decreases i - j,
            {
                if self.intervals[j].value_id == value_id {
                    first = false;
                }
                j = j + 1;
            }
            if first {
                match new_locations.get(&value_id) {
                    Some(loc) => {
                        let mut iv = self.intervals[i];
                        iv.loc = *loc;
                        self.intervals.set(i, iv);
                    },
                    None => {},
                }
            }
            proof {
                assert(first == first_with_id(sorted, value_id, i as int));
            }
            i = i + 1;
        }
        proof {
            assert(self.intervals@ =~= apply_locations(sorted, plan));
        }
    }

    /// Returns the location of the first interval of a value.
    pub fn get_location(&self, value_id: u32) -> (r: Option<ValueLoc>)
        ensures
            match r {
                Some(loc) => exists|i: int|
                    first_with_id(self.intervals(), value_id, i) && loc == self.intervals()[i].loc,
                None => has_no_id(self.intervals(), value_id),
            },
    {
        match self.get_interval(value_id) {
            Some(iv) => Some(iv.loc),
            None => None,
        }
    }

    /// Returns the stack offset of a spill slot: eight bytes per slot,
    /// downwards from the stack pointer.
    pub fn spill_slot_offset(slot: u32) -> (off: i32)
        requires
            spill_offset_ok(slot),
        ensures
            off == spill_offset(slot),
    {
        -(8 * (slot as i32 + 1))
    }

    /// Emits code that stores `rax` into a spill slot.
    pub fn emit_spill(&self, emitter: &mut Emitter, _value_id: u32, slot: u32)
        requires
            spill_offset_ok(slot),
        ensures
            final(emitter)@ == old(emitter)@ + mov_mr_bytes(rsp_address(spill_offset(slot)), Reg::Rax),
    {
        let offset = Self::spill_slot_offset(slot);
        let addr = Address::new(Reg::Rsp).with_displacement(offset);
        emitter.emit_mov_mr(&addr, Reg::Rax);
    }

    /// Emits code that loads `rax` from a spill slot.
    pub fn emit_reload(&self, emitter: &mut Emitter, _value_id: u32, slot: u32)
        requires
            spill_offset_ok(slot),
        ensures
            final(emitter)@ == old(emitter)@ + mov_rm_bytes(Reg::Rax, rsp_address(spill_offset(slot))),
    {
        let offset = Self::spill_slot_offset(slot);
        let addr = Address::new(Reg::Rsp).with_displacement(offset);
        emitter.emit_mov_rm(Reg::Rax, &addr);
    }
}

impl Default for LinearScanAllocator {
    fn default() -> (a: Self)
        ensures
            a.available() == Self::default_registers(),
            a.allocated() == Seq::<Reg>::empty(),
            a.spill_count() == 0,
            a.intervals() == Seq::<LiveInterval>::empty(),
    {
        Self::new()
    }
}

/// The count of unfixed intervals of a prefix grows by one exactly with each
/// unfixed interval.
proof fn lemma_unfixed_count_prefix(s: Seq<LiveInterval>, k: int)
    requires
        0 < k <= s.len(),
    ensures
        unfixed_count(s.take(k)) == unfixed_count(s.take(k - 1)) + if s[k - 1].is_fixed {
            0nat
        } else {
            1nat
        },
        unfixed_count(s.take(k)) <= unfixed_count(s),
    decreases s.len() - k,
{
    assert(s.take(k).drop_last() =~= s.take(k - 1));
    if k < s.len() {
        lemma_unfixed_count_prefix(s, k + 1);
    } else {
        assert(s.take(k) =~= s);
    }
}

/// `insert_pos` is the number of leading intervals that start at or before
/// the key.
proof fn lemma_insert_pos_props(s: Seq<LiveInterval>, key: u32)
    ensures
        0 <= insert_pos(s, key) <= s.len(),
        forall|j: int| 0 <= j < insert_pos(s, key) ==> s[j].start <= key,
        insert_pos(s, key) < s.len() ==> s[insert_pos(s, key)].start > key,
    decreases s.len(),
{
    if s.len() > 0 && s[0].start <= key {
        lemma_insert_pos_props(s.drop_first(), key);
        assert forall|j: int| 0 <= j < insert_pos(s, key) implies s[j].start <= key by {
            if j > 0 {
                assert(s[j] == s.drop_first()[j - 1]);
            }
        }
    }
}

/// A position before which every interval starts at or before the key, and
/// at which an interval starts after it, is `insert_pos`.
proof fn lemma_insert_pos_is(s: Seq<LiveInterval>, key: u32, p: int)
    requires
        0 <= p <= s.len(),
        forall|j: int| 0 <= j < p ==> s[j].start <= key,
        p < s.len() ==> s[p].start > key,
    ensures
        insert_pos(s, key) == p,
    decreases p,
{
    if p > 0 {
        lemma_insert_pos_is(s.drop_first(), key, p - 1);
    }
}

/// Sorting puts the intervals in ascending order of start position.
pub proof fn lemma_sort_by_start_sorted(s: Seq<LiveInterval>)
    ensures
        sorted_by_start(sort_by_start(s)),
        sort_by_start(s).len() == s.len(),
    decreases s.len(),
{
    if s.len() > 0 {
        let r = sort_by_start(s.drop_last());
        lemma_sort_by_start_sorted(s.drop_last());
        let x = s.last();
        let p = insert_pos(r, x.start);
        lemma_insert_pos_props(r, x.start);
        let t = r.insert(p, x);
        assert forall|i: int, j: int| 0 <= i <= j < t.len() implies t[i].start <= t[j].start by {
            if i < p && j < p {
            } else if i < p && j == p {
            } else if i < p {
                assert(t[j] == r[j - 1]);
            } else if i == p && j == p {
            } else if i == p {
                assert(t[j] == r[j - 1]);
                assert(r[p].start <= r[j - 1].start);
            } else {
                assert(t[i] == r[i - 1]);
                assert(t[j] == r[j - 1]);
            }
        }
    }
}

/// Sorting keeps exactly the intervals it was given.
pub proof fn lemma_sort_by_start_permutation(s: Seq<LiveInterval>)
    ensures
        sort_by_start(s).to_multiset() == s.to_multiset(),
    decreases s.len(),
{
    if s.len() > 0 {
        let r = sort_by_start(s.drop_last());
        lemma_sort_by_start_permutation(s.drop_last());
        lemma_insert_pos_props(r, s.last().start);
        to_multiset_insert(r, insert_pos(r, s.last().start), s.last());
        to_multiset_build(s.drop_last(), s.last());
        assert(s.drop_last().push(s.last()) =~= s);
    }
}

} // verus!
