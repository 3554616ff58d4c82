//! Bookkeeping of shared memory regions.
//!
//! A region is identified by a `SharedRegionId`, has a length that is a
//! whole number of pages, and counts the guest memories it is attached to.
//! A region can only be destroyed once nothing is attached to it. Host-side
//! reads and writes must stay inside the region.

use super::error::WasmError;
use super::metering::PAGE_SIZE_BYTES;
use crate::text::{decimal_chars, push_decimal};
use vstd::prelude::*;
use vstd::string::StringExecFns;

verus! {

#[derive(Debug, Clone, Copy, PartialEq, Eq, Hash, Structural)]
/// Shared region id.
pub struct SharedRegionId(u64);

impl SharedRegionId {
    /// The number behind the identifier.
    pub closed spec fn raw_value(self) -> u64 {
        self.0
    }

    /// The identifier with the given number.
    pub fn from_raw(raw: u64) -> (id: Self)
        ensures
            id.raw_value() == raw,
    {
        SharedRegionId(raw)
    }

    /// The number behind the identifier.
    pub fn raw(self) -> (r: u64)
        ensures
            r == self.raw_value(),
    {
        self.0
    }
}

/// Identifiers are determined by their numbers, and give them back.
pub proof fn lemma_region_id_roundtrip(a: SharedRegionId, b: SharedRegionId)
    ensures
        a.raw_value() == b.raw_value() <==> a == b,
{
}

/// The length of a region of `size` bytes: rounded up to whole pages.
pub open spec fn region_bytes(size: nat) -> nat {
    (((size + PAGE_SIZE_BYTES - 1) / (PAGE_SIZE_BYTES as int)) * PAGE_SIZE_BYTES) as nat
}

/// Returns the length of a new region of `size` bytes, rounded up to whole
/// pages; an empty region is refused. The rounded length must fit in `u32`.
pub fn region_size(size: u32) -> (r: Result<u32, WasmError>)
    requires
        size <= 0xFFFF_0000,
    ensures
        size == 0 ==> (r matches Err(WasmError::Runtime(m)) && m@
            == "shared region size must be greater than zero"@),
        size > 0 ==> r == Ok::<u32, WasmError>(region_bytes(size as nat) as u32),
{
    if size == 0 {
        proof {
            reveal_strlit("shared region size must be greater than zero");
        }
        return Err(
            WasmError::Runtime(String::from_str("shared region size must be greater than zero")),
        );
    }
    let pages: u32 = size / PAGE_SIZE_BYTES + if size % PAGE_SIZE_BYTES == 0 {
        0
    } else {
        1
    };
    proof {
        assert(pages == (size + PAGE_SIZE_BYTES - 1) / (PAGE_SIZE_BYTES as int)) by (nonlinear_arith)
            requires
                pages == size / 65536 + if size % 65536 == 0 {
                    0int
                } else {
                    1int
                },
                PAGE_SIZE_BYTES == 65536,
        ;
        assert(pages <= 65535) by (nonlinear_arith)
            requires
                pages == size / 65536 + if size % 65536 == 0 {
                    0int
                } else {
                    1int
                },
                size <= 0xFFFF_0000,
        ;
    }
    Ok(pages * PAGE_SIZE_BYTES)
}

#[derive(Debug, Clone, Copy, PartialEq, Eq, Structural)]
/// What the registry records of a region.
pub struct RegionRecord {
    /// Length in bytes.
    pub len: usize,
    /// Number of guest memories the region is attached to.
    pub attachments: usize,
}

/// A record with one more attachment.
pub open spec fn attached_record(rec: RegionRecord) -> RegionRecord {
    RegionRecord { attachments: (rec.attachments + 1) as usize, ..rec }
}

/// A record with one attachment less; the counter wraps below zero.
pub open spec fn detached_record(rec: RegionRecord) -> RegionRecord {
    RegionRecord {
        attachments: if rec.attachments == 0 {
            usize::MAX
        } else {
            (rec.attachments - 1) as usize
        },
        ..rec
    }
}

/// The message for a region that is not in the table.
pub open spec fn not_found_text(id: u64) -> Seq<char> {
    "shared region "@ + decimal_chars(id as nat) + " not found"@
}

/// The message for a region that cannot be destroyed while attached.
pub open spec fn still_attached_text(id: u64, attachments: usize) -> Seq<char> {
    "shared region "@ + decimal_chars(id as nat) + " still has "@ + decimal_chars(
        attachments as nat,
    ) + " attached mappings"@
}

/// The bookkeeping of shared regions: the identifier the next region gets,
/// and a record per live region.
pub struct SharedRegionTable {
    next_region_id: u64,
    regions: std::collections::HashMap<u64, RegionRecord>,
}

impl SharedRegionTable {
    /// The records of the live regions, by identifier number.
    pub closed spec fn records(&self) -> Map<u64, RegionRecord> {
        self.regions@
    }

    /// The identifier number the next region gets.
    pub closed spec fn next_id(&self) -> u64 {
        self.next_region_id
    }

    /// An empty table whose first region gets identifier 1.
    pub fn new() -> (t: Self)
        ensures
            t.records() == Map::<u64, RegionRecord>::empty(),
            t.next_id() == 1,
    {
        SharedRegionTable { next_region_id: 1, regions: std::collections::HashMap::new() }
    }

    /// Records a new region of `len` bytes, attached to `attachments` guest
    /// memories, under a fresh identifier.
    pub fn register(&mut self, len: usize, attachments: usize) -> (id: SharedRegionId)
        requires
            old(self).next_id() < u64::MAX,
        ensures
            id.raw_value() == old(self).next_id(),
            final(self).next_id() == old(self).next_id() + 1,
            final(self).records() == old(self).records().insert(
                id.raw_value(),
                RegionRecord { len, attachments },
            ),
    {
        broadcast use vstd::std_specs::hash::group_hash_axioms;

        let id = self.next_region_id;
        self.next_region_id = self.next_region_id + 1;
        self.regions.insert(id, RegionRecord { len, attachments });
        SharedRegionId(id)
    }

    /// Looks up a region.
    pub fn lookup(&self, id: SharedRegionId) -> (r: Result<RegionRecord, WasmError>)
        ensures
            self.records().contains_key(id.raw_value()) ==> r == Ok::<RegionRecord, WasmError>(
                self.records()[id.raw_value()],
            ),
            !self.records().contains_key(id.raw_value()) ==> (r matches Err(WasmError::Runtime(m))
                && m@ == not_found_text(id.raw_value())),
    {
        broadcast use vstd::std_specs::hash::group_hash_axioms;

        match self.regions.get(&id.0) {
            Some(rec) => Ok(*rec),
            None => {
                let mut s = String::from_str("shared region ");
                push_decimal(&mut s, id.0);
                s.append(" not found");
                proof {
                    reveal_strlit("shared region ");
                    reveal_strlit(" not found");
                }
                Err(WasmError::Runtime(s))
            },
        }
    }

    /// Returns the length of a region in bytes, as `u32`.
    pub fn region_len(&self, id: SharedRegionId) -> (r: Result<u32, WasmError>)
        ensures
            self.records().contains_key(id.raw_value()) ==> r == Ok::<u32, WasmError>(
                self.records()[id.raw_value()].len as u32,
            ),
            !self.records().contains_key(id.raw_value()) ==> (r matches Err(WasmError::Runtime(m))
                && m@ == not_found_text(id.raw_value())),
    {
        match self.lookup(id) {
            Ok(rec) => Ok(rec.len as u32),
            Err(e) => Err(e),
        }
    }

    /// Removes a region that nothing is attached to; a region still attached
    /// is refused and kept.
    pub fn destroy_region(&mut self, id: SharedRegionId) -> (r: Result<(), WasmError>)
        ensures
            !old(self).records().contains_key(id.raw_value()) ==> (r matches Err(
                WasmError::Runtime(m),
            ) && m@ == not_found_text(id.raw_value())) && final(self).records() == old(
            self).records(),
            old(self).records().contains_key(id.raw_value()) && old(self).records()[id.raw_value()].attachments
                != 0 ==> (r matches Err(WasmError::Runtime(m)) && m@ == still_attached_text(
                id.raw_value(),
                old(self).records()[id.raw_value()].attachments,
            )) && final(self).records() == old(self).records(),
            old(self).records().contains_key(id.raw_value()) && old(self).records()[id.raw_value()].attachments
                == 0 ==> r is Ok && final(self).records() == old(self).records().remove(
                id.raw_value(),
            ),
            final(self).next_id() == old(self).next_id(),
    {
        broadcast use vstd::std_specs::hash::group_hash_axioms;

        let rec = match self.lookup(id) {
            Ok(rec) => rec,
            Err(e) => {
                return Err(e);
            },
        };
        if rec.attachments != 0 {
            let mut s = String::from_str("shared region ");
            push_decimal(&mut s, id.0);
            s.append(" still has ");
            push_decimal(&mut s, rec.attachments as u64);
            s.append(" attached mappings");
            proof {
                reveal_strlit("shared region ");
                reveal_strlit(" still has ");
                reveal_strlit(" attached mappings");
            }
            return Err(WasmError::Runtime(s));
        }
        self.regions.remove(&id.0);
        Ok(())
    }

    /// Counts one more attachment of a region.
    pub fn attach(&mut self, id: SharedRegionId) -> (r: Result<(), WasmError>)
        requires
            old(self).records().contains_key(id.raw_value()) ==> old(
                self,
            ).records()[id.raw_value()].attachments < usize::MAX,
        ensures
            !old(self).records().contains_key(id.raw_value()) ==> (r matches Err(
                WasmError::Runtime(m),
            ) && m@ == not_found_text(id.raw_value())) && final(self).records() == old(
            self).records(),
            old(self).records().contains_key(id.raw_value()) ==> r is Ok && final(self).records()
                == old(self).records().insert(
                id.raw_value(),
                attached_record(old(self).records()[id.raw_value()]),
            ),
            final(self).next_id() == old(self).next_id(),
    {
        broadcast use vstd::std_specs::hash::group_hash_axioms;

        let rec = match self.lookup(id) {
            Ok(rec) => rec,
            Err(e) => {
                return Err(e);
            },
        };
        self.regions.insert(id.0, RegionRecord { attachments: rec.attachments + 1, ..rec });
        Ok(())
    }

    /// Counts one attachment of a region less (wrapping as the counter does).
    pub fn detach(&mut self, id: SharedRegionId) -> (r: Result<(), WasmError>)
        ensures
            !old(self).records().contains_key(id.raw_value()) ==> (r matches Err(
                WasmError::Runtime(m),
            ) && m@ == not_found_text(id.raw_value())) && final(self).records() == old(
            self).records(),
            old(self).records().contains_key(id.raw_value()) ==> r is Ok && final(self).records()
                == old(self).records().insert(
                id.raw_value(),
                detached_record(old(self).records()[id.raw_value()]),
            ),
            final(self).next_id() == old(self).next_id(),
    {
        broadcast use vstd::std_specs::hash::group_hash_axioms;

        let rec = match self.lookup(id) {
            Ok(rec) => rec,
            Err(e) => {
                return Err(e);
            },
        };
        let attachments = if rec.attachments == 0 {
            usize::MAX
        } else {
            rec.attachments - 1
        };
        self.regions.insert(id.0, RegionRecord { attachments, ..rec });
        Ok(())
    }

    /// Checks that a host-side access of `len` bytes at `offset` stays inside
    /// the region.
    pub fn check_access(&self, id: SharedRegionId, offset: usize, len: usize, write: bool) -> (r:
        Result<(), WasmError>)
        requires
            offset + len <= usize::MAX,
        ensures
            !self.records().contains_key(id.raw_value()) ==> (r matches Err(WasmError::Runtime(m))
                && m@ == not_found_text(id.raw_value())),
            self.records().contains_key(id.raw_value()) && offset + len <= self.records()[id.raw_value()].len
                ==> r is Ok,
            self.records().contains_key(id.raw_value()) && offset + len > self.records()[id.raw_value()].len
                ==> (r matches Err(WasmError::Runtime(m)) && m@ == if write {
                "shared region write out of bounds"@
            } else {
                "shared region read out of bounds"@
            }),
    {
        let rec = match self.lookup(id) {
            Ok(rec) => rec,
            Err(e) => {
                return Err(e);
            },
        };
        if offset + len > rec.len {
            proof {
                reveal_strlit("shared region write out of bounds");
                reveal_strlit("shared region read out of bounds");
            }
            if write {
                return Err(
                    WasmError::Runtime(String::from_str("shared region write out of bounds")),
                );
            } else {
                return Err(WasmError::Runtime(String::from_str("shared region read out of bounds")));
            }
        }
        Ok(())
    }
}

impl Default for SharedRegionTable {
    fn default() -> (t: Self)
        ensures
            t.records() == Map::<u64, RegionRecord>::empty(),
            t.next_id() == 1,
    {
        SharedRegionTable::new()
    }
}

/// Attaching then detaching a region leaves its record as it was.
pub proof fn lemma_attach_detach(rec: RegionRecord)
    requires
        rec.attachments < usize::MAX,
    ensures
        detached_record(attached_record(rec)) == rec,
{
}

} // verus!
