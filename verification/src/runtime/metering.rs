//! Resource accounting for a running instance: charged instructions against
//! an optional budget, and memory growth against an optional page limit.

use super::error::{Result, TrapCode, WasmError};
use vstd::prelude::*;
use vstd::string::StringExecFns;

verus! {

/// The size of a WebAssembly page in bytes.
pub const PAGE_SIZE_BYTES: u32 = 65536;

#[derive(Debug, Clone, Copy, Default, PartialEq, Eq, Structural)]
/// Resource usage statistics for a running instance.
pub struct InstanceStats {
    /// Number of instructions charged to the instance.
    pub executed_instructions: u64,
    /// Current memory size in WebAssembly pages.
    pub memory_pages: u32,
    /// Current memory size in bytes.
    pub memory_bytes: u64,
}

#[derive(Debug, Clone, Copy, Default, PartialEq, Eq, Structural)]
/// Configurable resource limits for a running instance.
pub struct InstanceLimits {
    /// Maximum charged instructions allowed before trapping.
    pub max_execution_instructions: Option<u64>,
    /// Maximum linear-memory size allowed in pages.
    pub max_memory_pages: Option<u32>,
}

impl InstanceLimits {
    /// Creates limits from an instruction budget and a page limit.
    pub fn new(max_execution_instructions: Option<u64>, max_memory_pages: Option<u32>) -> (l: Self)
        ensures
            l.max_execution_instructions == max_execution_instructions,
            l.max_memory_pages == max_memory_pages,
    {
        Self { max_execution_instructions, max_memory_pages }
    }
}

/// Whether a page count is within a page limit.
pub open spec fn pages_within(limits: InstanceLimits, pages: u32) -> bool {
    match limits.max_memory_pages {
        Some(max) => pages <= max,
        None => true,
    }
}

/// Whether an instruction count is within a budget.
pub open spec fn count_within(limits: InstanceLimits, count: u64) -> bool {
    match limits.max_execution_instructions {
        Some(max) => count <= max,
        None => true,
    }
}

/// The instruction count and limits of an instance.
pub struct InstanceMeter {
    executed_instructions: u64,
    limits: InstanceLimits,
}

impl InstanceMeter {
    /// The number of instructions charged so far.
    pub closed spec fn count(&self) -> u64 {
        self.executed_instructions
    }

    /// The limits in force.
    pub closed spec fn current_limits(&self) -> InstanceLimits {
        self.limits
    }

    /// Creates a meter with nothing charged and no limits.
    pub fn new() -> (m: Self)
        ensures
            m.count() == 0,
            m.current_limits() == (InstanceLimits { max_execution_instructions: None, max_memory_pages: None }),
    {
        Self {
            executed_instructions: 0,
            limits: InstanceLimits { max_execution_instructions: None, max_memory_pages: None },
        }
    }

    /// Returns the usage statistics, for a memory of `memory_pages` pages.
    pub fn snapshot(&self, memory_pages: u32) -> (s: InstanceStats)
        ensures
            s.executed_instructions == self.count(),
            s.memory_pages == memory_pages,
            s.memory_bytes == memory_pages as u64 * PAGE_SIZE_BYTES as u64,
    {
        proof {
            assert((memory_pages as u64) * 65536 <= 0xFFFF_FFFFu64 * 65536) by (nonlinear_arith)
                requires
                    memory_pages <= 0xFFFF_FFFFu32,
            ;
        }
        InstanceStats {
            executed_instructions: self.executed_instructions,
            memory_pages,
            memory_bytes: memory_pages as u64 * PAGE_SIZE_BYTES as u64,
        }
    }

    /// Returns the limits in force.
    pub fn limits(&self) -> (l: InstanceLimits)
        ensures
            l == self.current_limits(),
    {
        self.limits
    }

    /// Puts new limits in force, unless the memory or the instructions used
    /// so far already exceed them; then nothing changes.
    pub fn set_limits(&mut self, limits: InstanceLimits, current_memory_pages: u32) -> (r: Result<()>)
        ensures
            final(self).count() == old(self).count(),
            !pages_within(limits, current_memory_pages) ==> (r matches Err(WasmError::Runtime(m))
                && m@ == "current memory usage exceeds configured memory limit"@),
            pages_within(limits, current_memory_pages) && !count_within(limits, old(self).count())
                ==> (r matches Err(WasmError::Runtime(m)) && m@ == "current execution usage exceeds configured instruction limit"@),
            !(pages_within(limits, current_memory_pages) && count_within(limits, old(self).count()))
                ==> final(self).current_limits() == old(self).current_limits(),
            pages_within(limits, current_memory_pages) && count_within(limits, old(self).count()) ==> r is Ok
                && final(self).current_limits() == limits,
    {
        if let Some(max_memory_pages) = limits.max_memory_pages {
            if current_memory_pages > max_memory_pages {
                return Err(WasmError::Runtime(String::from_str("current memory usage exceeds configured memory limit")));
            }
        }
        if let Some(max_execution_instructions) = limits.max_execution_instructions {
            if self.executed_instructions > max_execution_instructions {
                return Err(
                    WasmError::Runtime(String::from_str("current execution usage exceeds configured instruction limit")),
                );
            }
        }
        self.limits = limits;
        Ok(())
    }

    /// Charges instructions. The count saturates at `u64::MAX`; a charge that
    /// takes the count past the budget, or past `u64::MAX` under a budget,
    /// traps, and one past `u64::MAX` with no budget is an error.
    pub fn charge_execution(&mut self, units: u64) -> (r: Result<()>)
        ensures
            final(self).current_limits() == old(self).current_limits(),
            old(self).count() + units <= u64::MAX ==> final(self).count() == old(self).count() + units,
            old(self).count() + units > u64::MAX ==> final(self).count() == u64::MAX,
            final(self).count() >= old(self).count(),
            units == 0 ==> r is Ok,
            units > 0 && old(self).count() + units > u64::MAX ==> if old(self).current_limits().max_execution_instructions is Some {
                r == Err::<(), WasmError>(WasmError::Trap(TrapCode::ExecutionBudgetExceeded))
            } else {
                (r matches Err(WasmError::Runtime(m)) && m@ == "execution instruction count overflowed"@)
            },
            units > 0 && old(self).count() + units <= u64::MAX ==> if count_within(old(self).current_limits(), (old(self).count() + units) as u64) {
                r is Ok
            } else {
                r == Err::<(), WasmError>(WasmError::Trap(TrapCode::ExecutionBudgetExceeded))
            },
    {
        if units == 0 {
            return Ok(());
        }
        let next = match self.executed_instructions.checked_add(units) {
            Some(n) => n,
            None => {
                self.executed_instructions = u64::MAX;
                if self.limits.max_execution_instructions.is_some() {
                    return Err(WasmError::Trap(TrapCode::ExecutionBudgetExceeded));
                }
                return Err(WasmError::Runtime(String::from_str("execution instruction count overflowed")));
            },
        };
        self.executed_instructions = next;
        if let Some(max_execution_instructions) = self.limits.max_execution_instructions {
            if next > max_execution_instructions {
                return Err(WasmError::Trap(TrapCode::ExecutionBudgetExceeded));
            }
        }
        Ok(())
    }

    /// Checks that a memory may grow to `new_total_pages` pages.
    pub fn ensure_memory_pages(&self, new_total_pages: u32) -> (r: Result<()>)
        ensures
            pages_within(self.current_limits(), new_total_pages) ==> r is Ok,
            !pages_within(self.current_limits(), new_total_pages) ==> r == Err::<(), WasmError>(
                WasmError::Trap(TrapCode::MemoryLimitExceeded),
            ),
    {
        if let Some(max_memory_pages) = self.limits.max_memory_pages {
            if new_total_pages > max_memory_pages {
                return Err(WasmError::Trap(TrapCode::MemoryLimitExceeded));
            }
        }
        Ok(())
    }
}

impl Default for InstanceMeter {
    fn default() -> (m: Self)
        ensures
            m.count() == 0,
            m.current_limits() == (InstanceLimits { max_execution_instructions: None, max_memory_pages: None }),
    {
        Self::new()
    }
}

/// Once limits are in force, the instructions charged stay within the budget
/// for as long as charges succeed: a charge that would leave the count above
/// the budget fails.
pub proof fn lemma_successful_charge_within_budget(limits: InstanceLimits, count: u64, units: u64)
    requires
        count + units <= u64::MAX,
        units > 0,
        !count_within(limits, (count + units) as u64),
    ensures
        limits.max_execution_instructions is Some,
        (count + units) > limits.max_execution_instructions->0,
{
}

} // verus!
