//! Memory regions as the virtual-memory enumerator reports them, the filter
//! deciding which regions the scanner may read, and the enumerator's own
//! advance/stop decision.

use vstd::prelude::*;

verus! {

/// Commit state of a region backed by physical storage.
pub const MEM_COMMIT: u32 = 0x1000;

/// Read-only page protection.
pub const PAGE_READONLY: u32 = 0x02;

/// Read-write page protection.
pub const PAGE_READWRITE: u32 = 0x04;

/// Copy-on-write page protection.
pub const PAGE_WRITECOPY: u32 = 0x08;

/// Execute + read page protection.
pub const PAGE_EXECUTE_READ: u32 = 0x20;

/// Execute + read + write page protection.
pub const PAGE_EXECUTE_READWRITE: u32 = 0x40;

/// Execute + copy-on-write page protection.
pub const PAGE_EXECUTE_WRITECOPY: u32 = 0x80;

/// Guard bit: the region traps on first access and must not be scanned.
pub const PAGE_GUARD: u32 = 0x100;

/// The protections under which a committed region is readable by the
/// scanner: every readable combination, with or without write or execute.
pub const SCANNABLE_PROTECTION_MASK: u32 = PAGE_READONLY | PAGE_READWRITE | PAGE_WRITECOPY
    | PAGE_EXECUTE_READ | PAGE_EXECUTE_READWRITE | PAGE_EXECUTE_WRITECOPY;

/// One region of the target's virtual address space, as one enumerator query
/// reports it. Produced fresh on every pass and never cached across scans.
#[derive(Clone, Copy, Debug, PartialEq, Eq, Structural)]
pub struct MemoryRegion {
    pub base_address: usize,
    pub size: usize,
    pub protection_flags: u32,
    pub commit_state: u32,
}

/// Whether the scanner reads a region at all: it must be committed, carry at
/// least one readable protection, and not carry the guard bit.
pub open spec fn spec_region_included(r: MemoryRegion) -> bool {
    &&& r.commit_state == MEM_COMMIT
    &&& r.protection_flags & SCANNABLE_PROTECTION_MASK != 0
    &&& r.protection_flags & PAGE_GUARD == 0
}

/// Decides whether a region passes the scanner's protection filter.
pub fn region_included(r: &MemoryRegion) -> (included: bool)
    ensures
        included == spec_region_included(*r),
{
    r.commit_state == MEM_COMMIT && (r.protection_flags & SCANNABLE_PROTECTION_MASK) != 0 && (
    r.protection_flags & PAGE_GUARD) == 0
}

/// What the region walk does after one query: move to the next region, or
/// stop at the end of the enumerable space.
#[derive(Clone, Copy, Debug, PartialEq, Eq, Structural)]
pub enum EnumeratorStep {
    /// Keep walking: the region just described, and the address right past it.
    Advance { next_address: usize, region: MemoryRegion },
    /// End of the walk: past the last application address, a failed query
    /// (treated as end-of-space, not as a fatal error), or a region whose
    /// reported extent cannot advance the cursor.
    Done,
}

/// The enumerator's decision given the cursor, the end of the application
/// address range, and the outcome of one region query (`None` when the query
/// failed outright).
pub open spec fn spec_enumerator_step(
    current: usize,
    end_address: usize,
    query: Option<MemoryRegion>,
) -> EnumeratorStep {
    if current >= end_address {
        EnumeratorStep::Done
    } else {
        match query {
            None => EnumeratorStep::Done,
            Some(region) => {
                if region.size == 0 || current + region.size > usize::MAX {
                    EnumeratorStep::Done
                } else {
                    EnumeratorStep::Advance {
                        next_address: (current + region.size) as usize,
                        region,
                    }
                }
            },
        }
    }
}

/// Advances the region walk by one query result.
pub fn enumerator_step(current: usize, end_address: usize, query: Option<MemoryRegion>) -> (r:
    EnumeratorStep)
    ensures
        r == spec_enumerator_step(current, end_address, query),
{
    if current >= end_address {
        return EnumeratorStep::Done;
    }
    match query {
        None => EnumeratorStep::Done,
        Some(region) => {
            if region.size == 0 || region.size > usize::MAX - current {
                EnumeratorStep::Done
            } else {
                EnumeratorStep::Advance { next_address: current + region.size, region }
            }
        },
    }
}

/// Every `Advance` step moves the cursor strictly forward, so a walk over a
/// finite address range terminates.
pub proof fn lemma_enumerator_advances(
    current: usize,
    end_address: usize,
    query: Option<MemoryRegion>,
)
    ensures
        spec_enumerator_step(current, end_address, query) matches EnumeratorStep::Advance {
            next_address,
            region,
        } ==> next_address > current,
{
}

} // verus!
