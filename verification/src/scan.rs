//! The address-space scanner: finds every 8-byte-aligned occurrence of a
//! word in a snapshot of the committed, accessible regions of an address
//! space.
//!
//! The scanner works on snapshots — each included region's bytes, copied by
//! the caller in one enumerator pass — so its results are a best-effort view
//! of scan time, exactly as the live scan over a running process is.

use vstd::prelude::*;

use crate::bytes;
use crate::region;
use crate::region::MemoryRegion;

verus! {

/// One region together with the bytes it held when the snapshot was taken.
pub struct RegionSnapshot {
    pub region: MemoryRegion,
    pub contents: Vec<u8>,
}

/// A snapshot is well formed when it holds exactly the region's bytes and
/// the region fits in the address space.
pub open spec fn spec_snapshot_wf(snap: RegionSnapshot) -> bool {
    &&& snap.contents@.len() == snap.region.size
    &&& snap.region.base_address + snap.region.size <= usize::MAX
}

/// The scanner reports `addr` for this snapshot exactly when the region
/// passes the protection filter, `addr` is 8-byte aligned, the whole word
/// lies inside the region, and the word's little-endian bytes there equal
/// the target's.
pub open spec fn addr_hit(snap: RegionSnapshot, target: u64, addr: int) -> bool {
    &&& region::spec_region_included(snap.region)
    &&& addr % 8 == 0
    &&& snap.region.base_address <= addr
    &&& addr + 8 <= snap.region.base_address + snap.region.size
    &&& snap.contents@.subrange(
        addr - snap.region.base_address,
        addr - snap.region.base_address + 8,
    ) == bytes::u64_le_bytes(target)
}

/// A region that fails the protection filter — not committed, no readable
/// protection, or carrying the guard bit — contributes no hit, whatever its
/// contents hold.
pub proof fn lemma_excluded_region_yields_nothing(snap: RegionSnapshot, target: u64, addr: int)
    requires
        !region::spec_region_included(snap.region),
    ensures
        !addr_hit(snap, target, addr),
{
}

/// Strictly ascending order over reported addresses.
pub open spec fn sorted_strict(s: Seq<usize>) -> bool {
    forall|i: int, j: int| 0 <= i < j < s.len() ==> s[i] < s[j]
}

/// Scans one region snapshot for `target`, reporting every hit in ascending
/// address order.
pub fn scan_region(snap: &RegionSnapshot, target: u64) -> (r: Vec<usize>)
    requires
        spec_snapshot_wf(*snap),
    ensures
        sorted_strict(r@),
        forall|i: int| 0 <= i < r@.len() ==> addr_hit(*snap, target, r@[i] as int),
        forall|a: int| addr_hit(*snap, target, a) ==> r@.contains(a as usize),
{
    let mut results: Vec<usize> = Vec::new();
    if !region::region_included(&snap.region) {
        return results;
    }
    let base = snap.region.base_address;
    let size = snap.region.size;
    if size < 8 {
        assert forall|a: int| addr_hit(*snap, target, a) implies results@.contains(a as usize) by {
            assert(a + 8 <= base + size);
            assert(base <= a);
        }
        return results;
    }
    let pat = bytes::u64_to_le_bytes(target);
    let rem = base % 8;
    let aligned0: usize = if rem == 0 {
        base
    } else {
        base + (8 - rem)
    };
    proof {
        assert(base == 8 * (base / 8) + rem) by (nonlinear_arith)
            requires
                rem == base % 8,
        ;
        if rem != 0 {
            assert(aligned0 == 8 * ((base / 8) + 1));
            assert(aligned0 % 8 == 0) by (nonlinear_arith)
                requires
                    aligned0 == 8 * ((base / 8) + 1),
            ;
        }
        assert(aligned0 % 8 == 0);
        assert(base <= aligned0 < base + 8);
    }
    let end = base + size;
    let last = end - 8;
    let mut a = aligned0;
    while a <= last
        invariant
            spec_snapshot_wf(*snap),
            region::spec_region_included(snap.region),
            base == snap.region.base_address,
            size == snap.region.size,
            size >= 8,
            end == base + size,
            last == end - 8,
            pat@ == bytes::u64_le_bytes(target),
            a % 8 == 0,
            aligned0 <= a,
            a <= last + 8,
            base <= aligned0 < base + 8,
            aligned0 % 8 == 0,
            sorted_strict(results@),
            forall|i: int| 0 <= i < results@.len() ==> addr_hit(*snap, target, results@[i] as int),
            forall|i: int| 0 <= i < results@.len() ==> results@[i] < a,
            forall|addr: int|
                addr_hit(*snap, target, addr) && addr < a ==> results@.contains(addr as usize),
        decreases last + 8 - a,
    {
        let off = a - base;
        assert(off + 8 <= snap.contents@.len());
        assert(pat@.len() == 8);
        let hit = bytes::bytes_eq_at(&snap.contents, off, &pat);
        let ghost pre = results@;
        if hit {
            results.push(a);
            assert(addr_hit(*snap, target, a as int));
        }
        proof {
            assert forall|addr: int|
                addr_hit(*snap, target, addr) && addr < a + 8 implies results@.contains(
                addr as usize,
            ) by {
                if addr < a {
                    assert(pre.contains(addr as usize));
                    let i = choose|i: int| 0 <= i < pre.len() && pre[i] == addr as usize;
                    assert(results@[i] == addr as usize);
                } else {
                    assert(addr % 8 == 0 && a % 8 == 0 && a <= addr < a + 8);
                    assert(addr == a) by (nonlinear_arith)
                        requires
                            addr % 8 == 0,
                            a % 8 == 0,
                            a <= addr < a + 8,
                    ;
                    assert(snap.contents@.subrange(off as int, off as int + 8)
                        == bytes::u64_le_bytes(target));
                    assert(hit);
                    assert(results@[results@.len() - 1] == a);
                }
            }
        }
        a = a + 8;
    }
    proof {
        assert forall|addr: int| addr_hit(*snap, target, addr) implies results@.contains(
            addr as usize,
        ) by {
            assert(base <= addr && addr + 8 <= end && addr % 8 == 0);
            if addr < aligned0 {
                assert(false) by (nonlinear_arith)
                    requires
                        addr % 8 == 0,
                        aligned0 % 8 == 0,
                        base <= addr,
                        addr < aligned0,
                        aligned0 < base + 8,
                ;
            }
            assert(addr < a);
        }
    }
    results
}

/// Some region among the first `bound` of the snapshot reports `addr`.
pub open spec fn hit_before(
    snaps: Seq<RegionSnapshot>,
    bound: int,
    target: u64,
    addr: int,
) -> bool {
    exists|j: int| 0 <= j < bound && addr_hit(snaps[j], target, addr)
}

/// The scanner reports `addr` for a whole snapshot when some region of the
/// snapshot reports it.
pub open spec fn snapshot_hit(snaps: Seq<RegionSnapshot>, target: u64, addr: int) -> bool {
    hit_before(snaps, snaps.len() as int, target, addr)
}

proof fn lemma_hit_before_widen(
    snaps: Seq<RegionSnapshot>,
    b1: int,
    b2: int,
    target: u64,
    addr: int,
)
    requires
        b1 <= b2,
        hit_before(snaps, b1, target, addr),
    ensures
        hit_before(snaps, b2, target, addr),
{
    let j = choose|j: int| 0 <= j < b1 && addr_hit(snaps[j], target, addr);
    assert(0 <= j < b2 && addr_hit(snaps[j], target, addr));
}

/// The enumerator hands regions out in ascending, non-overlapping order:
/// each region ends at or before the next one begins.
pub open spec fn regions_ordered(snaps: Seq<RegionSnapshot>) -> bool {
    forall|i: int, j: int|
        0 <= i < j < snaps.len() ==> snaps[i].region.base_address + snaps[i].region.size
            <= snaps[j].region.base_address
}

/// Scans a whole snapshot of the address space for `target`.
///
/// The result lists exactly the snapshot's hits, in strictly ascending
/// address order; the contract pins the result completely, so repeated scans
/// over an unchanged snapshot return the one ordered result.
pub fn scan_snapshot(snaps: &Vec<RegionSnapshot>, target: u64) -> (r: Vec<usize>)
    requires
        forall|i: int| 0 <= i < snaps@.len() ==> spec_snapshot_wf(#[trigger] snaps@[i]),
        regions_ordered(snaps@),
    ensures
        sorted_strict(r@),
        forall|i: int|
            0 <= i < r@.len() ==> #[trigger] snapshot_hit(snaps@, target, r@[i] as int),
        forall|a: int| snapshot_hit(snaps@, target, a) ==> r@.contains(a as usize),
{
    let mut results: Vec<usize> = Vec::new();
    let n = snaps.len();
    let mut k: usize = 0;
    while k < n
        invariant
            n == snaps@.len(),
            k <= n,
            forall|i: int| 0 <= i < snaps@.len() ==> spec_snapshot_wf(#[trigger] snaps@[i]),
            regions_ordered(snaps@),
            sorted_strict(results@),
            forall|i: int|
                0 <= i < results@.len() ==> #[trigger] hit_before(
                    snaps@,
                    k as int,
                    target,
                    results@[i] as int,
                ),
            forall|a: int, j: int|
                0 <= j < k && addr_hit(snaps@[j], target, a) ==> results@.contains(a as usize),
        decreases n - k,
    {
        let hits = scan_region(&snaps[k], target);
        proof {
            assert forall|i: int, x: int|
                0 <= i < results@.len() && 0 <= x < hits@.len() implies results@[i] < hits@[x] by {
                assert(hit_before(snaps@, k as int, target, results@[i] as int));
                let j = choose|j: int|
                    0 <= j < k && addr_hit(snaps@[j], target, results@[i] as int);
                assert(addr_hit(snaps@[j], target, results@[i] as int));
                assert(results@[i] + 8 <= snaps@[j].region.base_address + snaps@[j].region.size);
                assert(snaps@[j].region.base_address + snaps@[j].region.size
                    <= snaps@[k as int].region.base_address);
                assert(addr_hit(snaps@[k as int], target, hits@[x] as int));
                assert(snaps@[k as int].region.base_address <= hits@[x]);
            }
        }
        let ghost results_before = results@;
        let m = hits.len();
        let mut x: usize = 0;
        while x < m
            invariant
                n == snaps@.len(),
                k < n,
                m == hits@.len(),
                x <= m,
                forall|i: int| 0 <= i < snaps@.len() ==> spec_snapshot_wf(#[trigger] snaps@[i]),
                regions_ordered(snaps@),
                sorted_strict(hits@),
                forall|i: int|
                    0 <= i < hits@.len() ==> addr_hit(snaps@[k as int], target, #[trigger] hits@[i] as int),
                forall|a: int| addr_hit(snaps@[k as int], target, a) ==> hits@.contains(a as usize),
                results@ == results_before + hits@.subrange(0, x as int),
                forall|i: int|
                    0 <= i < results_before.len() ==> #[trigger] hit_before(
                        snaps@,
                        k as int,
                        target,
                        results_before[i] as int,
                    ),
                forall|i: int, y: int|
                    0 <= i < results_before.len() && 0 <= y < hits@.len()
                        ==> results_before[i] < hits@[y],
                sorted_strict(results_before),
                forall|a: int, j: int|
                    0 <= j < k && addr_hit(snaps@[j], target, a) ==> results_before.contains(
                        a as usize,
                    ),
            decreases m - x,
        {
            let v = hits[x];
            results.push(v);
            assert(results@ =~= results_before + hits@.subrange(0, x as int + 1));
            x = x + 1;
        }
        proof {
            assert(hits@.subrange(0, m as int) =~= hits@);
            assert(results@ == results_before + hits@);
            // ascending across the append boundary and inside each part
            assert forall|i: int, j2: int|
                0 <= i < j2 < results@.len() implies results@[i] < results@[j2] by {
                let lb = results_before.len() as int;
                if j2 < lb {
                    assert(results@[i] == results_before[i] && results@[j2] == results_before[j2]);
                } else if i >= lb {
                    assert(results@[i] == hits@[i - lb] && results@[j2] == hits@[j2 - lb]);
                } else {
                    assert(results@[i] == results_before[i] && results@[j2] == hits@[j2 - lb]);
                }
            }
            // every element now hits one of the first k + 1 regions
            assert forall|i: int|
                0 <= i < results@.len() implies #[trigger] hit_before(
                snaps@,
                k + 1,
                target,
                results@[i] as int,
            ) by {
                let lb = results_before.len() as int;
                if i < lb {
                    assert(hit_before(snaps@, k as int, target, results_before[i] as int));
                    lemma_hit_before_widen(
                        snaps@,
                        k as int,
                        k + 1,
                        target,
                        results_before[i] as int,
                    );
                    assert(results@[i] == results_before[i]);
                } else {
                    assert(results@[i] == hits@[i - lb]);
                    assert(addr_hit(snaps@[k as int], target, hits@[i - lb] as int));
                    assert(0 <= k < k + 1 && addr_hit(snaps@[k as int], target, results@[i] as int));
                }
            }
            // completeness for the first k + 1 regions
            assert forall|a: int, j: int|
                0 <= j < k + 1 && addr_hit(snaps@[j], target, a) implies results@.contains(
                a as usize,
            ) by {
                if j == k {
                    assert(hits@.contains(a as usize));
                    let i = choose|i: int| 0 <= i < hits@.len() && hits@[i] == a as usize;
                    assert(results@[results_before.len() + i] == a as usize);
                } else {
                    assert(results_before.contains(a as usize));
                    let i = choose|i: int|
                        0 <= i < results_before.len() && results_before[i] == a as usize;
                    assert(results@[i] == a as usize);
                }
            }
        }
        k = k + 1;
    }
    results
}

/// Two strictly ascending sequences with the same members are the same
/// sequence. Together with `scan_snapshot`'s contract this says repeated
/// scans over an unchanged snapshot return one and the same ordered result.
pub proof fn lemma_sorted_same_members_equal(r1: Seq<usize>, r2: Seq<usize>)
    requires
        sorted_strict(r1),
        sorted_strict(r2),
        forall|a: usize| r1.contains(a) <==> r2.contains(a),
    ensures
        r1 == r2,
    decreases r1.len(),
{
    if r1.len() == 0 {
        if r2.len() > 0 {
            assert(r2.contains(r2[0]));
            assert(r1.contains(r2[0]));
        }
        assert(r1 =~= r2);
    } else {
        assert(r1.contains(r1[0]));
        assert(r2.contains(r1[0]));
        if r2.len() == 0 {
            assert(false);
        }
        let i2 = choose|i: int| 0 <= i < r2.len() && r2[i] == r1[0];
        assert(r2[0] <= r2[i2]);
        assert(r2.contains(r2[0]));
        assert(r1.contains(r2[0]));
        let i1 = choose|i: int| 0 <= i < r1.len() && r1[i] == r2[0];
        assert(r1[0] <= r1[i1]);
        assert(r1[0] == r2[0]);
        let t1 = r1.subrange(1, r1.len() as int);
        let t2 = r2.subrange(1, r2.len() as int);
        assert forall|a: usize| t1.contains(a) <==> t2.contains(a) by {
            if t1.contains(a) {
                let i = choose|i: int| 0 <= i < t1.len() && t1[i] == a;
                assert(r1[i + 1] == a);
                assert(r1.contains(a));
                assert(r2.contains(a));
                let j = choose|j: int| 0 <= j < r2.len() && r2[j] == a;
                assert(a > r1[0]);
                assert(j != 0);
                assert(t2[j - 1] == a);
                assert(t2.contains(a));
            }
            if t2.contains(a) {
                let i = choose|i: int| 0 <= i < t2.len() && t2[i] == a;
                assert(r2[i + 1] == a);
                assert(r2.contains(a));
                assert(r1.contains(a));
                let j = choose|j: int| 0 <= j < r1.len() && r1[j] == a;
                assert(a > r2[0]);
                assert(j != 0);
                assert(t1[j - 1] == a);
                assert(t1.contains(a));
            }
        }
        lemma_sorted_same_members_equal(t1, t2);
        assert(r1.len() == r2.len());
        assert forall|i: int| 0 <= i < r1.len() implies r1[i] == r2[i] by {
            if i > 0 {
                assert(t1[i - 1] == r1[i]);
                assert(t2[i - 1] == r2[i]);
            }
        }
        assert(r1 =~= r2);
    }
}

} // verus!
