use hookscan::region::{
    enumerator_step, region_included, EnumeratorStep, MemoryRegion, MEM_COMMIT, PAGE_EXECUTE_READ,
    PAGE_GUARD,
};
use hookscan::scan::{scan_region, scan_snapshot, RegionSnapshot};

fn rw_region(base: usize, size: usize) -> MemoryRegion {
    MemoryRegion {
        base_address: base,
        size,
        protection_flags: hookscan::region::PAGE_READWRITE,
        commit_state: MEM_COMMIT,
    }
}

fn snapshot(region: MemoryRegion, contents: Vec<u8>) -> RegionSnapshot {
    assert_eq!(contents.len(), region.size);
    RegionSnapshot { region, contents }
}

#[test]
fn aligned_value_is_found() {
    let base = 0x10000usize;
    let target: u64 = 0xDEAD_BEEF_CAFE_F00D;
    let mut contents = vec![0u8; 0x1000];
    contents[0x18..0x20].copy_from_slice(&target.to_le_bytes());
    let snap = snapshot(rw_region(base, 0x1000), contents);
    let hits = scan_region(&snap, target);
    assert_eq!(hits, vec![base + 0x18]);
}

#[test]
fn misaligned_value_is_never_reported() {
    let base = 0x10000usize;
    let target: u64 = 0xDEAD_BEEF_CAFE_F00D;
    let mut contents = vec![0u8; 0x1000];
    contents[0x1B..0x23].copy_from_slice(&target.to_le_bytes());
    let snap = snapshot(rw_region(base, 0x1000), contents);
    let hits = scan_region(&snap, target);
    assert!(hits.is_empty());
}

#[test]
fn guard_bit_suppresses_all_hits() {
    let base = 0x20000usize;
    let target: u64 = 0x1111_2222_3333_4444;
    let mut contents = vec![0u8; 0x100];
    contents[0x08..0x10].copy_from_slice(&target.to_le_bytes());
    let mut region = rw_region(base, 0x100);
    region.protection_flags = hookscan::region::PAGE_READWRITE | PAGE_GUARD;
    let hits = scan_region(&snapshot(region, contents), target);
    assert!(hits.is_empty());
}

#[test]
fn uncommitted_region_contributes_nothing() {
    let base = 0x20000usize;
    let target: u64 = 0x1111_2222_3333_4444;
    let mut contents = vec![0u8; 0x100];
    contents[0x08..0x10].copy_from_slice(&target.to_le_bytes());
    let mut region = rw_region(base, 0x100);
    region.commit_state = 0;
    let hits = scan_region(&snapshot(region, contents), target);
    assert!(hits.is_empty());
}

#[test]
fn repeated_scans_return_identical_ascending_results() {
    let target: u64 = 0x0102_0304_0506_0708;
    let mut c1 = vec![0u8; 0x100];
    c1[0x00..0x08].copy_from_slice(&target.to_le_bytes());
    c1[0x40..0x48].copy_from_slice(&target.to_le_bytes());
    let mut c2 = vec![0u8; 0x80];
    c2[0x10..0x18].copy_from_slice(&target.to_le_bytes());
    let snaps = vec![
        snapshot(rw_region(0x1000, 0x100), c1),
        snapshot(rw_region(0x2000, 0x80), c2),
    ];
    let first = scan_snapshot(&snaps, target);
    let second = scan_snapshot(&snaps, target);
    assert_eq!(first, second);
    assert_eq!(first, vec![0x1000, 0x1040, 0x2010]);
    for w in first.windows(2) {
        assert!(w[0] < w[1]);
    }
}

#[test]
fn unaligned_region_start_is_rounded_up() {
    let base = 0x10003usize;
    let target: u64 = 0x5555_6666_7777_8888;
    // the first 8-byte-aligned address inside the region is 0x10008
    let mut contents = vec![0u8; 0x100];
    let off = 0x10008 - base;
    contents[off..off + 8].copy_from_slice(&target.to_le_bytes());
    let snap = snapshot(rw_region(base, 0x100), contents);
    let hits = scan_region(&snap, target);
    assert_eq!(hits, vec![0x10008]);
}

#[test]
fn region_too_small_for_a_word_is_skipped() {
    let snap = snapshot(rw_region(0x1000, 4), vec![0u8; 4]);
    assert!(scan_region(&snap, 0).is_empty());
}

#[test]
fn protection_filter_accepts_every_readable_class() {
    let mut r = rw_region(0x1000, 8);
    assert!(region_included(&r));
    r.protection_flags = PAGE_EXECUTE_READ;
    assert!(region_included(&r));
    r.protection_flags = 0x01; // no readable class
    assert!(!region_included(&r));
}

#[test]
fn enumerator_walks_and_stops() {
    let region = rw_region(0x1000, 0x2000);
    match enumerator_step(0x1000, 0x10000, Some(region)) {
        EnumeratorStep::Advance { next_address, region } => {
            assert_eq!(next_address, 0x3000);
            assert_eq!(region.base_address, 0x1000);
        }
        EnumeratorStep::Done => panic!("expected an advance"),
    }
    // a failed query ends the walk
    assert_eq!(enumerator_step(0x3000, 0x10000, None), EnumeratorStep::Done);
    // reaching the end of the application range ends the walk
    assert_eq!(enumerator_step(0x10000, 0x10000, Some(region)), EnumeratorStep::Done);
    // a region that cannot advance the cursor ends the walk
    let empty = rw_region(0x3000, 0);
    assert_eq!(enumerator_step(0x3000, 0x10000, Some(empty)), EnumeratorStep::Done);
}
