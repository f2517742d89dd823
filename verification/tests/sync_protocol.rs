use hookscan::sync::{
    apply_incoming, collect_changed, decode_assignments, note_current, parse_line_pairs,
    TrackedVariable,
};

fn pairs_of(data: &[u8]) -> Vec<(Vec<u8>, Vec<u8>)> {
    parse_line_pairs(&data.to_vec())
}

#[test]
fn payload_splits_into_key_value_pairs() {
    let pairs = pairs_of(b"1\n2.5\n2\n-100,20,30\n");
    assert_eq!(pairs.len(), 2);
    assert_eq!(pairs[0], (b"1".to_vec(), b"2.5".to_vec()));
    assert_eq!(pairs[1], (b"2".to_vec(), b"-100,20,30".to_vec()));
}

#[test]
fn final_line_ending_is_optional() {
    let pairs = pairs_of(b"1\nvalue");
    assert_eq!(pairs, vec![(b"1".to_vec(), b"value".to_vec())]);
}

#[test]
fn empty_key_lines_are_skipped() {
    let pairs = pairs_of(b"\n\n3\nx\n");
    assert_eq!(pairs, vec![(b"3".to_vec(), b"x".to_vec())]);
}

#[test]
fn trailing_key_without_value_is_dropped() {
    let pairs = pairs_of(b"1\nvalue\n7\n");
    assert_eq!(pairs, vec![(b"1".to_vec(), b"value".to_vec())]);
}

#[test]
fn empty_payload_has_no_pairs() {
    assert!(pairs_of(b"").is_empty());
    assert!(pairs_of(b"\n").is_empty());
}

#[test]
fn a_value_may_be_empty() {
    let pairs = pairs_of(b"2\n\n");
    assert_eq!(pairs, vec![(b"2".to_vec(), b"".to_vec())]);
}

#[test]
fn assignments_keep_numeric_keys_only() {
    let pairs = pairs_of(b"0\nB\nnope\nx\n2\npos\n");
    let assigns = decode_assignments(&pairs);
    assert_eq!(assigns.len(), 2);
    assert_eq!(assigns[0], (0usize, b"B".to_vec()));
    assert_eq!(assigns[1], (2usize, b"pos".to_vec()));
}

#[test]
fn oversized_keys_are_dropped() {
    let pairs = pairs_of(b"99999999999999999999\nx\n1\ny\n");
    let assigns = decode_assignments(&pairs);
    assert_eq!(assigns, vec![(1usize, b"y".to_vec())]);
}

#[test]
fn in_sync_variable_accepts_remote_write() {
    let mut var = TrackedVariable { old_val: b"1.0".to_vec(), changed: false };
    // live value matches the last synchronized one; the incoming differs
    let write = apply_incoming(&mut var, &b"1.0".to_vec(), &b"0.5".to_vec());
    assert!(write);
    assert!(!var.changed);
    note_current(&mut var, b"0.5".to_vec());
    assert_eq!(var.old_val, b"0.5".to_vec());
}

#[test]
fn identical_incoming_value_writes_nothing() {
    let mut var = TrackedVariable { old_val: b"1.0".to_vec(), changed: false };
    let write = apply_incoming(&mut var, &b"1.0".to_vec(), &b"1.0".to_vec());
    assert!(!write);
    assert!(!var.changed);
}

#[test]
fn locally_drifted_variable_blocks_write_and_is_flagged() {
    let mut var = TrackedVariable { old_val: b"1.0".to_vec(), changed: false };
    // the live value drifted away from the last synchronized one
    let write = apply_incoming(&mut var, &b"2.0".to_vec(), &b"0.5".to_vec());
    assert!(!write);
    assert!(var.changed);
}

#[test]
fn change_report_lists_flagged_variables_and_clears_flags() {
    let mut vars = vec![
        TrackedVariable { old_val: b"a".to_vec(), changed: false },
        TrackedVariable { old_val: b"b".to_vec(), changed: true },
        TrackedVariable { old_val: b"c".to_vec(), changed: true },
    ];
    let currents = vec![b"a2".to_vec(), b"b2".to_vec(), b"c2".to_vec()];
    let report = collect_changed(&mut vars, &currents);
    assert_eq!(report, vec![(1usize, b"b2".to_vec()), (2usize, b"c2".to_vec())]);
    assert!(vars.iter().all(|v| !v.changed));
    // the report is empty on a second collection
    let again = collect_changed(&mut vars, &currents);
    assert!(again.is_empty());
}
