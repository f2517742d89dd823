use hookscan::registry::{candidate_object_addrs, DbRegistry, EntityRegistry};
use hookscan::text::{
    is_valid_name, nul_len, parse_dec_u64, parse_hex_address, parse_hex_u64, starts_with_bytes,
};

#[test]
fn empty_name_is_invalid() {
    assert!(!is_valid_name(b""));
}

#[test]
fn single_byte_name_is_invalid() {
    assert!(!is_valid_name(b"A\0rest ignored"));
}

#[test]
fn plain_name_is_valid() {
    assert!(is_valid_name(b"Beep (HIVE)_2\0junk\x01"));
}

#[test]
fn disallowed_byte_rejects_name() {
    assert!(!is_valid_name(b"Beep!\0"));
    assert!(!is_valid_name(b"Be\xFFep\0"));
}

#[test]
fn name_without_terminator_uses_whole_buffer() {
    assert!(is_valid_name(b"Hobbs"));
    assert!(!is_valid_name(b"Ho,bs"));
}

#[test]
fn nul_len_finds_first_zero() {
    assert_eq!(nul_len(b"abc\0def\0"), 3);
    assert_eq!(nul_len(b"abc"), 3);
    assert_eq!(nul_len(b"\0abc"), 0);
    assert_eq!(nul_len(b""), 0);
}

#[test]
fn hex_parsing_is_exact() {
    assert_eq!(parse_hex_u64(b"ff"), Some(255));
    assert_eq!(parse_hex_u64(b"DeadBEEF"), Some(0xDEAD_BEEF));
    assert_eq!(parse_hex_u64(b"0"), Some(0));
    assert_eq!(parse_hex_u64(b""), None);
    assert_eq!(parse_hex_u64(b"12g4"), None);
    assert_eq!(parse_hex_u64(b"ffffffffffffffff"), Some(u64::MAX));
    assert_eq!(parse_hex_u64(b"10000000000000000"), None);
}

#[test]
fn hex_address_strips_one_prefix() {
    assert_eq!(parse_hex_address(&b"0x14001000".to_vec()), Some(0x1400_1000));
    assert_eq!(parse_hex_address(&b"14001000".to_vec()), Some(0x1400_1000));
    assert_eq!(parse_hex_address(&b"0x".to_vec()), None);
    assert_eq!(parse_hex_address(&b"0xzz".to_vec()), None);
}

#[test]
fn decimal_parsing_is_exact() {
    assert_eq!(parse_dec_u64(b"0"), Some(0));
    assert_eq!(parse_dec_u64(b"3"), Some(3));
    assert_eq!(parse_dec_u64(b"18446744073709551615"), Some(u64::MAX));
    assert_eq!(parse_dec_u64(b"18446744073709551616"), None);
    assert_eq!(parse_dec_u64(b"12a"), None);
    assert_eq!(parse_dec_u64(b""), None);
}

#[test]
fn prefix_test_matches_leading_bytes() {
    assert!(starts_with_bytes(&b"Beep the robot".to_vec(), &b"Beep".to_vec()));
    assert!(starts_with_bytes(&b"Beep".to_vec(), &b"".to_vec()));
    assert!(!starts_with_bytes(&b"Bee".to_vec(), &b"Beep".to_vec()));
    assert!(!starts_with_bytes(&b"beep".to_vec(), &b"Beep".to_vec()));
}

#[test]
fn registry_touch_inserts_then_refreshes() {
    let mut reg = EntityRegistry::new();
    reg.touch(0x1000, b"Unknown".to_vec(), 100);
    assert_eq!(reg.len(), 1);
    assert_eq!(reg.get(0).0, 0x1000);
    assert_eq!(reg.get(0).1.name, b"Unknown".to_vec());
    assert_eq!(reg.get(0).1.last_seen, 100);
    // a second observation keeps the name and refreshes the tick
    reg.touch(0x1000, b"Other".to_vec(), 250);
    assert_eq!(reg.len(), 1);
    assert_eq!(reg.get(0).1.name, b"Unknown".to_vec());
    assert_eq!(reg.get(0).1.last_seen, 250);
    // a different address appends in first-seen order
    reg.touch(0x2000, b"Hobbs".to_vec(), 300);
    assert_eq!(reg.len(), 2);
    assert_eq!(reg.get(1).0, 0x2000);
}

#[test]
fn registry_prefix_listing_is_ascending() {
    let mut reg = EntityRegistry::new();
    reg.touch(10, b"Beep".to_vec(), 1);
    reg.touch(20, b"Hobbs".to_vec(), 2);
    reg.touch(30, b"Beep 2".to_vec(), 3);
    let hits = reg.matching_indices(&b"Beep".to_vec());
    assert_eq!(hits, vec![0, 2]);
    let all = reg.matching_indices(&b"".to_vec());
    assert_eq!(all, vec![0, 1, 2]);
    let none = reg.matching_indices(&b"Ruka".to_vec());
    assert!(none.is_empty());
}

#[test]
fn db_insert_replaces_known_name() {
    let mut db = DbRegistry::new();
    db.insert(b"Unknown".to_vec(), 0x5000);
    db.insert(b"Unknown".to_vec(), 0x6000);
    assert_eq!(db.len(), 1);
    assert_eq!(db.get(0).0, b"Unknown".to_vec());
    assert_eq!(db.get(0).1, 0x6000);
    db.insert(b"Named".to_vec(), 0x7000);
    assert_eq!(db.len(), 2);
    assert_eq!(db.get(1).1, 0x7000);
}

#[test]
fn scan_hits_map_back_to_object_bases() {
    let hits = vec![0x5010usize, 0x7010, 0x9010];
    let objects = candidate_object_addrs(&hits, 0x10);
    assert_eq!(objects, vec![0x5000, 0x7000, 0x9000]);
}
