use hookscan::bytes::{read_u64_le, u64_to_le_bytes};
use hookscan::descriptors::{
    building_update_descriptor, char_update_descriptor, spawn_squad_bypass_descriptor,
    spawn_squad_injection_descriptor,
};
use hookscan::view::{CharStats, Faction, GameData, KenshiString, MemoryView, cstring_prefix};

#[test]
fn word_encoding_round_trips() {
    let v: u64 = 0x0123_4567_89AB_CDEF;
    let bytes = u64_to_le_bytes(v);
    assert_eq!(bytes, v.to_le_bytes().to_vec());
    assert_eq!(read_u64_le(&bytes, 0), v);
}

#[test]
fn game_data_decodes_field_by_field() {
    let mut raw = vec![0u8; 0x3C];
    raw[0x10..0x18].copy_from_slice(&0x1400_2000u64.to_le_bytes());
    raw[0x28..0x30].copy_from_slice(b"Iron Ore");
    raw[0x38..0x3C].copy_from_slice(&8u32.to_le_bytes());
    let view = MemoryView { base: 0x5000, bytes: raw };
    let data = GameData::from_view(&view);
    assert_eq!(data.manager, 0x1400_2000);
    assert_eq!(&data.name[..8], b"Iron Ore");
    assert_eq!(data.name_length, 8);
    assert!(data.has_valid_name());
}

#[test]
fn game_data_name_validity_follows_buffer() {
    let mut raw = vec![0u8; 0x3C];
    raw[0x28..0x2B].copy_from_slice(b"a!\0");
    let view = MemoryView { base: 0, bytes: raw };
    let data = GameData::from_view(&view);
    assert!(!data.has_valid_name());
}

#[test]
fn faction_decodes_name_window() {
    let mut raw = vec![0u8; 0x1BC];
    raw[0x1A8..0x1B2].copy_from_slice(b"10-multipl");
    raw[0x1B8..0x1BC].copy_from_slice(&10u32.to_le_bytes());
    let view = MemoryView { base: 0, bytes: raw };
    let f = Faction::from_view(&view);
    assert_eq!(&f.name[..10], b"10-multipl");
    assert_eq!(f.name_length, 10);
}

#[test]
fn char_stats_decodes_medical_pointer() {
    let mut raw = vec![0u8; 0x10];
    raw[0x8..0x10].copy_from_slice(&0xAB_CDEFu64.to_le_bytes());
    let view = MemoryView { base: 0, bytes: raw };
    let stats = CharStats::from_view(&view);
    assert_eq!(stats.medical, 0xAB_CDEF);
}

#[test]
fn kenshi_string_content_respects_size() {
    let mut raw = vec![0u8; 0x14];
    raw[0..5].copy_from_slice(b"Armor");
    raw[0x10..0x14].copy_from_slice(&5u32.to_le_bytes());
    let view = MemoryView { base: 0, bytes: raw };
    let s = KenshiString::from_view(&view);
    assert_eq!(s.content(), b"Armor".to_vec());
    // an oversized length field is capped at the inline buffer
    let mut raw2 = vec![0u8; 0x14];
    raw2[0x10..0x14].copy_from_slice(&100u32.to_le_bytes());
    let view2 = MemoryView { base: 0, bytes: raw2 };
    let s2 = KenshiString::from_view(&view2);
    assert_eq!(s2.content().len(), 0x10);
}

#[test]
fn cstring_prefix_stops_at_nul() {
    assert_eq!(cstring_prefix(&b"Outpost\0junk".to_vec()), b"Outpost".to_vec());
    assert_eq!(cstring_prefix(&b"NoTerminator".to_vec()), b"NoTerminator".to_vec());
}

#[test]
fn char_update_descriptor_matches_site() {
    let base: u64 = 0x1400_0000;
    let d = char_update_descriptor(base, 0xCAFE);
    assert_eq!(d.site.address, base + 0x65F6C7);
    assert_eq!(
        d.site.original_bytes,
        vec![0x48, 0x8B, 0x8B, 0x20, 0x03, 0x00, 0x00, 0x40, 0x88, 0xB3, 0x7C, 0x03, 0x00, 0x00]
    );
    assert_eq!(d.callback_address, 0xCAFE);
    // the preamble ends with the replayed pointer load
    assert_eq!(d.preamble.len(), 23 + 7);
    assert_eq!(&d.preamble[23..], &[0x48, 0x8B, 0x8B, 0x20, 0x03, 0x00, 0x00]);
    // save and restore sequences mirror each other
    assert_eq!(d.preamble[0], 0x50);
    assert_eq!(d.postamble.len(), 23);
    assert_eq!(d.postamble[22], 0x58);
}

#[test]
fn building_update_descriptor_matches_site() {
    let base: u64 = 0x1400_0000;
    let d = building_update_descriptor(base, 0xBEEF);
    assert_eq!(d.site.address, base + 0x9FAA57);
    assert_eq!(d.site.original_bytes.len(), 21);
    assert_eq!(&d.site.original_bytes[0..4], &[0x48, 0x8B, 0x43, 0x60]);
    assert_eq!(d.preamble.len(), 23 + 11);
    assert_eq!(&d.preamble[23..27], &[0x48, 0x8B, 0x43, 0x60]);
}

#[test]
fn squad_descriptors_match_their_fragments() {
    let base: u64 = 0x1400_0000;
    let bypass = spawn_squad_bypass_descriptor(base, 0x10);
    assert_eq!(bypass.site.address, base + 0x4FF47C);
    assert_eq!(bypass.site.original_bytes.len(), 15);
    assert_eq!(bypass.preamble.len(), 23);
    let inj = spawn_squad_injection_descriptor(base, 0x20);
    assert_eq!(inj.site.address, base + 0x4FFA88);
    assert_eq!(inj.site.original_bytes, vec![0x90; 15]);
    assert_eq!(inj.preamble, vec![0x52, 0x41, 0x52]);
    assert_eq!(inj.postamble.len(), 49);
    assert_eq!(&inj.postamble[0..3], &[0x41, 0x5A, 0x5A]);
    assert_eq!(&inj.postamble[45..], &[0x4C, 0x8D, 0x45, 0xA0]);
}
