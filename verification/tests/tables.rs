use flash_parts::error::AssemblyError;
use flash_parts::flash::FlashSize;
use flash_parts::table::{
    admit_table, decode_entries, entries_well_formed, entries_within, load_partition_table,
    PartitionEntry,
};

fn entry(name: &str, kind: u8, subkind: u8, offset: u32, size: u32) -> Vec<u8> {
    let mut r = vec![0xAA, 0x50, kind, subkind];
    r.extend_from_slice(&offset.to_le_bytes());
    r.extend_from_slice(&size.to_le_bytes());
    let mut field = [0u8; 16];
    field[..name.len()].copy_from_slice(name.as_bytes());
    r.extend_from_slice(&field);
    r.extend_from_slice(&[0, 0, 0, 0]);
    r
}

fn table(entries: &[Vec<u8>]) -> Vec<u8> {
    let mut t = Vec::new();
    for e in entries {
        t.extend_from_slice(e);
    }
    t.extend_from_slice(&[0xFF; 32]);
    t
}

fn usual() -> Vec<u8> {
    table(&[
        entry("nvs", 1, 2, 0x9000, 0x6000),
        entry("phy_init", 1, 1, 0xf000, 0x1000),
        entry("factory", 0, 0, 0x1_0000, 0x10_0000),
    ])
}

fn plain(name: &str, offset: u32, size: u32) -> PartitionEntry {
    PartitionEntry { name: name.as_bytes().to_vec(), kind: 1, subkind: 2, offset, size, encrypted: false }
}

#[test]
fn decodes_the_entries_in_order() {
    let entries = decode_entries(&usual()).unwrap();
    assert_eq!(entries.len(), 3);
    assert_eq!(&entries[0].name[..3], b"nvs");
    assert_eq!(entries[0].name.len(), 16);
    assert_eq!((entries[0].kind, entries[0].subkind), (1, 2));
    assert_eq!((entries[0].offset, entries[0].size), (0x9000, 0x6000));
    assert_eq!((entries[1].offset, entries[1].size), (0xf000, 0x1000));
    assert_eq!((entries[2].kind, entries[2].subkind), (0, 0));
    assert_eq!((entries[2].offset, entries[2].size), (0x1_0000, 0x10_0000));
    assert!(!entries[2].encrypted);
}

#[test]
fn decodes_little_endian_fields_and_the_flag() {
    let mut e = entry("x", 0x40, 0x99, 0x0403_0201, 0x0807_0605);
    e[28] = 1;
    let entries = decode_entries(&table(&[e])).unwrap();
    assert_eq!(entries[0].offset, 0x0403_0201);
    assert_eq!(entries[0].size, 0x0807_0605);
    assert_eq!((entries[0].kind, entries[0].subkind), (0x40, 0x99));
    assert!(entries[0].encrypted);
}

#[test]
fn an_empty_table_decodes_to_no_entries() {
    assert_eq!(decode_entries(&[0xFF; 32]).unwrap().len(), 0);
}

#[test]
fn stops_at_the_end_marker_and_passes_digest_lines() {
    let mut t = table(&[entry("a", 1, 2, 0x9000, 0x1000)]);
    let mut digest = vec![0xEB, 0xEB];
    digest.extend_from_slice(&[0xFF; 14]);
    digest.extend_from_slice(&[7; 16]);
    t.splice(32..32, digest);
    t.extend_from_slice(&[0x00; 32]);
    assert_eq!(decode_entries(&t).unwrap().len(), 1);
}

#[test]
fn truncated_bytes_are_no_table() {
    let mut t = usual();
    t.pop();
    assert!(decode_entries(&t).is_none());
    assert!(matches!(load_partition_table(Some(t), FlashSize::Mb4), Err(AssemblyError::MalformedPartitionTable)));
    assert!(decode_entries(&[]).is_none());
    assert!(decode_entries(&[0xFF; 31]).is_none());
}

#[test]
fn a_table_without_end_marker_is_no_table() {
    let mut t = usual();
    t.truncate(96);
    assert!(decode_entries(&t).is_none());
    assert!(matches!(load_partition_table(Some(t), FlashSize::Mb4), Err(AssemblyError::MalformedPartitionTable)));
}

#[test]
fn a_record_without_magic_is_no_entry() {
    let mut t = usual();
    t[0] = 0xAB;
    assert!(decode_entries(&t).is_none());
    let mut t = usual();
    t[33] = 0x51;
    assert!(decode_entries(&t).is_none());
}

#[test]
fn unknown_subtypes_are_refused() {
    for (kind, subkind, ok) in [
        (0u8, 0x00u8, true), (0, 0x10, true), (0, 0x1F, true), (0, 0x20, true),
        (0, 0x01, false), (0, 0x0F, false), (0, 0x21, false), (0, 0xFF, false),
        (1, 0x00, true), (1, 0x06, true), (1, 0x80, true), (1, 0x83, true),
        (1, 0x07, false), (1, 0x7F, false), (1, 0x84, false),
        (2, 0x07, true), (0xFE, 0xFF, true),
    ] {
        let t = table(&[entry("p", kind, subkind, 0x2_0000, 0x1000)]);
        assert_eq!(decode_entries(&t).is_some(), ok, "{} {}", kind, subkind);
    }
}

#[test]
fn well_formed_means_bounded_and_disjoint() {
    assert!(entries_well_formed(&vec![]));
    assert!(entries_well_formed(&vec![plain("a", 0, 0x1000), plain("b", 0x1000, 0x1000)]));
    assert!(!entries_well_formed(&vec![plain("a", 0, 0x1001), plain("b", 0x1000, 0x1000)]));
    assert!(!entries_well_formed(&vec![plain("a", 0x1000, 0x1000), plain("b", 0, 0x1001)]));
    assert!(!entries_well_formed(&vec![plain("a", 0, 0x3000), plain("c", 0x8000, 1), plain("b", 0x1000, 0x1000)]));
    assert!(entries_well_formed(&vec![plain("a", 0x1000, 0), plain("b", 0, 0x3000)]));
    assert!(entries_well_formed(&vec![plain("a", 0xFFFF_F000, 0xFFF)]));
    assert!(!entries_well_formed(&vec![plain("a", 0xFFFF_F000, 0x1000)]));
    let many: Vec<PartitionEntry> = (0..95).map(|i| plain("p", i * 0x1000, 0x1000)).collect();
    assert!(entries_well_formed(&many));
    let more: Vec<PartitionEntry> = (0..96).map(|i| plain("p", i * 0x1000, 0x1000)).collect();
    assert!(!entries_well_formed(&more));
}

#[test]
fn within_compares_each_end_with_the_limit() {
    let es = vec![plain("a", 0x9000, 0x6000), plain("b", 0x10_0000, 0x30_0000)];
    assert!(entries_within(&es, 0x40_0000));
    assert!(!entries_within(&es, 0x3F_FFFF));
    assert!(entries_within(&vec![], 0));
    assert!(!entries_within(&vec![plain("a", 0xFFFF_FFFF, 1)], 0xFFFF_FFFF));
}

#[test]
fn no_bytes_means_no_table() {
    assert!(matches!(load_partition_table(None, FlashSize::Mb4), Ok(None)));
}

#[test]
fn loads_the_usual_table() {
    let t = load_partition_table(Some(usual()), FlashSize::Mb4).unwrap().unwrap();
    assert_eq!(t.as_bytes(), &usual());
    assert_eq!(t.entries().len(), 3);
    assert_eq!(t.entries()[2].offset, 0x1_0000);
    assert!(t.fits(FlashSize::Mb4));
    assert!(t.fits(FlashSize::Mb2));
    assert!(!t.fits(FlashSize::Mb1));
}

#[test]
fn overlapping_entries_are_malformed() {
    let t = table(&[
        entry("nvs", 1, 2, 0x9000, 0x8000),
        entry("factory", 0, 0, 0x1_0000, 0x10_0000),
    ]);
    assert!(decode_entries(&t).is_some());
    assert!(matches!(load_partition_table(Some(t), FlashSize::Mb4), Err(AssemblyError::MalformedPartitionTable)));
}

#[test]
fn entries_past_the_flash_part_are_malformed() {
    let t = table(&[entry("factory", 0, 0, 0x1_0000, 0x40_0000)]);
    assert!(matches!(load_partition_table(Some(t.clone()), FlashSize::Mb4), Err(AssemblyError::MalformedPartitionTable)));
    assert!(load_partition_table(Some(t), FlashSize::Mb8).unwrap().is_some());
}

#[test]
fn the_parser_has_the_last_word() {
    let no_app = table(&[entry("nvs", 1, 2, 0x9000, 0x6000)]);
    assert!(decode_entries(&no_app).is_some());
    assert!(matches!(load_partition_table(Some(no_app), FlashSize::Mb4), Err(AssemblyError::MalformedPartitionTable)));
    let unaligned = table(&[entry("factory", 0, 0, 0x1_1000, 0x10_0000)]);
    assert!(matches!(load_partition_table(Some(unaligned), FlashSize::Mb4), Err(AssemblyError::MalformedPartitionTable)));
    let mut bad_digest = usual();
    let mut digest = vec![0xEB, 0xEB];
    digest.extend_from_slice(&[0xFF; 14]);
    digest.extend_from_slice(&[0; 16]);
    bad_digest.splice(96..96, digest);
    assert!(decode_entries(&bad_digest).is_some());
    assert!(matches!(load_partition_table(Some(bad_digest), FlashSize::Mb4), Err(AssemblyError::MalformedPartitionTable)));
}

#[test]
fn admitting_follows_the_answer() {
    assert!(admit_table(usual(), FlashSize::Mb4, true).is_ok());
    assert!(matches!(admit_table(usual(), FlashSize::Mb4, false), Err(AssemblyError::MalformedPartitionTable)));
    assert!(matches!(admit_table(usual(), FlashSize::Mb1, true), Err(AssemblyError::MalformedPartitionTable)));
    assert!(matches!(admit_table(vec![1, 2, 3], FlashSize::Mb4, true), Err(AssemblyError::MalformedPartitionTable)));
    let t = admit_table(usual(), FlashSize::Mb4, true).unwrap();
    assert_eq!(t.as_bytes(), &usual());
}
