use mft::attribute::header::MftAttributeHeader;
use mft::attribute::x30::{FileNameAttr, FileNamespace};
use mft::csv::FlatMftEntryWithName;
use mft::attribute::{FileAttributeFlags, MftAttributeContent, MftAttributeType};
use mft::entry::{apply_fixups, EntryFlags, EntryHeader, MftEntry};
use mft::err::Error;
use mft::mft::{find_entry_size, join, MftParser};
use mft::reference::MftReference;

fn put_u16(b: &mut [u8], at: usize, v: u16) {
    b[at..at + 2].copy_from_slice(&v.to_le_bytes());
}

fn put_u32(b: &mut [u8], at: usize, v: u32) {
    b[at..at + 4].copy_from_slice(&v.to_le_bytes());
}

fn put_u64(b: &mut [u8], at: usize, v: u64) {
    b[at..at + 8].copy_from_slice(&v.to_le_bytes());
}

/// A 1024-byte "FILE" entry holding one $FILE_NAME attribute, fixups in place.
fn file_entry(name: &str, parent: u64, is_dir: bool) -> Vec<u8> {
    let mut b = vec![0u8; 1024];
    b[0..4].copy_from_slice(b"FILE");
    put_u16(&mut b, 4, 48);
    put_u16(&mut b, 6, 3);
    put_u16(&mut b, 16, 1);
    put_u16(&mut b, 18, 1);
    put_u16(&mut b, 20, 56);
    put_u16(&mut b, 22, if is_dir { 3 } else { 1 });
    put_u32(&mut b, 28, 1024);
    // The update sequence array: the number, then the bytes each sector end stands for.
    put_u16(&mut b, 48, 0x0007);
    put_u16(&mut b, 50, 0xAABB);
    put_u16(&mut b, 52, 0xCCDD);
    put_u16(&mut b, 510, 0x0007);
    put_u16(&mut b, 1022, 0x0007);

    let units: Vec<u16> = name.encode_utf16().collect();
    let content_len = 66 + 2 * units.len();
    let record_len = (24 + content_len + 7) / 8 * 8;
    let a = 56;
    put_u32(&mut b, a, 0x30);
    put_u32(&mut b, a + 4, record_len as u32);
    put_u32(&mut b, a + 16, content_len as u32);
    put_u16(&mut b, a + 20, 24);
    let c = a + 24;
    put_u64(&mut b, c, parent | (1u64 << 48));
    put_u64(&mut b, c + 40, 100);
    put_u32(&mut b, c + 56, 0x20);
    b[c + 64] = units.len() as u8;
    b[c + 65] = 1;
    for (i, u) in units.iter().enumerate() {
        put_u16(&mut b, c + 66 + 2 * i, *u);
    }
    put_u32(&mut b, a + record_len, 0xFFFF_FFFF);
    b
}

fn mft_image(entries: &[Vec<u8>]) -> Vec<u8> {
    entries.iter().flat_map(|e| e.iter().copied()).collect()
}

#[test]
fn mft_header_test_01() {
    let header_buffer: &[u8] = &[
        0x46, 0x49, 0x4C, 0x45, 0x30, 0x00, 0x03, 0x00, 0xCC, 0xB3, 0x7D, 0x84, 0x0C, 0x00,
        0x00, 0x00, 0x05, 0x00, 0x01, 0x00, 0x38, 0x00, 0x05, 0x00, 0x48, 0x03, 0x00, 0x00,
        0x00, 0x04, 0x00, 0x00, 0x00, 0x00, 0x00, 0x00, 0x00, 0x00, 0x00, 0x00, 0x06, 0x00,
        0x00, 0x00, 0xD5, 0x95, 0x00, 0x00, 0x53, 0x57, 0x81, 0x37, 0x00, 0x00, 0x00, 0x00,
    ];

    let entry_header = EntryHeader::from_reader(header_buffer, 0, 38357).unwrap();

    assert_eq!(&entry_header.signature, b"FILE");
    assert_eq!(entry_header.usa_offset, 48);
    assert_eq!(entry_header.usa_size, 3);
    assert_eq!(entry_header.metadata_transaction_journal, 53_762_438_092);
    assert_eq!(entry_header.sequence, 5);
    assert_eq!(entry_header.hard_link_count, 1);
    assert_eq!(entry_header.first_attribute_record_offset, 56);
    assert_eq!(entry_header.flags.bits(), 5);
    assert_eq!(entry_header.used_entry_size, 840);
    assert_eq!(entry_header.total_entry_size, 1024);
    assert_eq!(entry_header.base_reference.entry, 0);
    assert_eq!(entry_header.first_attribute_id, 6);
    assert_eq!(entry_header.record_number, 38357);
}

#[test]
fn bad_signature_is_rejected() {
    let mut b = vec![0u8; 64];
    b[0..4].copy_from_slice(b"XYZW");
    match EntryHeader::from_reader(&b, 0, 1) {
        Err(Error::InvalidEntrySignature { bad_sig }) => assert_eq!(bad_sig, b"XYZW".to_vec()),
        other => panic!("unexpected {:?}", other),
    }
}

#[test]
fn zero_signature_gives_the_zero_header() {
    let b = vec![0u8; 64];
    let h = EntryHeader::from_reader(&b, 0, 77).unwrap();
    assert_eq!(h.signature, [0, 0, 0, 0]);
    assert_eq!(h.record_number, 0);
    assert_eq!(h.total_entry_size, 0);
    assert!(!h.is_valid());
}

#[test]
fn flags_keep_the_defined_bits() {
    assert_eq!(EntryFlags::from_bits_truncate(0xFFFF).bits(), 0x0F);
    assert_eq!(FileAttributeFlags::from_bits_truncate(0xFFFF_FFFF).bits(), 0x3006_FFF7);
    assert_eq!(MftReference::from_u64(0x9168_0000_0000_0073), MftReference::new(0x73, 0x9168));
}

#[test]
fn fixups_restore_sector_ends() {
    let b = file_entry("a.txt", 5, false);
    let entry = MftEntry::from_buffer(b.clone(), 3).unwrap();
    assert_eq!(entry.valid_fixup, Some(true));
    assert_eq!(&entry.data[510..512], &[0xBB, 0xAA]);
    assert_eq!(&entry.data[1022..1024], &[0xDD, 0xCC]);
    assert_eq!(&entry.data[..510], &b[..510]);
    assert_eq!(entry.header.record_number, 3);
}

#[test]
fn fixup_mismatch_names_the_stride() {
    let mut b = file_entry("a.txt", 5, false);
    b[1022] = 0x99;
    let header = EntryHeader::from_reader(&b, 0, 3).unwrap();
    let mut fixed = b.clone();
    match apply_fixups(&header, &mut fixed) {
        Err(Error::FailedToApplyFixup { stride_number, end_of_sector_bytes, fixup_bytes }) => {
            assert_eq!(stride_number, 1);
            assert_eq!(end_of_sector_bytes, vec![0x99, 0x00]);
            assert_eq!(fixup_bytes, vec![0xDD, 0xCC]);
        }
        other => panic!("unexpected {:?}", other),
    }
    let entry = MftEntry::from_buffer(b.clone(), 3).unwrap();
    assert_eq!(entry.valid_fixup, Some(false));
    assert_eq!(entry.data, b);
}

#[test]
fn fixup_array_outside_the_entry_is_an_error() {
    let mut b = file_entry("a.txt", 5, false);
    put_u16(&mut b, 6, 4);
    let header = EntryHeader::from_reader(&b, 0, 3).unwrap();
    assert!(matches!(apply_fixups(&header, &mut b), Err(Error::FixupOutOfBounds { usa_offset: 48, usa_size: 4 })));
}

#[test]
fn skip_fixup_keeps_the_bytes() {
    let b = file_entry("a.txt", 5, false);
    let entry = MftEntry::from_buffer_skip_fixup(b.clone(), 3).unwrap();
    assert_eq!(entry.data, b);
    assert!(MftEntry::from_buffer_skip_fixup(vec![0u8; 1024], 3).is_err());
}

#[test]
fn attributes_of_an_entry() {
    let entry = MftEntry::from_buffer(file_entry("a.txt", 5, true), 3).unwrap();
    assert!(entry.is_allocated());
    assert!(entry.is_dir());
    let all = entry.attributes_matching(None);
    assert_eq!(all.len(), 1);
    let attribute = all[0].as_ref().unwrap();
    assert_eq!(attribute.header.type_code, MftAttributeType::FileName);
    match &attribute.data {
        MftAttributeContent::AttrX30(f) => {
            assert_eq!(f.name, "a.txt");
            assert_eq!(f.parent.entry, 5);
            assert_eq!(f.namespace, FileNamespace::Win32);
        }
        other => panic!("unexpected {:?}", other),
    }
    let none = entry.attributes_matching(Some(vec![MftAttributeType::DATA]));
    assert!(none.is_empty());
    let mut it = entry.iter_attributes();
    assert!(it.next(&entry).is_some());
    assert!(it.next(&entry).is_none());
    assert!(it.next(&entry).is_none());
    assert_eq!(entry.find_best_name_attribute().unwrap().name, "a.txt");
}

#[test]
fn probing_skips_leading_corrupt_headers() {
    let zeroed = vec![0u8; 1024];
    let mut corrupt = file_entry("x", 5, false);
    put_u32(&mut corrupt, 28, 4096);
    let good = file_entry("y", 5, false);
    let image = mft_image(&[zeroed, corrupt, good]);
    assert_eq!(find_entry_size(&image, image.len() as u64).unwrap(), 1024);
    let parser = MftParser::from_buffer(image).unwrap();
    assert_eq!(parser.entry_size, 1024);
    assert_eq!(parser.get_entry_count(), 3);
}

#[test]
fn probing_fails_without_a_good_header() {
    let image = vec![0u8; 4096];
    assert!(matches!(find_entry_size(&image, 4096), Err(Error::FailedToReadEntrySize)));
    assert!(MftParser::from_buffer(image).is_err());
}

fn sample_parser() -> MftParser {
    let mut entries: Vec<Vec<u8>> = Vec::new();
    for i in 0..18u64 {
        let e = match i {
            0 => file_entry("$MFT", 5, false),
            5 => file_entry(".", 5, true),
            10 => file_entry("docs", 5, true),
            11 => file_entry("a.txt", 10, false),
            12 => file_entry("self", 12, false),
            13 => file_entry("orphan", 0, false),
            14 => file_entry("loopA", 15, true),
            15 => file_entry("loopB", 14, true),
            16 => file_entry("x", 200, false),
            17 => file_entry("y", 11, false),
            _ => vec![0u8; 1024],
        };
        entries.push(e);
    }
    MftParser::from_buffer(mft_image(&entries)).unwrap()
}

fn path_of(parser: &mut MftParser, n: u64) -> Option<String> {
    let entry = parser.get_entry(n).unwrap();
    parser.get_full_path_for_entry(&entry).unwrap()
}

#[test]
fn root_parent_gives_the_bare_name() {
    let mut parser = sample_parser();
    assert_eq!(path_of(&mut parser, 0).as_deref(), Some("$MFT"));
    assert_eq!(path_of(&mut parser, 10).as_deref(), Some("docs"));
}

#[test]
fn nested_path_goes_through_the_parent() {
    let mut parser = sample_parser();
    assert_eq!(path_of(&mut parser, 11).as_deref(), Some("docs/a.txt"));
}

#[test]
fn own_parent_is_orphaned() {
    let mut parser = sample_parser();
    assert_eq!(path_of(&mut parser, 12).as_deref(), Some("[Orphaned]/self"));
}

#[test]
fn zero_parent_is_orphaned_and_cached() {
    let mut parser = sample_parser();
    assert_eq!(path_of(&mut parser, 13).as_deref(), Some("[Orphaned]/orphan"));
    assert_eq!(parser.entries_cache.peek(&13).map(|s| s.as_str()), Some("[Orphaned]/orphan"));
}

#[test]
fn parent_loop_is_orphaned() {
    let mut parser = sample_parser();
    assert_eq!(path_of(&mut parser, 14).as_deref(), Some("[Orphaned]/loopB/loopA"));
}

#[test]
fn unreadable_or_plain_parent_is_unknown() {
    let mut parser = sample_parser();
    assert_eq!(path_of(&mut parser, 16).as_deref(), Some("[Unknown]/x"));
    assert_eq!(path_of(&mut parser, 17).as_deref(), Some("[Unknown]/y"));
}

#[test]
fn empty_slot_has_no_path() {
    let mut parser = sample_parser();
    assert_eq!(path_of(&mut parser, 1), None);
}

#[test]
fn second_resolution_comes_from_the_cache() {
    let mut parser = sample_parser();
    let entry = parser.get_entry(11).unwrap();
    let first = parser.get_full_path_for_entry(&entry).unwrap();
    assert_eq!(parser.entries_cache.peek(&10).map(|s| s.as_str()), Some("docs"));
    // Wipe the parent's bytes: a second resolution that read it again would differ.
    for b in &mut parser.data[10 * 1024..11 * 1024] {
        *b = 0;
    }
    let second = parser.get_full_path_for_entry(&entry).unwrap();
    assert_eq!(first, second);
    assert_eq!(second.as_deref(), Some("docs/a.txt"));
}

#[test]
fn path_for_a_given_name() {
    let mut parser = sample_parser();
    let name = FileNameAttr {
        parent: MftReference::new(10, 1),
        created: 0,
        modified: 0,
        mft_modified: 0,
        accessed: 0,
        logical_size: 0,
        physical_size: 0,
        flags: FileAttributeFlags::from_bits_truncate(0),
        reparse_value: 0,
        name_length: 1,
        namespace: FileNamespace::POSIX,
        name: "z".to_string(),
    };
    assert_eq!(parser.path_for_name(40, &name), "docs/z");
    assert_eq!(parser.path_for_name(40, &name), "docs/z");
}

#[test]
fn entry_past_the_end_is_an_io_error() {
    let mut parser = sample_parser();
    assert!(matches!(parser.get_entry(18), Err(Error::IoError)));
}

#[test]
fn paths_join_with_a_slash() {
    assert_eq!(join(&String::new(), &"a".to_string()), "a");
    assert_eq!(join(&"p".to_string(), &"a".to_string()), "p/a");
}

#[test]
fn flat_row_of_an_entry() {
    let mut parser = sample_parser();
    let entry = parser.get_entry(11).unwrap();
    let row = FlatMftEntryWithName::from_entry(&entry, &mut parser);
    assert_eq!(row.signature, "FILE");
    assert_eq!(row.entry_id, 11);
    assert_eq!(row.sequence, 1);
    assert!(!row.is_a_directory);
    assert!(!row.is_deleted);
    assert!(!row.has_alternate_data_streams);
    assert_eq!(row.file_size, 0);
    assert!(row.standard_info_flags.is_none());
    assert_eq!(row.file_name_flags.map(|f| f.bits()), Some(0x20));
    assert_eq!(row.full_path, "docs/a.txt");
}

#[test]
fn decoding_twice_gives_equal_values() {
    let b = file_entry("twice", 5, false);
    let e1 = MftEntry::from_buffer(b.clone(), 9).unwrap();
    let e2 = MftEntry::from_buffer(b.clone(), 9).unwrap();
    assert_eq!(e1.data, e2.data);
    assert_eq!(format!("{:?}", e1.header), format!("{:?}", e2.header));
    let h1 = MftAttributeHeader::from_stream(&e1.data, 56).unwrap().unwrap();
    let h2 = MftAttributeHeader::from_stream(&e2.data, 56).unwrap().unwrap();
    assert_eq!(format!("{:?}", h1), format!("{:?}", h2));
    assert_eq!(
        format!("{:?}", e1.attributes_matching(None)),
        format!("{:?}", e2.attributes_matching(None))
    );
}

/// A "FILE" entry with a $STANDARD_INFORMATION record, then a $DATA record named "ads".
fn two_record_entry() -> Vec<u8> {
    let mut b = vec![0u8; 1024];
    b[0..4].copy_from_slice(b"FILE");
    put_u16(&mut b, 4, 48);
    put_u16(&mut b, 6, 3);
    put_u16(&mut b, 20, 56);
    put_u16(&mut b, 22, 1);
    put_u32(&mut b, 28, 1024);
    put_u16(&mut b, 48, 0x0001);
    put_u16(&mut b, 510, 0x0001);
    put_u16(&mut b, 1022, 0x0001);
    // $STANDARD_INFORMATION: 24-byte header, 72-byte value.
    let a = 56;
    put_u32(&mut b, a, 0x10);
    put_u32(&mut b, a + 4, 96);
    put_u32(&mut b, a + 16, 72);
    put_u16(&mut b, a + 20, 24);
    put_u64(&mut b, a + 24, 0x1111);
    put_u32(&mut b, a + 24 + 32, 0x21);
    // $DATA named "ads" holding "hi".
    let d = a + 96;
    put_u32(&mut b, d, 0x80);
    put_u32(&mut b, d + 4, 40);
    b[d + 9] = 3;
    put_u16(&mut b, d + 10, 24);
    put_u32(&mut b, d + 16, 2);
    put_u16(&mut b, d + 20, 32);
    for (i, c) in "ads".encode_utf16().enumerate() {
        put_u16(&mut b, d + 24 + 2 * i, c);
    }
    b[d + 32] = b'h';
    b[d + 33] = b'i';
    put_u32(&mut b, d + 40, 0xFFFF_FFFF);
    b
}

#[test]
fn filter_steps_over_unwanted_records() {
    let entry = MftEntry::from_buffer(two_record_entry(), 2).unwrap();
    let all = entry.attributes_matching(None);
    assert_eq!(all.len(), 2);
    let data_only = entry.attributes_matching(Some(vec![MftAttributeType::DATA]));
    assert_eq!(data_only.len(), 1);
    let a = data_only[0].as_ref().unwrap();
    assert_eq!(a.header.start_offset, 56 + 96);
    assert_eq!(a.header.name, "ads");
    match &a.data {
        MftAttributeContent::AttrX80(d) => assert_eq!(d.data(), b"hi"),
        other => panic!("unexpected {:?}", other),
    }
    match &all[0].as_ref().unwrap().data {
        MftAttributeContent::AttrX10(si) => {
            assert_eq!(si.created, 0x1111);
            assert_eq!(si.file_flags.bits(), 0x21);
        }
        other => panic!("unexpected {:?}", other),
    }
    let row = FlatMftEntryWithName::from_attributes(&entry, &all, String::new());
    assert!(row.has_alternate_data_streams);
    assert_eq!(row.file_size, 2);
    assert_eq!(row.standard_info_created, Some(0x1111));
    assert!(row.file_name_flags.is_none());
    assert!(entry.find_best_name_attribute().is_none());
}

#[test]
fn bad_record_ends_the_walk_with_one_error() {
    let mut b = two_record_entry();
    // The second record's type code is unknown.
    put_u32(&mut b, 56 + 96, 0x12);
    let entry = MftEntry::from_buffer(b, 2).unwrap();
    let all = entry.attributes_matching(None);
    assert_eq!(all.len(), 2);
    assert!(all[0].is_ok());
    assert!(matches!(all[1], Err(Error::UnknownAttributeType { attribute_type: 0x12 })));
}

#[test]
fn all_entries_in_order() {
    let mut parser = sample_parser();
    let mut it = parser.iter_entries();
    let mut numbers = Vec::new();
    let mut signatures = Vec::new();
    while let Some(e) = it.next(&mut parser) {
        let e = e.unwrap();
        numbers.push(e.header.record_number);
        signatures.push(e.header.signature);
    }
    assert_eq!(numbers.len(), 18);
    assert_eq!(numbers[11], 11);
    assert_eq!(signatures[1], [0, 0, 0, 0]);
    assert!(it.next(&mut parser).is_none());
}

#[test]
fn baad_entries_get_their_fixups() {
    let mut b = file_entry("a.txt", 5, false);
    b[0..4].copy_from_slice(b"BAAD");
    let entry = MftEntry::from_buffer(b, 3).unwrap();
    assert_eq!(entry.valid_fixup, Some(true));
    assert_eq!(&entry.data[510..512], &[0xBB, 0xAA]);
}

#[test]
fn unreadable_parent_is_cached_as_unknown() {
    let mut parser = sample_parser();
    assert_eq!(path_of(&mut parser, 16).as_deref(), Some("[Unknown]/x"));
    assert_eq!(parser.entries_cache.peek(&200).map(|s| s.as_str()), Some("[Unknown]"));
    assert_eq!(path_of(&mut parser, 17).as_deref(), Some("[Unknown]/y"));
    assert_eq!(parser.entries_cache.peek(&11).map(|s| s.as_str()), Some("[Unknown]"));
}
