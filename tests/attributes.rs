use mft::attribute::data_run::RunType;
use mft::attribute::header::{MftAttributeHeader, NonResidentHeader, ResidentialHeader};
use mft::attribute::non_resident_attr::NonResidentAttr;
use mft::attribute::x10::StandardInfoAttr;
use mft::attribute::x20::{AttributeListAttr, AttributeListEntry};
use mft::attribute::x30::{FileNameAttr, FileNamespace};
use mft::attribute::x40::ObjectIdAttr;
use mft::attribute::x80::DataAttr;
use mft::attribute::raw::RawAttribute;
use mft::attribute::x90::{IndexCollationRules, IndexRootAttr};
use mft::attribute::{AttributeDataFlags, MftAttributeType};
use mft::err::Error;

fn build_header(resident: &NonResidentHeader, record_length: u32, start_offset: u64) -> MftAttributeHeader {
    MftAttributeHeader {
        type_code: MftAttributeType::DATA,
        record_length,
        form_code: 1,
        residential_header: ResidentialHeader::NonResident(resident.clone()),
        name_size: 0,
        name_offset: None,
        data_flags: AttributeDataFlags::empty(),
        instance: 0,
        name: String::new(),
        start_offset,
    }
}

#[test]
fn decodes_sparse_run_even_when_valid_length_zero() {
    let data_runs = vec![0x01, 0x08, 0x00];
    let resident = NonResidentHeader {
        vnc_first: 0,
        vnc_last: 0,
        datarun_offset: 0,
        unit_compression_size: 0,
        padding: 0,
        allocated_length: 4096,
        file_size: 4096,
        valid_data_length: 0,
        total_allocated: None,
    };
    let header = build_header(&resident, data_runs.len() as u32, 0);

    let parsed = NonResidentAttr::from_stream(&data_runs, &header, &resident).unwrap();

    assert_eq!(parsed.data_runs.len(), 1);
    assert_eq!(parsed.data_runs[0].run_type, RunType::Sparse);
    assert_eq!(parsed.data_runs[0].lcn_length, 8);
}

#[test]
fn returns_empty_when_mapping_pairs_section_empty() {
    let data: Vec<u8> = Vec::new();
    let resident = NonResidentHeader {
        vnc_first: 0,
        vnc_last: 0,
        datarun_offset: 8,
        unit_compression_size: 0,
        padding: 0,
        allocated_length: 0,
        file_size: 0,
        valid_data_length: 0,
        total_allocated: None,
    };
    let header = build_header(&resident, resident.datarun_offset as u32, 0);

    let parsed = NonResidentAttr::from_stream(&data, &header, &resident).unwrap();
    assert!(parsed.data_runs.is_empty());
}

#[test]
fn datarun_offset_past_record_is_an_error() {
    let resident = NonResidentHeader {
        vnc_first: 0,
        vnc_last: 0,
        datarun_offset: 0x50,
        unit_compression_size: 0,
        padding: 0,
        allocated_length: 0,
        file_size: 0,
        valid_data_length: 0,
        total_allocated: None,
    };
    let header = build_header(&resident, 0x40, 0);
    let r = NonResidentAttr::from_stream(&[0u8; 0x60], &header, &resident);
    assert!(matches!(r, Err(Error::DataRunOffsetOutOfRange { datarun_offset: 0x50, record_length: 0x40 })));
}

#[test]
fn malformed_runs_are_reported_with_their_bytes() {
    let bytes = vec![0x21, 0x18, 0x34];
    let resident = NonResidentHeader {
        vnc_first: 0,
        vnc_last: 0,
        datarun_offset: 0,
        unit_compression_size: 0,
        padding: 0,
        allocated_length: 0,
        file_size: 0,
        valid_data_length: 0,
        total_allocated: None,
    };
    let header = build_header(&resident, 3, 0);
    match NonResidentAttr::from_stream(&bytes, &header, &resident) {
        Err(Error::FailedToDecodeDataRuns { bad_data_runs }) => assert_eq!(bad_data_runs, bytes),
        other => panic!("unexpected {:?}", other),
    }
}

#[test]
fn header_attribute_test_01_resident() {
    let raw: &[u8] = &[
        0x10, 0x00, 0x00, 0x00, 0x60, 0x00, 0x00, 0x00, 0x00, 0x00, 0x00, 0x00, 0x00, 0x00,
        0x00, 0x00, 0x48, 0x00, 0x00, 0x00, 0x18, 0x00, 0x00, 0x00,
    ];

    let attribute_header = MftAttributeHeader::from_stream(raw, 0)
        .expect("Should not be $End")
        .expect("Shold parse correctly");

    assert_eq!(attribute_header.type_code, MftAttributeType::StandardInformation);
    assert_eq!(attribute_header.record_length, 96);
    assert_eq!(attribute_header.form_code, 0);
    assert_eq!(attribute_header.name_size, 0);
    assert_eq!(attribute_header.name_offset, None);
}

#[test]
fn header_attribute_test_01_nonresident() {
    let raw: &[u8] = &[
        0x80, 0x00, 0x00, 0x00, 0x50, 0x00, 0x00, 0x00, 0x01, 0x00, 0x40, 0x00, 0x00, 0x00,
        0x06, 0x00, 0x00, 0x00, 0x00, 0x00, 0x00, 0x00, 0x00, 0x00, 0xBF, 0x1E, 0x01, 0x00,
        0x00, 0x00, 0x00, 0x00, 0x40, 0x00, 0x00, 0x00, 0x00, 0x00, 0x00, 0x00, 0x00, 0x00,
        0xEC, 0x11, 0x00, 0x00, 0x00, 0x00, 0x00, 0x00, 0xEC, 0x11, 0x00, 0x00, 0x00, 0x00,
        0x00, 0x00, 0xEC, 0x11, 0x00, 0x00, 0x00, 0x00, 0x33, 0x20, 0xC8, 0x00, 0x00, 0x00,
        0x0C, 0x32, 0xA0, 0x56, 0xE3, 0xE6, 0x24, 0x00, 0xFF, 0xFF,
    ];

    let attribute_header = MftAttributeHeader::from_stream(raw, 0)
        .expect("Should not be $End")
        .expect("Shold parse correctly");

    assert_eq!(attribute_header.type_code, MftAttributeType::DATA);
    assert_eq!(attribute_header.record_length, 80);
    assert_eq!(attribute_header.form_code, 1);
    assert_eq!(attribute_header.name_size, 0);
    assert_eq!(attribute_header.name_offset, None);
    match attribute_header.residential_header {
        ResidentialHeader::NonResident(nr) => {
            assert_eq!(nr.vnc_last, 0x11EBF);
            assert_eq!(nr.datarun_offset, 0x40);
            assert_eq!(nr.file_size, 0x11EC0000);
            assert_eq!(nr.total_allocated, None);
        }
        _ => panic!("expected a non-resident header"),
    }
}

#[test]
fn end_marker_ends_the_list() {
    let raw: &[u8] = &[0xFF, 0xFF, 0xFF, 0xFF, 0x00, 0x00];
    assert!(matches!(MftAttributeHeader::from_stream(raw, 0), Ok(None)));
}

#[test]
fn unknown_attribute_type_is_an_error() {
    let mut raw = vec![0u8; 24];
    raw[0] = 0x11;
    assert!(matches!(
        MftAttributeHeader::from_stream(&raw, 0),
        Err(Error::UnknownAttributeType { attribute_type: 0x11 })
    ));
}

#[test]
fn bad_form_code_is_an_error() {
    let mut raw = vec![0u8; 24];
    raw[0] = 0x10;
    raw[8] = 2;
    assert!(matches!(
        MftAttributeHeader::from_stream(&raw, 0),
        Err(Error::UnhandledResidentFlag { flag: 2, offset: 16 })
    ));
}

#[test]
fn truncated_header_is_an_io_error() {
    let raw: &[u8] = &[0x10, 0x00, 0x00, 0x00, 0x60, 0x00];
    assert!(matches!(MftAttributeHeader::from_stream(raw, 0), Err(Error::IoError)));
}

#[test]
fn attribute_name_is_decoded_at_its_offset() {
    // A resident $DATA attribute named "ads", the name at offset 0x18 of the record,
    // the record itself at offset 8 of the buffer.
    let mut raw = vec![0u8; 8];
    raw.extend_from_slice(&[
        0x80, 0x00, 0x00, 0x00, 0x28, 0x00, 0x00, 0x00, 0x00, 0x03, 0x18, 0x00, 0x00, 0x00,
        0x01, 0x00, 0x02, 0x00, 0x00, 0x00, 0x20, 0x00, 0x00, 0x00, b'a', 0x00, b'd', 0x00,
        b's', 0x00, 0x00, 0x00, 0x41, 0x42, 0x00, 0x00, 0x00, 0x00, 0x00, 0x00,
    ]);
    let h = MftAttributeHeader::from_stream(&raw, 8).unwrap().unwrap();
    assert_eq!(h.name, "ads");
    assert_eq!(h.name_offset, Some(0x18));
    assert_eq!(h.start_offset, 8);
    assert_eq!(h.instance, 1);
}

#[test]
fn standard_info_example() {
    let attribute_buffer: &[u8] = &[
        0x2F, 0x6D, 0xB6, 0x6F, 0x0C, 0x97, 0xCE, 0x01, 0x56, 0xCD, 0x1A, 0x75, 0x73, 0xB5, 0xCE, 0x01,
        0x56, 0xCD, 0x1A, 0x75, 0x73, 0xB5, 0xCE, 0x01, 0x56, 0xCD, 0x1A, 0x75, 0x73, 0xB5, 0xCE, 0x01,
        0x20, 0x00, 0x00, 0x00, 0x00, 0x00, 0x00, 0x00, 0x00, 0x00, 0x00, 0x00, 0x00, 0x00, 0x00, 0x00,
        0x00, 0x00, 0x00, 0x00, 0xB0, 0x05, 0x00, 0x00, 0x00, 0x00, 0x00, 0x00, 0x00, 0x00, 0x00, 0x00,
        0x68, 0x58, 0xA0, 0x0A, 0x02, 0x00, 0x00, 0x00,
    ];
    let attribute = StandardInfoAttr::from_reader(attribute_buffer, 0).unwrap();
    assert_eq!(attribute.created, 0x01CE970C6FB66D2F);
    assert_eq!(attribute.modified, 0x01CEB573751ACD56);
    assert_eq!(attribute.file_flags.bits(), 32);
    assert_eq!(attribute.max_version, 0);
    assert_eq!(attribute.version, 0);
    assert_eq!(attribute.class_id, 0);
    assert_eq!(attribute.security_id, 1456);
    assert_eq!(attribute.quota, 0);
    assert_eq!(attribute.usn, 8768215144);
    assert!(matches!(StandardInfoAttr::from_reader(&attribute_buffer[..71], 0), Err(Error::IoError)));
}

#[test]
fn file_name_example() {
    let attribute_buffer: &[u8] = &[
        0x05, 0x00, 0x00, 0x00, 0x00, 0x00, 0x05, 0x00, 0xD5, 0x2D, 0x48, 0x58, 0x43, 0x5F, 0xCE, 0x01,
        0xD5, 0x2D, 0x48, 0x58, 0x43, 0x5F, 0xCE, 0x01, 0xD5, 0x2D, 0x48, 0x58, 0x43, 0x5F, 0xCE, 0x01,
        0xD5, 0x2D, 0x48, 0x58, 0x43, 0x5F, 0xCE, 0x01, 0x00, 0x00, 0x00, 0x04, 0x00, 0x00, 0x00, 0x00,
        0x00, 0x00, 0x00, 0x04, 0x00, 0x00, 0x00, 0x00, 0x06, 0x00, 0x00, 0x00, 0x00, 0x00, 0x00, 0x00,
        0x08, 0x03, 0x24, 0x00, 0x4C, 0x00, 0x6F, 0x00, 0x67, 0x00, 0x46, 0x00, 0x69, 0x00, 0x6C, 0x00,
        0x65, 0x00, 0x00, 0x00, 0x00, 0x00, 0x00, 0x00,
    ];
    let attribute = FileNameAttr::from_stream(attribute_buffer, 0).unwrap();
    assert_eq!(attribute.parent.entry, 5);
    assert_eq!(attribute.parent.sequence, 5);
    assert_eq!(attribute.created, 0x01CE5F4358482DD5);
    assert_eq!(attribute.logical_size, 67108864);
    assert_eq!(attribute.physical_size, 67108864);
    assert_eq!(attribute.flags.bits(), 6);
    assert_eq!(attribute.reparse_value, 0);
    assert_eq!(attribute.name_length, 8);
    assert_eq!(attribute.namespace, FileNamespace::Win32AndDos);
    assert_eq!(attribute.name, "$LogFile");
}

#[test]
fn unknown_namespace_is_an_error() {
    let mut buffer = vec![0u8; 66];
    buffer[65] = 7;
    assert!(matches!(FileNameAttr::from_stream(&buffer, 0), Err(Error::UnknownNamespace { namespace: 7 })));
}

#[test]
fn attribute_list_example() {
    let attribute_content_buffer: &[u8] = &[
        0x10, 0x00, 0x00, 0x00, 0x20, 0x00, 0x00, 0x1A, 0x00, 0x00, 0x00, 0x00, 0x00, 0x00, 0x00, 0x00,
        0x23, 0x27, 0x00, 0x00, 0x00, 0x00, 0x01, 0x00, 0x00, 0x00, 0x12, 0x07, 0x80, 0xF8, 0xFF, 0xFF,
        0x30, 0x00, 0x00, 0x00, 0x20, 0x00, 0x00, 0x1A, 0x00, 0x00, 0x00, 0x00, 0x00, 0x00, 0x00, 0x00,
        0x23, 0x27, 0x00, 0x00, 0x00, 0x00, 0x01, 0x00, 0x03, 0x00, 0x00, 0x00, 0x69, 0x00, 0x6E, 0x00,
        0x30, 0x00, 0x00, 0x00, 0x20, 0x00, 0x00, 0x1A, 0x00, 0x00, 0x00, 0x00, 0x00, 0x00, 0x00, 0x00,
        0x0F, 0xCF, 0x01, 0x00, 0x00, 0x00, 0x02, 0x00, 0x00, 0x00, 0x8A, 0x0C, 0xA0, 0xF8, 0xFF, 0xFF,
        0x90, 0x00, 0x00, 0x00, 0x28, 0x00, 0x04, 0x1A, 0x00, 0x00, 0x00, 0x00, 0x00, 0x00, 0x00, 0x00,
        0x0F, 0xCF, 0x01, 0x00, 0x00, 0x00, 0x02, 0x00, 0x01, 0x00, 0x24, 0x00, 0x49, 0x00, 0x33, 0x00,
        0x30, 0x00, 0x79, 0x00, 0x73, 0x00, 0xAD, 0xEF, 0xA0, 0x00, 0x00, 0x00, 0x28, 0x00, 0x04, 0x1A,
        0x00, 0x00, 0x00, 0x00, 0x00, 0x00, 0x00, 0x00, 0x0F, 0xCF, 0x01, 0x00, 0x00, 0x00, 0x02, 0x00,
        0x02, 0x00, 0x24, 0x00, 0x49, 0x00, 0x33, 0x00, 0x30, 0x00, 0x00, 0x00, 0x00, 0x00, 0x78, 0x56,
        0xB0, 0x00, 0x00, 0x00, 0x28, 0x00, 0x04, 0x1A, 0x00, 0x00, 0x00, 0x00, 0x00, 0x00, 0x00, 0x00,
        0x0F, 0xCF, 0x01, 0x00, 0x00, 0x00, 0x02, 0x00, 0x03, 0x00, 0x24, 0x00, 0x49, 0x00, 0x33, 0x00,
        0x30, 0x00, 0x00, 0x00, 0x00, 0x00, 0x65, 0x00, 0x00, 0x01, 0x00, 0x00, 0x30, 0x00, 0x09, 0x1A,
        0x00, 0x00, 0x00, 0x00, 0x00, 0x00, 0x00, 0x00, 0x23, 0x27, 0x00, 0x00, 0x00, 0x00, 0x01, 0x00,
        0x08, 0x00, 0x24, 0x00, 0x54, 0x00, 0x58, 0x00, 0x46, 0x00, 0x5F, 0x00, 0x44, 0x00, 0x41, 0x00,
        0x54, 0x00, 0x41, 0x00, 0x00, 0x00, 0x00, 0x00,
    ];
    let list = AttributeListAttr::from_stream(attribute_content_buffer).unwrap();
    assert_eq!(list.entries.len(), 7);
    assert_eq!(list.entries[3].name, "$I30");
    assert_eq!(list.entries[6].name, "$TXF_DATA");
    assert_eq!(list.entries[6].attribute_type, 0x100);
}

#[test]
fn attribute_list_entry_example() {
    let attribute_buffer: &[u8] = &[
        0x10, 0x00, 0x00, 0x00, 0x20, 0x00, 0x00, 0x1A, 0x00, 0x00, 0x00, 0x00, 0x00, 0x00, 0x00, 0x00,
        0x23, 0x27, 0x00, 0x00, 0x00, 0x00, 0x01, 0x00, 0x00, 0x00, 0x12, 0x07, 0x80, 0xF8, 0xFF, 0xFF,
    ];
    let attribute_entry = AttributeListEntry::from_stream(attribute_buffer, 0).unwrap();
    assert_eq!(attribute_entry.attribute_type, 16);
    assert_eq!(attribute_entry.record_length, 32);
    assert_eq!(attribute_entry.name_length, 0);
    assert_eq!(attribute_entry.name_offset, 26);
    assert_eq!(attribute_entry.lowest_vcn, 0);
    assert_eq!(attribute_entry.segment_reference.entry, 10019);
    assert_eq!(attribute_entry.segment_reference.sequence, 1);
    assert_eq!(attribute_entry.reserved, 0);
    assert_eq!(attribute_entry.name, "");
}

#[test]
fn object_id_of_sixteen_bytes_is_one_guid() {
    let mut buffer: Vec<u8> = (0u8..64).collect();
    let one = ObjectIdAttr::from_stream(&buffer, 0, 16).unwrap();
    assert_eq!(one.object_id.data1, 0x03020100);
    assert_eq!(one.object_id.data2, 0x0504);
    assert_eq!(one.object_id.data4, [8, 9, 10, 11, 12, 13, 14, 15]);
    assert!(one.birth_volume_id.is_none());
    let four = ObjectIdAttr::from_stream(&buffer, 0, 64).unwrap();
    assert_eq!(four.domain_id.unwrap().data1, 0x33323130);
    buffer.truncate(40);
    assert!(matches!(ObjectIdAttr::from_stream(&buffer, 0, 64), Err(Error::IoError)));
}

#[test]
fn data_and_raw_content_are_copied() {
    let buffer = [1u8, 2, 3, 4, 5];
    let d = DataAttr::from_stream(&buffer, 1, 3).unwrap();
    assert_eq!(d.data(), &[2, 3, 4]);
    assert!(DataAttr::from_stream(&buffer, 3, 3).is_err());
    let r = RawAttribute::from_stream(&buffer, 2, MftAttributeType::BITMAP, 2).unwrap();
    assert_eq!(r.attribute_type, MftAttributeType::BITMAP);
    assert_eq!(r.data, vec![3, 4]);
}

#[test]
fn unknown_collation_is_an_error() {
    let mut buffer = vec![0u8; 48];
    buffer[4] = 0x05;
    assert!(matches!(
        IndexRootAttr::from_stream(&buffer, 0),
        Err(Error::UnknownCollationType { collation_type: 5 })
    ));
}

#[test]
fn index_root_with_no_entries() {
    let mut buffer = vec![0u8; 48];
    buffer[0] = 0x30;
    buffer[4] = 0x01;
    buffer[20] = 0x20;
    let root = IndexRootAttr::from_stream(&buffer, 0).unwrap();
    assert_eq!(root.attribute_type, 0x30);
    assert_eq!(root.collation_rule, IndexCollationRules::CollationFilename);
    assert_eq!(root.index_node_length, 0x20);
    assert!(root.index_entries.index_entries.is_empty());
}

#[test]
fn type_codes_map_to_types() {
    assert_eq!(MftAttributeType::from_u32(0x30), Some(MftAttributeType::FileName));
    assert_eq!(MftAttributeType::from_u32(0x100), Some(MftAttributeType::LoggedUtilityStream));
    assert_eq!(MftAttributeType::from_u32(0x35), None);
    assert_eq!(AttributeDataFlags::from_bits_truncate(0xFFFF).bits, 0xC0FF);
}
