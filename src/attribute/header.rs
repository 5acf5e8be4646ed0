//! The common header of an attribute record and its resident / non-resident part.
use crate::attribute::{attribute_type_of, AttributeDataFlags, MftAttributeType};
use crate::bytes::{in_bounds, le_at, lemma_le_at_bound, lemma_pow256_values, read_u16, read_u32, read_u64};
use crate::err::Error;
use crate::utils::{read_utf16_string, utf16_name_at};
use vstd::prelude::*;

verus! {

/// The marker that ends the attribute list of an entry.
pub const END_MARKER: u32 = 0xFFFF_FFFF;

#[derive(Debug, Copy, Clone, PartialEq, Eq, Structural)]
pub struct ResidentHeader {
    /// The size of the attribute value, in bytes.
    pub data_size: u32,
    /// The offset to the value from the start of the attribute record.
    pub data_offset: u16,
    pub index_flag: u8,
    pub padding: u8,
}

#[derive(Debug, Copy, Clone, PartialEq, Eq)]
pub struct NonResidentHeader {
    /// The lowest virtual cluster number covered by this record.
    pub vnc_first: u64,
    /// The highest virtual cluster number covered by this record.
    pub vnc_last: u64,
    /// The offset of the mapping pairs from the start of the attribute record.
    pub datarun_offset: u16,
    pub unit_compression_size: u16,
    pub padding: u32,
    pub allocated_length: u64,
    pub file_size: u64,
    pub valid_data_length: u64,
    /// Present only when `unit_compression_size > 0`.
    pub total_allocated: Option<u64>,
}

#[derive(Debug, Clone)]
pub enum ResidentialHeader {
    Resident(ResidentHeader),
    NonResident(NonResidentHeader),
}

#[derive(Debug, Clone)]
pub struct MftAttributeHeader {
    pub type_code: MftAttributeType,
    /// The size of the whole attribute record; the next record starts this far on.
    pub record_length: u32,
    /// 0 for a resident attribute, 1 for a non-resident one.
    pub form_code: u8,
    pub residential_header: ResidentialHeader,
    /// The length of the name in UTF-16 units; 0 when there is none.
    pub name_size: u8,
    /// The offset of the name from the start of the record, when there is a name.
    pub name_offset: Option<u16>,
    pub data_flags: AttributeDataFlags,
    /// The unique instance of this attribute in the entry.
    pub instance: u16,
    pub name: String,
    /// Where the record starts; relative offsets are taken from here.
    pub start_offset: u64,
}

/// The resident part at `p` of `s`.
pub open spec fn resident_header_at(s: Seq<u8>, p: int) -> ResidentHeader {
    ResidentHeader {
        data_size: le_at(s, p, 4) as u32,
        data_offset: le_at(s, p + 4, 2) as u16,
        index_flag: s[p + 6],
        padding: s[p + 7],
    }
}

/// The length of the non-resident part at `p` of `s`.
pub open spec fn non_resident_len(s: Seq<u8>, p: int) -> int {
    if le_at(s, p + 18, 2) > 0 {
        56
    } else {
        48
    }
}

/// The non-resident part at `p` of `s`.
pub open spec fn non_resident_header_at(s: Seq<u8>, p: int) -> NonResidentHeader {
    NonResidentHeader {
        vnc_first: le_at(s, p, 8) as u64,
        vnc_last: le_at(s, p + 8, 8) as u64,
        datarun_offset: le_at(s, p + 16, 2) as u16,
        unit_compression_size: le_at(s, p + 18, 2) as u16,
        padding: le_at(s, p + 20, 4) as u32,
        allocated_length: le_at(s, p + 24, 8) as u64,
        file_size: le_at(s, p + 32, 8) as u64,
        valid_data_length: le_at(s, p + 40, 8) as u64,
        total_allocated: if le_at(s, p + 18, 2) > 0 {
            Some(le_at(s, p + 48, 8) as u64)
        } else {
            None
        },
    }
}

impl ResidentHeader {
    pub fn from_stream(data: &[u8], pos: usize) -> (r: Result<ResidentHeader, Error>)
        ensures
            in_bounds(data@, pos as int, 8) ==> r == Ok::<ResidentHeader, Error>(
                resident_header_at(data@, pos as int),
            ),
            !in_bounds(data@, pos as int, 8) ==> r is Err && r->Err_0 is IoError,
    {
        if pos > data.len() || data.len() - pos < 8 {
            return Err(Error::IoError);
        }
        Ok(ResidentHeader {
            data_size: read_u32(data, pos).unwrap(),
            data_offset: read_u16(data, pos + 4).unwrap(),
            index_flag: data[pos + 6],
            padding: data[pos + 7],
        })
    }
}

impl NonResidentHeader {
    pub fn from_stream(data: &[u8], pos: usize) -> (r: Result<NonResidentHeader, Error>)
        ensures
            in_bounds(data@, pos as int, 20) && in_bounds(
                data@,
                pos as int,
                non_resident_len(data@, pos as int),
            ) ==> r == Ok::<NonResidentHeader, Error>(non_resident_header_at(data@, pos as int)),
            !(in_bounds(data@, pos as int, 20) && in_bounds(
                data@,
                pos as int,
                non_resident_len(data@, pos as int),
            )) ==> r is Err && r->Err_0 is IoError,
    {
        if pos > data.len() || data.len() - pos < 48 {
            return Err(Error::IoError);
        }
        let unit_compression_size = read_u16(data, pos + 18).unwrap();
        let total_allocated = if unit_compression_size > 0 {
            if data.len() - pos < 56 {
                return Err(Error::IoError);
            }
            Some(read_u64(data, pos + 48).unwrap())
        } else {
            None
        };
        Ok(NonResidentHeader {
            vnc_first: read_u64(data, pos).unwrap(),
            vnc_last: read_u64(data, pos + 8).unwrap(),
            datarun_offset: read_u16(data, pos + 16).unwrap(),
            unit_compression_size,
            padding: read_u32(data, pos + 20).unwrap(),
            allocated_length: read_u64(data, pos + 24).unwrap(),
            file_size: read_u64(data, pos + 32).unwrap(),
            valid_data_length: read_u64(data, pos + 40).unwrap(),
            total_allocated,
        })
    }
}

/// The fixed fields of the attribute header at `p` of `s`, all but the name.
pub open spec fn header_fixed_fields_at(h: MftAttributeHeader, s: Seq<u8>, p: int) -> bool {
    &&& attribute_type_of(le_at(s, p, 4) as u32) == Some(h.type_code)
    &&& h.record_length == le_at(s, p + 4, 4)
    &&& h.form_code == s[p + 8]
    &&& h.name_size == s[p + 9]
    &&& h.name_offset == (if s[p + 9] > 0 {
        Some(le_at(s, p + 10, 2) as u16)
    } else {
        None
    })
    &&& h.data_flags.bits == (le_at(s, p + 12, 2) as u16) & 0xC0FF
    &&& h.instance == le_at(s, p + 14, 2)
    &&& h.start_offset == p
    &&& (if s[p + 8] == 0 {
        h.residential_header == ResidentialHeader::Resident(resident_header_at(s, p + 16))
    } else {
        h.residential_header == ResidentialHeader::NonResident(non_resident_header_at(s, p + 16))
    })
}

/// How many bytes the residency part at `p + 16` needs, by the form code at `p + 8`.
pub open spec fn residency_len(s: Seq<u8>, p: int) -> int {
    if s[p + 8] == 0 {
        8
    } else if in_bounds(s, p + 16, 20) {
        non_resident_len(s, p + 16)
    } else {
        20
    }
}

/// What decoding the attribute header at `p` of `s` gives: `Ok(None)` at the end marker.
pub open spec fn attribute_header_ok(r: Result<Option<MftAttributeHeader>, Error>, s: Seq<u8>, p: int) -> bool {
    if !in_bounds(s, p, 4) {
        r is Err && r->Err_0 is IoError
    } else if le_at(s, p, 4) == END_MARKER {
        r == Ok::<Option<MftAttributeHeader>, Error>(None)
    } else if attribute_type_of(le_at(s, p, 4) as u32) is None {
        r is Err && r->Err_0 == (Error::UnknownAttributeType { attribute_type: le_at(s, p, 4) as u32 })
    } else if !in_bounds(s, p, 16) {
        r is Err && r->Err_0 is IoError
    } else if s[p + 8] > 1 {
        r is Err && r->Err_0 == (Error::UnhandledResidentFlag { flag: s[p + 8], offset: (p + 16) as u64 })
    } else if !in_bounds(s, p + 16, residency_len(s, p)) {
        r is Err && r->Err_0 is IoError
    } else if s[p + 9] == 0 {
        r matches Ok(Some(h)) && header_fixed_fields_at(h, s, p) && h.name@ == Seq::<char>::empty()
    } else {
        match utf16_name_at(s, p + le_at(s, p + 10, 2), s[p + 9] as nat) {
            Err(()) => r is Err && r->Err_0 is IoError,
            Ok(None) => r is Err && r->Err_0 is InvalidAttributeName,
            Ok(Some(name)) => r matches Ok(Some(h)) && header_fixed_fields_at(h, s, p) && h.name@
                == name,
        }
    }
}

/// The attribute header at `p` of `s` decodes to a header (it is not the end marker
/// and does not fail).
pub open spec fn header_good(s: Seq<u8>, p: int) -> bool {
    &&& in_bounds(s, p, 16)
    &&& le_at(s, p, 4) != END_MARKER
    &&& attribute_type_of(le_at(s, p, 4) as u32) is Some
    &&& s[p + 8] <= 1
    &&& in_bounds(s, p + 16, residency_len(s, p))
    &&& (s[p + 9] == 0 || utf16_name_at(s, p + le_at(s, p + 10, 2), s[p + 9] as nat) matches Ok(
        Some(_),
    ))
}

/// The end marker stands at `p` of `s`.
pub open spec fn header_end(s: Seq<u8>, p: int) -> bool {
    in_bounds(s, p, 4) && le_at(s, p, 4) == END_MARKER
}

/// The type of the record at `p`, when its header decodes.
pub open spec fn record_type(s: Seq<u8>, p: int) -> MftAttributeType {
    attribute_type_of(le_at(s, p, 4) as u32)->Some_0
}

/// The length of the record at `p`.
pub open spec fn record_len(s: Seq<u8>, p: int) -> int {
    le_at(s, p + 4, 4) as int
}

/// Which of the three outcomes decoding a header has, in the terms above.
pub proof fn lemma_header_outcome(r: Result<Option<MftAttributeHeader>, Error>, s: Seq<u8>, p: int)
    requires
        attribute_header_ok(r, s, p),
    ensures
        (r matches Ok(Some(_))) <==> header_good(s, p),
        (r matches Ok(None)) <==> header_end(s, p),
        !(header_good(s, p) && header_end(s, p)),
        r matches Ok(Some(h)) ==> header_fixed_fields_at(h, s, p) && h.type_code == record_type(s, p)
            && h.record_length == record_len(s, p),
        le_at(s, p + 4, 4) < 0x1_0000_0000,
        le_at(s, p + 16, 4) < 0x1_0000_0000,
        le_at(s, p + 20, 2) < 0x1_0000,
        le_at(s, p + 32, 2) < 0x1_0000,
{
    lemma_pow256_values();
    lemma_le_at_bound(s, p + 4, 4);
    lemma_le_at_bound(s, p + 16, 4);
    lemma_le_at_bound(s, p + 20, 2);
    lemma_le_at_bound(s, p + 32, 2);
}

impl MftAttributeHeader {
    /// Decodes the attribute header at `pos` of `data`; `None` at the end marker.
    pub fn from_stream(data: &[u8], pos: usize) -> (r: Result<Option<MftAttributeHeader>, Error>)
        ensures
            attribute_header_ok(r, data@, pos as int),
    {
        let type_code_value = match read_u32(data, pos) {
            Some(v) => v,
            None => {
                return Err(Error::IoError);
            },
        };
        if type_code_value == END_MARKER {
            return Ok(None);
        }
        let type_code = match MftAttributeType::from_u32(type_code_value) {
            Some(t) => t,
            None => {
                return Err(Error::UnknownAttributeType { attribute_type: type_code_value });
            },
        };
        if data.len() - pos < 16 {
            return Err(Error::IoError);
        }
        let record_length = read_u32(data, pos + 4).unwrap();
        let resident_flag = data[pos + 8];
        let name_size = data[pos + 9];
        let raw_name_offset = read_u16(data, pos + 10).unwrap();
        let name_offset = if name_size > 0 {
            Some(raw_name_offset)
        } else {
            None
        };
        let data_flags = AttributeDataFlags::from_bits_truncate(read_u16(data, pos + 12).unwrap());
        let instance = read_u16(data, pos + 14).unwrap();
        let residential_header = if resident_flag == 0 {
            match ResidentHeader::from_stream(data, pos + 16) {
                Ok(h) => ResidentialHeader::Resident(h),
                Err(e) => {
                    return Err(e);
                },
            }
        } else if resident_flag == 1 {
            match NonResidentHeader::from_stream(data, pos + 16) {
                Ok(h) => ResidentialHeader::NonResident(h),
                Err(e) => {
                    return Err(e);
                },
            }
        } else {
            return Err(
                Error::UnhandledResidentFlag { flag: resident_flag, offset: pos as u64 + 16 },
            );
        };
        let name = if name_size > 0 {
            if raw_name_offset as usize > data.len() - pos {
                return Err(Error::IoError);
            }
            match read_utf16_string(data, pos + raw_name_offset as usize, name_size as usize) {
                Ok(n) => n,
                Err(true) => {
                    return Err(Error::IoError);
                },
                Err(false) => {
                    return Err(Error::InvalidAttributeName);
                },
            }
        } else {
            String::new()
        };
        Ok(
            Some(
                MftAttributeHeader {
                    type_code,
                    record_length,
                    form_code: resident_flag,
                    residential_header,
                    name_size,
                    name_offset,
                    data_flags,
                    instance,
                    name,
                    start_offset: pos as u64,
                },
            ),
        )
    }
}


/// Two attribute headers agree on every field, the name compared as text.
pub open spec fn same_header(a: MftAttributeHeader, b: MftAttributeHeader) -> bool {
    &&& a.type_code == b.type_code
    &&& a.record_length == b.record_length
    &&& a.form_code == b.form_code
    &&& a.residential_header == b.residential_header
    &&& a.name_size == b.name_size
    &&& a.name_offset == b.name_offset
    &&& a.data_flags == b.data_flags
    &&& a.instance == b.instance
    &&& a.name@ == b.name@
    &&& a.start_offset == b.start_offset
}

/// Decoding the attribute header at the same position of the same bytes twice gives
/// the same outcome: equal errors, the same end marker, or headers equal field by field.
pub proof fn lemma_attribute_header_pure(
    s: Seq<u8>,
    p: int,
    r1: Result<Option<MftAttributeHeader>, Error>,
    r2: Result<Option<MftAttributeHeader>, Error>,
)
    requires
        attribute_header_ok(r1, s, p),
        attribute_header_ok(r2, s, p),
    ensures
        r1 is Err <==> r2 is Err,
        r1 is Err ==> r1 == r2,
        r1 == Ok::<Option<MftAttributeHeader>, Error>(None) <==> r2 == Ok::<Option<MftAttributeHeader>, Error>(None),
        r1 matches Ok(Some(h1)) ==> (r2 matches Ok(Some(h2)) && same_header(h1, h2)),
{
    if r1 is Err && r1->Err_0 is IoError {
        assert(r2 is Err && r2->Err_0 is IoError);
    }
    if r1 is Err && r1->Err_0 is InvalidAttributeName {
        assert(r2 is Err && r2->Err_0 is InvalidAttributeName);
    }
}

} // verus!
