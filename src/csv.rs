//! One flat row per entry, for tabular output.
use crate::attribute::header::ResidentialHeader;
use crate::attribute::{FileAttributeFlags, MftAttribute, MftAttributeContent, MftAttributeType};
use crate::entry::{EntryFlags, MftEntry};
use crate::err::Error;
use crate::mft::MftParser;
use crate::utils::push_char;
use vstd::prelude::*;

verus! {

/// Time stamps are Windows FILETIME values: 100-nanosecond intervals since 1601-01-01 UTC.
#[derive(Debug, Clone)]
pub struct FlatMftEntryWithName {
    pub signature: String,
    pub entry_id: u64,
    pub sequence: u16,
    pub base_entry_id: u64,
    pub base_entry_sequence: u16,
    pub hard_link_count: u16,
    pub flags: EntryFlags,
    pub used_entry_size: u32,
    pub total_entry_size: u32,
    /// The size of the file from its first $DATA attribute; 0 when there is none.
    pub file_size: u64,
    pub is_a_directory: bool,
    /// The `ALLOCATED` bit is off.
    pub is_deleted: bool,
    /// A $DATA attribute has a name.
    pub has_alternate_data_streams: bool,
    pub standard_info_flags: Option<FileAttributeFlags>,
    pub standard_info_last_modified: Option<u64>,
    pub standard_info_last_access: Option<u64>,
    pub standard_info_created: Option<u64>,
    pub file_name_flags: Option<FileAttributeFlags>,
    pub file_name_last_modified: Option<u64>,
    pub file_name_last_access: Option<u64>,
    pub file_name_created: Option<u64>,
    pub full_path: String,
}

/// The index of the first decoded attribute of type `t` at or after `i`, or the length.
pub open spec fn first_of_type(attrs: Seq<Result<MftAttribute, Error>>, t: MftAttributeType, i: int) -> int
    decreases attrs.len() - i,
{
    if i < 0 || i >= attrs.len() {
        attrs.len() as int
    } else if attrs[i] matches Ok(a) && a.header.type_code == t {
        i
    } else {
        first_of_type(attrs, t, i + 1)
    }
}

/// The size a $DATA attribute gives its file.
pub open spec fn data_size_of(a: MftAttribute) -> u64 {
    match a.header.residential_header {
        ResidentialHeader::Resident(r) => r.data_size as u64,
        ResidentialHeader::NonResident(nr) => nr.file_size,
    }
}

/// Some decoded $DATA attribute has a name.
pub open spec fn has_named_data(attrs: Seq<Result<MftAttribute, Error>>) -> bool {
    exists|i: int|
        0 <= i < attrs.len() && (#[trigger] attrs[i] matches Ok(a) && a.header.type_code
            == MftAttributeType::DATA && a.header.name@.len() > 0)
}

/// The ASCII upper case of a byte, as a character.
pub open spec fn upper_char(b: u8) -> char {
    if 97 <= b <= 122 {
        (b - 32) as char
    } else {
        b as char
    }
}

fn first_index_of_type(attrs: &Vec<Result<MftAttribute, Error>>, t: MftAttributeType) -> (r: usize)
    ensures
        r == first_of_type(attrs@, t, 0),
        r <= attrs@.len(),
{
    let mut i: usize = 0;
    while i < attrs.len()
        invariant
            i <= attrs@.len(),
            first_of_type(attrs@, t, 0) == first_of_type(attrs@, t, i as int),
        decreases attrs.len() - i,
    {
        match &attrs[i] {
            Ok(a) => {
                if a.header.type_code == t {
                    return i;
                }
            },
            Err(_) => {},
        }
        i = i + 1;
    }
    i
}

proof fn lemma_first_of_type_range(attrs: Seq<Result<MftAttribute, Error>>, t: MftAttributeType, i: int)
    requires
        0 <= i <= attrs.len(),
    ensures
        i <= first_of_type(attrs, t, i) <= attrs.len(),
        first_of_type(attrs, t, i) < attrs.len() ==> (attrs[first_of_type(attrs, t, i)] matches Ok(a)
            && a.header.type_code == t),
    decreases attrs.len() - i,
{
    if i < attrs.len() {
        lemma_first_of_type_range(attrs, t, i + 1);
    }
}

impl FlatMftEntryWithName {
    /// The row of `entry`, from its header, the attributes it decodes to and its path.
    pub fn from_attributes(entry: &MftEntry, attrs: &Vec<Result<MftAttribute, Error>>, full_path: String) -> (r: FlatMftEntryWithName)
        ensures
            r.signature@ == entry.header.signature@.map_values(|b: u8| upper_char(b)),
            r.entry_id == entry.header.record_number,
            r.sequence == entry.header.sequence,
            r.base_entry_id == entry.header.base_reference.entry,
            r.base_entry_sequence == entry.header.base_reference.sequence,
            r.hard_link_count == entry.header.hard_link_count,
            r.flags == entry.header.flags,
            r.used_entry_size == entry.header.used_entry_size,
            r.total_entry_size == entry.header.total_entry_size,
            r.is_a_directory == (entry.header.flags.bits & 0x02 != 0),
            r.is_deleted == (entry.header.flags.bits & 0x01 == 0),
            r.has_alternate_data_streams == has_named_data(attrs@),
            ({
                let d = first_of_type(attrs@, MftAttributeType::DATA, 0);
                r.file_size == if d < attrs@.len() {
                    data_size_of(attrs@[d]->Ok_0)
                } else {
                    0
                }
            }),
            ({
                let k = first_of_type(attrs@, MftAttributeType::StandardInformation, 0);
                if k < attrs@.len() && attrs@[k]->Ok_0.data is AttrX10 {
                    let si = attrs@[k]->Ok_0.data->AttrX10_0;
                    &&& r.standard_info_flags == Some(si.file_flags)
                    &&& r.standard_info_last_modified == Some(si.modified)
                    &&& r.standard_info_last_access == Some(si.accessed)
                    &&& r.standard_info_created == Some(si.created)
                } else {
                    &&& r.standard_info_flags is None
                    &&& r.standard_info_last_modified is None
                    &&& r.standard_info_last_access is None
                    &&& r.standard_info_created is None
                }
            }),
            ({
                let k = first_of_type(attrs@, MftAttributeType::FileName, 0);
                if k < attrs@.len() && attrs@[k]->Ok_0.data is AttrX30 {
                    let f = attrs@[k]->Ok_0.data->AttrX30_0;
                    &&& r.file_name_flags == Some(f.flags)
                    &&& r.file_name_last_modified == Some(f.modified)
                    &&& r.file_name_last_access == Some(f.accessed)
                    &&& r.file_name_created == Some(f.created)
                } else {
                    &&& r.file_name_flags is None
                    &&& r.file_name_last_modified is None
                    &&& r.file_name_last_access is None
                    &&& r.file_name_created is None
                }
            }),
            r.full_path@ == full_path@,
    {
        let h = &entry.header;
        let mut signature = String::new();
        let mut i: usize = 0;
        while i < 4
            invariant
                i <= 4,
                signature@ == h.signature@.take(i as int).map_values(|b: u8| upper_char(b)),
            decreases 4 - i,
        {
            let b = h.signature[i];
            let c = if 97 <= b && b <= 122 {
                (b - 32) as char
            } else {
                b as char
            };
            push_char(&mut signature, c);
            proof {
                assert(h.signature@.take(i + 1).map_values(|b: u8| upper_char(b)) =~= h.signature@.take(
                    i as int,
                ).map_values(|b: u8| upper_char(b)).push(c));
            }
            i = i + 1;
        }
        assert(h.signature@.take(4) =~= h.signature@);

        proof {
            lemma_first_of_type_range(attrs@, MftAttributeType::DATA, 0);
            lemma_first_of_type_range(attrs@, MftAttributeType::StandardInformation, 0);
            lemma_first_of_type_range(attrs@, MftAttributeType::FileName, 0);
        }
        let d = first_index_of_type(attrs, MftAttributeType::DATA);
        let file_size = if d < attrs.len() {
            match &attrs[d] {
                Ok(a) => match &a.header.residential_header {
                    ResidentialHeader::Resident(res) => res.data_size as u64,
                    ResidentialHeader::NonResident(nr) => nr.file_size,
                },
                Err(_) => 0,
            }
        } else {
            0
        };

        let mut has_ads = false;
        let mut j: usize = 0;
        while j < attrs.len()
            invariant
                j <= attrs@.len(),
                !has_ads ==> forall|k: int|
                    0 <= k < j ==> !(#[trigger] attrs@[k] matches Ok(a) && a.header.type_code
                        == MftAttributeType::DATA && a.header.name@.len() > 0),
                has_ads ==> has_named_data(attrs@),
            decreases attrs.len() - j,
        {
            match &attrs[j] {
                Ok(a) => {
                    if a.header.type_code == MftAttributeType::DATA && a.header.name.as_str().unicode_len()
                        > 0 {
                        assert(attrs@[j as int] matches Ok(x) && x.header.type_code
                            == MftAttributeType::DATA && x.header.name@.len() > 0);
                        has_ads = true;
                    }
                },
                Err(_) => {},
            }
            j = j + 1;
        }

        let s = first_index_of_type(attrs, MftAttributeType::StandardInformation);
        let (si_flags, si_modified, si_access, si_created) = if s < attrs.len() {
            match &attrs[s] {
                Ok(a) => match &a.data {
                    MftAttributeContent::AttrX10(si) => (
                        Some(si.file_flags),
                        Some(si.modified),
                        Some(si.accessed),
                        Some(si.created),
                    ),
                    _ => (None, None, None, None),
                },
                Err(_) => (None, None, None, None),
            }
        } else {
            (None, None, None, None)
        };

        let f = first_index_of_type(attrs, MftAttributeType::FileName);
        let (fn_flags, fn_modified, fn_access, fn_created) = if f < attrs.len() {
            match &attrs[f] {
                Ok(a) => match &a.data {
                    MftAttributeContent::AttrX30(n) => (
                        Some(n.flags),
                        Some(n.modified),
                        Some(n.accessed),
                        Some(n.created),
                    ),
                    _ => (None, None, None, None),
                },
                Err(_) => (None, None, None, None),
            }
        } else {
            (None, None, None, None)
        };

        FlatMftEntryWithName {
            signature,
            entry_id: h.record_number,
            sequence: h.sequence,
            base_entry_id: h.base_reference.entry,
            base_entry_sequence: h.base_reference.sequence,
            hard_link_count: h.hard_link_count,
            flags: h.flags,
            used_entry_size: h.used_entry_size,
            total_entry_size: h.total_entry_size,
            file_size,
            is_a_directory: h.flags.bits & 0x02 != 0,
            is_deleted: h.flags.bits & 0x01 == 0,
            has_alternate_data_streams: has_ads,
            standard_info_flags: si_flags,
            standard_info_last_modified: si_modified,
            standard_info_last_access: si_access,
            standard_info_created: si_created,
            file_name_flags: fn_flags,
            file_name_last_modified: fn_modified,
            file_name_last_access: fn_access,
            file_name_created: fn_created,
            full_path,
        }
    }

    /// The row of `entry`: its $FILE_NAME, $STANDARD_INFORMATION and $DATA attributes,
    /// and its full path (empty when it has none).
    pub fn from_entry(entry: &MftEntry, parser: &mut MftParser) -> (r: FlatMftEntryWithName)
        requires
            old(parser).wf(),
        ensures
            final(parser).wf(),
            r.entry_id == entry.header.record_number,
            r.is_deleted == (entry.header.flags.bits & 0x01 == 0),
            r.is_a_directory == (entry.header.flags.bits & 0x02 != 0),
    {
        let mut types: Vec<MftAttributeType> = Vec::new();
        types.push(MftAttributeType::FileName);
        types.push(MftAttributeType::StandardInformation);
        types.push(MftAttributeType::DATA);
        let attrs = entry.attributes_matching(Some(types));
        let full_path = match parser.get_full_path_for_entry(entry) {
            Ok(Some(p)) => p,
            _ => String::new(),
        };
        Self::from_attributes(entry, &attrs, full_path)
    }
}

} // verus!
