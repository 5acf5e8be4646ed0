//! Attributes: their types, flags, headers and contents.
pub mod data_run;
pub mod header;
pub mod non_resident_attr;
pub mod raw;
pub mod x10;
pub mod x20;
pub mod x30;
pub mod x40;
pub mod x80;
pub mod x90;

use crate::attribute::header::{MftAttributeHeader, NonResidentHeader, ResidentHeader};
use crate::attribute::non_resident_attr::{non_resident_ok, NonResidentAttr};
use crate::attribute::raw::RawAttribute;
use crate::attribute::x10::{standard_info_at, StandardInfoAttr, STANDARD_INFO_LEN};
use crate::attribute::x20::{list_ok, list_walk_fits, AttributeListAttr};
use crate::attribute::x30::{file_name_len, namespace_of};
use crate::attribute::x90::{collation_of, index_walk_fits};
use crate::bytes::le_at;
use crate::attribute::x30::{file_name_ok, FileNameAttr};
use crate::attribute::x40::{object_id_ok, ObjectIdAttr};
use crate::attribute::x80::{read_bytes, DataAttr};
use crate::attribute::x90::{index_root_ok, IndexRootAttr};
use crate::bytes::in_bounds;
use crate::err::Error;
use vstd::prelude::*;

verus! {

/// The attribute types of NTFS.
#[derive(Debug, Copy, Clone, PartialEq, Eq, Structural)]
pub enum MftAttributeType {
    /// File attributes, time stamps and the hard link count.
    StandardInformation,
    /// Where the attributes of a file spread over several entries lie.
    AttributeList,
    /// A name of the file and its parent directory.
    FileName,
    /// The 16-byte object identifier of the link-tracking service.
    ObjectId,
    SecurityDescriptor,
    VolumeName,
    VolumeInformation,
    /// The contents of the file.
    DATA,
    IndexRoot,
    IndexAllocation,
    BITMAP,
    ReparsePoint,
    EaInformation,
    EA,
    LoggedUtilityStream,
}

/// The attribute type whose on-disk code is `v`.
pub open spec fn attribute_type_of(v: u32) -> Option<MftAttributeType> {
    if v == 0x10 {
        Some(MftAttributeType::StandardInformation)
    } else if v == 0x20 {
        Some(MftAttributeType::AttributeList)
    } else if v == 0x30 {
        Some(MftAttributeType::FileName)
    } else if v == 0x40 {
        Some(MftAttributeType::ObjectId)
    } else if v == 0x50 {
        Some(MftAttributeType::SecurityDescriptor)
    } else if v == 0x60 {
        Some(MftAttributeType::VolumeName)
    } else if v == 0x70 {
        Some(MftAttributeType::VolumeInformation)
    } else if v == 0x80 {
        Some(MftAttributeType::DATA)
    } else if v == 0x90 {
        Some(MftAttributeType::IndexRoot)
    } else if v == 0xA0 {
        Some(MftAttributeType::IndexAllocation)
    } else if v == 0xB0 {
        Some(MftAttributeType::BITMAP)
    } else if v == 0xC0 {
        Some(MftAttributeType::ReparsePoint)
    } else if v == 0xD0 {
        Some(MftAttributeType::EaInformation)
    } else if v == 0xE0 {
        Some(MftAttributeType::EA)
    } else if v == 0x100 {
        Some(MftAttributeType::LoggedUtilityStream)
    } else {
        None
    }
}

impl MftAttributeType {
    pub fn from_u32(v: u32) -> (r: Option<MftAttributeType>)
        ensures
            r == attribute_type_of(v),
    {
        if v == 0x10 {
            Some(MftAttributeType::StandardInformation)
        } else if v == 0x20 {
            Some(MftAttributeType::AttributeList)
        } else if v == 0x30 {
            Some(MftAttributeType::FileName)
        } else if v == 0x40 {
            Some(MftAttributeType::ObjectId)
        } else if v == 0x50 {
            Some(MftAttributeType::SecurityDescriptor)
        } else if v == 0x60 {
            Some(MftAttributeType::VolumeName)
        } else if v == 0x70 {
            Some(MftAttributeType::VolumeInformation)
        } else if v == 0x80 {
            Some(MftAttributeType::DATA)
        } else if v == 0x90 {
            Some(MftAttributeType::IndexRoot)
        } else if v == 0xA0 {
            Some(MftAttributeType::IndexAllocation)
        } else if v == 0xB0 {
            Some(MftAttributeType::BITMAP)
        } else if v == 0xC0 {
            Some(MftAttributeType::ReparsePoint)
        } else if v == 0xD0 {
            Some(MftAttributeType::EaInformation)
        } else if v == 0xE0 {
            Some(MftAttributeType::EA)
        } else if v == 0x100 {
            Some(MftAttributeType::LoggedUtilityStream)
        } else {
            None
        }
    }
}

/// The data flags of an attribute header, keeping only the defined bits.
#[derive(Debug, Copy, Clone, PartialEq, Eq, Structural)]
pub struct AttributeDataFlags {
    pub bits: u16,
}

impl AttributeDataFlags {
    pub const IS_COMPRESSED: u16 = 0x0001;
    pub const COMPRESSION_MASK: u16 = 0x00FF;
    pub const ENCRYPTED: u16 = 0x4000;
    pub const SPARSE: u16 = 0x8000;

    pub fn from_bits_truncate(bits: u16) -> (r: AttributeDataFlags)
        ensures
            r.bits == bits & 0xC0FF,
    {
        AttributeDataFlags { bits: bits & 0xC0FF }
    }

    pub fn empty() -> (r: AttributeDataFlags)
        ensures
            r.bits == 0,
    {
        AttributeDataFlags { bits: 0 }
    }
}

/// The DOS-style file attribute flags, keeping only the defined bits.
#[derive(Debug, Copy, Clone, PartialEq, Eq, Structural)]
pub struct FileAttributeFlags {
    pub bits: u32,
}

/// Every bit that `FileAttributeFlags` defines.
pub const FILE_ATTRIBUTE_MASK: u32 = 0x3006_FFF7;

impl FileAttributeFlags {
    pub const FILE_ATTRIBUTE_READONLY: u32 = 0x0000_0001;
    pub const FILE_ATTRIBUTE_HIDDEN: u32 = 0x0000_0002;
    pub const FILE_ATTRIBUTE_SYSTEM: u32 = 0x0000_0004;
    pub const FILE_ATTRIBUTE_DIRECTORY: u32 = 0x0000_0010;
    pub const FILE_ATTRIBUTE_ARCHIVE: u32 = 0x0000_0020;
    pub const FILE_ATTRIBUTE_DEVICE: u32 = 0x0000_0040;
    pub const FILE_ATTRIBUTE_NORMAL: u32 = 0x0000_0080;
    pub const FILE_ATTRIBUTE_TEMPORARY: u32 = 0x0000_0100;
    pub const FILE_ATTRIBUTE_SPARSE_FILE: u32 = 0x0000_0200;
    pub const FILE_ATTRIBUTE_REPARSE_POINT: u32 = 0x0000_0400;
    pub const FILE_ATTRIBUTE_COMPRESSED: u32 = 0x0000_0800;
    pub const FILE_ATTRIBUTE_OFFLINE: u32 = 0x0000_1000;
    pub const FILE_ATTRIBUTE_NOT_CONTENT_INDEXED: u32 = 0x0000_2000;
    pub const FILE_ATTRIBUTE_ENCRYPTED: u32 = 0x0000_4000;
    pub const FILE_ATTRIBUTE_INTEGRITY_STREAM: u32 = 0x0000_8000;
    pub const FILE_ATTRIBUTE_NO_SCRUB_DATA: u32 = 0x0002_0000;
    pub const FILE_ATTRIBUTE_HAS_EA: u32 = 0x0004_0000;
    pub const FILE_ATTRIBUTE_IS_DIRECTORY: u32 = 0x1000_0000;
    pub const FILE_ATTRIBUTE_INDEX_VIEW: u32 = 0x2000_0000;

    pub fn from_bits_truncate(bits: u32) -> (r: FileAttributeFlags)
        ensures
            r.bits == bits & FILE_ATTRIBUTE_MASK,
    {
        FileAttributeFlags { bits: bits & FILE_ATTRIBUTE_MASK }
    }

    pub fn bits(&self) -> (r: u32)
        ensures
            r == self.bits,
    {
        self.bits
    }
}


/// One decoded attribute of an entry.
#[derive(Debug, Clone)]
pub struct MftAttribute {
    pub header: MftAttributeHeader,
    pub data: MftAttributeContent,
}

/// The content of an attribute, by its type and residency.
#[derive(Debug, Clone)]
pub enum MftAttributeContent {
    Raw(RawAttribute),
    AttrX10(StandardInfoAttr),
    AttrX20(AttributeListAttr),
    AttrX30(FileNameAttr),
    AttrX40(ObjectIdAttr),
    AttrX80(DataAttr),
    AttrX90(IndexRootAttr),
    DataRun(NonResidentAttr),
    /// No content.
    Empty,
}

/// The file name in a content result, for the decoder's own outcome predicate.
pub open spec fn as_file_name(r: Result<MftAttributeContent, Error>) -> Result<FileNameAttr, Error> {
    match r {
        Ok(MftAttributeContent::AttrX30(a)) => Ok(a),
        Ok(_) => Err(Error::FailedToReadEntrySize),
        Err(e) => Err(e),
    }
}

pub open spec fn as_object_id(r: Result<MftAttributeContent, Error>) -> Result<ObjectIdAttr, Error> {
    match r {
        Ok(MftAttributeContent::AttrX40(a)) => Ok(a),
        Ok(_) => Err(Error::FailedToReadEntrySize),
        Err(e) => Err(e),
    }
}

pub open spec fn as_index_root(r: Result<MftAttributeContent, Error>) -> Result<IndexRootAttr, Error> {
    match r {
        Ok(MftAttributeContent::AttrX90(a)) => Ok(a),
        Ok(_) => Err(Error::FailedToReadEntrySize),
        Err(e) => Err(e),
    }
}

pub open spec fn as_runs(r: Result<MftAttributeContent, Error>) -> Result<NonResidentAttr, Error> {
    match r {
        Ok(MftAttributeContent::DataRun(a)) => Ok(a),
        Ok(_) => Err(Error::FailedToReadEntrySize),
        Err(e) => Err(e),
    }
}

/// What decoding the content of a resident attribute of type `t` whose value of
/// `size` bytes starts at `p` of `s` gives.
pub open spec fn resident_content_ok(
    r: Result<MftAttributeContent, Error>,
    s: Seq<u8>,
    p: int,
    t: MftAttributeType,
    size: u32,
) -> bool {
    match t {
        MftAttributeType::StandardInformation => if in_bounds(s, p, STANDARD_INFO_LEN as int) {
            r == Ok::<MftAttributeContent, Error>(MftAttributeContent::AttrX10(standard_info_at(s, p)))
        } else {
            r is Err && r->Err_0 is IoError
        },
        MftAttributeType::AttributeList => if !in_bounds(s, p, size as int) {
            r is Err && r->Err_0 is IoError
        } else {
            let content = s.subrange(p, p + size);
            &&& r matches Ok(MftAttributeContent::AttrX20(a)) ==> list_ok(a.entries@, content, 0, size as int)
            &&& r is Ok ==> r->Ok_0 is AttrX20
            &&& list_walk_fits(content, 0, size as int) ==> r is Ok
            &&& !list_walk_fits(content, 0, size as int) ==> r is Err && r->Err_0 is IoError
        },
        MftAttributeType::FileName => (r is Ok ==> r->Ok_0 is AttrX30) && file_name_ok(as_file_name(r), s, p),
        MftAttributeType::DATA => if in_bounds(s, p, size as int) {
            r matches Ok(MftAttributeContent::AttrX80(d)) && d.0@ == s.subrange(p, p + size)
        } else {
            r is Err && r->Err_0 is IoError
        },
        MftAttributeType::ObjectId => (r is Ok ==> r->Ok_0 is AttrX40) && object_id_ok(as_object_id(r), s, p, size as usize),
        MftAttributeType::IndexRoot => (r is Ok ==> r->Ok_0 is AttrX90) && index_root_ok(as_index_root(r), s, p),
        _ => if in_bounds(s, p, size as int) {
            r matches Ok(MftAttributeContent::Raw(a)) && a.attribute_type == t && a.data@ == s.subrange(p, p + size)
        } else {
            r is Err && r->Err_0 is IoError
        },
    }
}

/// The value of a resident attribute of type `t` and `size` bytes at `p` of `s` decodes.
pub open spec fn resident_decodes(s: Seq<u8>, p: int, t: MftAttributeType, size: u32) -> bool {
    match t {
        MftAttributeType::StandardInformation => in_bounds(s, p, STANDARD_INFO_LEN as int),
        MftAttributeType::AttributeList => in_bounds(s, p, size as int) && list_walk_fits(
            s.subrange(p, p + size),
            0,
            size as int,
        ),
        MftAttributeType::FileName => in_bounds(s, p, 66) && namespace_of(s[p + 65]) is Some
            && in_bounds(s, p, file_name_len(s, p)),
        MftAttributeType::DATA => in_bounds(s, p, size as int),
        MftAttributeType::ObjectId => in_bounds(
            s,
            p,
            if size == 16 {
                16
            } else {
                64
            },
        ),
        MftAttributeType::IndexRoot => in_bounds(s, p, 32) && collation_of(le_at(s, p + 4, 4) as u32)
            is Some && index_walk_fits(s, p + 32, p + 16 + le_at(s, p + 20, 4)),
        _ => in_bounds(s, p, size as int),
    }
}

pub proof fn lemma_resident_outcome(
    r: Result<MftAttributeContent, Error>,
    s: Seq<u8>,
    p: int,
    t: MftAttributeType,
    size: u32,
)
    requires
        resident_content_ok(r, s, p, t, size),
    ensures
        r is Ok <==> resident_decodes(s, p, t, size),
{
}

impl MftAttributeContent {
    /// Decodes the runs of a non-resident attribute.
    pub fn from_stream_non_resident(data: &[u8], header: &MftAttributeHeader, resident: &NonResidentHeader) -> (r: Result<MftAttributeContent, Error>)
        ensures
            r is Ok ==> r->Ok_0 is DataRun,
            non_resident_ok(as_runs(r), data@, header.start_offset as int, header.record_length, resident.datarun_offset),
    {
        match NonResidentAttr::from_stream(data, header, resident) {
            Ok(a) => Ok(MftAttributeContent::DataRun(a)),
            Err(e) => Err(e),
        }
    }

    /// Decodes the value of a resident attribute, which starts `data_offset` bytes into
    /// the record, by the attribute's type.
    pub fn from_stream_resident(data: &[u8], header: &MftAttributeHeader, resident: &ResidentHeader) -> (r: Result<MftAttributeContent, Error>)
        ensures
            resident_content_ok(
                r,
                data@,
                header.start_offset + resident.data_offset,
                header.type_code,
                resident.data_size,
            ),
    {
        let size = resident.data_size as usize;
        if header.start_offset > data.len() as u64 || resident.data_offset as u64 > data.len() as u64
            - header.start_offset {
            let r = Err(Error::IoError);
            proof {
                let p = header.start_offset + resident.data_offset;
                assert(!in_bounds(data@, p, 0));
            }
            return r;
        }
        let pos = header.start_offset as usize + resident.data_offset as usize;
        match header.type_code {
            MftAttributeType::StandardInformation => match StandardInfoAttr::from_reader(data, pos) {
                Ok(a) => Ok(MftAttributeContent::AttrX10(a)),
                Err(e) => Err(e),
            },
            MftAttributeType::AttributeList => {
                let content = match read_bytes(data, pos, size) {
                    Some(c) => c,
                    None => {
                        return Err(Error::IoError);
                    },
                };
                match AttributeListAttr::from_stream(content.as_slice()) {
                    Ok(a) => Ok(MftAttributeContent::AttrX20(a)),
                    Err(e) => Err(e),
                }
            },
            MftAttributeType::FileName => match FileNameAttr::from_stream(data, pos) {
                Ok(a) => Ok(MftAttributeContent::AttrX30(a)),
                Err(e) => Err(e),
            },
            MftAttributeType::DATA => match DataAttr::from_stream(data, pos, size) {
                Ok(a) => Ok(MftAttributeContent::AttrX80(a)),
                Err(e) => Err(e),
            },
            MftAttributeType::ObjectId => match ObjectIdAttr::from_stream(data, pos, size) {
                Ok(a) => Ok(MftAttributeContent::AttrX40(a)),
                Err(e) => Err(e),
            },
            MftAttributeType::IndexRoot => match IndexRootAttr::from_stream(data, pos) {
                Ok(a) => Ok(MftAttributeContent::AttrX90(a)),
                Err(e) => Err(e),
            },
            _ => match RawAttribute::from_stream(data, pos, header.type_code, size) {
                Ok(a) => Ok(MftAttributeContent::Raw(a)),
                Err(e) => Err(e),
            },
        }
    }

    pub fn into_attribute_list(self) -> (r: Option<AttributeListAttr>)
        ensures
            r == (match self {
                MftAttributeContent::AttrX20(c) => Some(c),
                _ => None::<AttributeListAttr>,
            }),
    {
        match self {
            MftAttributeContent::AttrX20(content) => Some(content),
            _ => None,
        }
    }

    pub fn into_index_root(self) -> (r: Option<IndexRootAttr>)
        ensures
            r == (match self {
                MftAttributeContent::AttrX90(c) => Some(c),
                _ => None::<IndexRootAttr>,
            }),
    {
        match self {
            MftAttributeContent::AttrX90(content) => Some(content),
            _ => None,
        }
    }

    pub fn into_object_id(self) -> (r: Option<ObjectIdAttr>)
        ensures
            r == (match self {
                MftAttributeContent::AttrX40(c) => Some(c),
                _ => None::<ObjectIdAttr>,
            }),
    {
        match self {
            MftAttributeContent::AttrX40(content) => Some(content),
            _ => None,
        }
    }

    pub fn into_standard_info(self) -> (r: Option<StandardInfoAttr>)
        ensures
            r == (match self {
                MftAttributeContent::AttrX10(c) => Some(c),
                _ => None::<StandardInfoAttr>,
            }),
    {
        match self {
            MftAttributeContent::AttrX10(content) => Some(content),
            _ => None,
        }
    }

    pub fn into_data(self) -> (r: Option<DataAttr>)
        ensures
            r == (match self {
                MftAttributeContent::AttrX80(c) => Some(c),
                _ => None::<DataAttr>,
            }),
    {
        match self {
            MftAttributeContent::AttrX80(content) => Some(content),
            _ => None,
        }
    }

    pub fn into_file_name(self) -> (r: Option<FileNameAttr>)
        ensures
            r == (match self {
                MftAttributeContent::AttrX30(c) => Some(c),
                _ => None::<FileNameAttr>,
            }),
    {
        match self {
            MftAttributeContent::AttrX30(content) => Some(content),
            _ => None,
        }
    }

    pub fn into_data_runs(self) -> (r: Option<NonResidentAttr>)
        ensures
            r == (match self {
                MftAttributeContent::DataRun(c) => Some(c),
                _ => None::<NonResidentAttr>,
            }),
    {
        match self {
            MftAttributeContent::DataRun(content) => Some(content),
            _ => None,
        }
    }
}

} // verus!
