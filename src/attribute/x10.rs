//! $STANDARD_INFORMATION.
use crate::attribute::{FileAttributeFlags, FILE_ATTRIBUTE_MASK};
use crate::bytes::{in_bounds, le_at, read_u32, read_u64};
use crate::err::Error;
use vstd::prelude::*;

verus! {

/// The size of a $STANDARD_INFORMATION value.
pub const STANDARD_INFO_LEN: usize = 72;

/// Time stamps are Windows FILETIME values: 100-nanosecond intervals since 1601-01-01 UTC.
#[derive(Debug, Copy, Clone, PartialEq, Eq, Structural)]
pub struct StandardInfoAttr {
    pub created: u64,
    pub modified: u64,
    pub mft_modified: u64,
    pub accessed: u64,
    /// DOS file permissions.
    pub file_flags: FileAttributeFlags,
    pub max_version: u32,
    pub version: u32,
    pub class_id: u32,
    pub owner_id: u32,
    pub security_id: u32,
    pub quota: u64,
    pub usn: u64,
}

/// The $STANDARD_INFORMATION value at `p` of `s`.
pub open spec fn standard_info_at(s: Seq<u8>, p: int) -> StandardInfoAttr {
    StandardInfoAttr {
        created: le_at(s, p, 8) as u64,
        modified: le_at(s, p + 8, 8) as u64,
        mft_modified: le_at(s, p + 16, 8) as u64,
        accessed: le_at(s, p + 24, 8) as u64,
        file_flags: FileAttributeFlags { bits: (le_at(s, p + 32, 4) as u32) & FILE_ATTRIBUTE_MASK },
        max_version: le_at(s, p + 36, 4) as u32,
        version: le_at(s, p + 40, 4) as u32,
        class_id: le_at(s, p + 44, 4) as u32,
        owner_id: le_at(s, p + 48, 4) as u32,
        security_id: le_at(s, p + 52, 4) as u32,
        quota: le_at(s, p + 56, 8) as u64,
        usn: le_at(s, p + 64, 8) as u64,
    }
}

impl StandardInfoAttr {
    /// Decodes the value at `pos` of `data`.
    pub fn from_reader(data: &[u8], pos: usize) -> (r: Result<StandardInfoAttr, Error>)
        ensures
            in_bounds(data@, pos as int, STANDARD_INFO_LEN as int) ==> r == Ok::<
                StandardInfoAttr,
                Error,
            >(standard_info_at(data@, pos as int)),
            !in_bounds(data@, pos as int, STANDARD_INFO_LEN as int) ==> r is Err && r->Err_0 is IoError,
    {
        if pos > data.len() || data.len() - pos < STANDARD_INFO_LEN {
            return Err(Error::IoError);
        }
        Ok(StandardInfoAttr {
            created: read_u64(data, pos).unwrap(),
            modified: read_u64(data, pos + 8).unwrap(),
            mft_modified: read_u64(data, pos + 16).unwrap(),
            accessed: read_u64(data, pos + 24).unwrap(),
            file_flags: FileAttributeFlags::from_bits_truncate(read_u32(data, pos + 32).unwrap()),
            max_version: read_u32(data, pos + 36).unwrap(),
            version: read_u32(data, pos + 40).unwrap(),
            class_id: read_u32(data, pos + 44).unwrap(),
            owner_id: read_u32(data, pos + 48).unwrap(),
            security_id: read_u32(data, pos + 52).unwrap(),
            quota: read_u64(data, pos + 56).unwrap(),
            usn: read_u64(data, pos + 64).unwrap(),
        })
    }
}

} // verus!
