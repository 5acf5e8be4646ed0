//! $FILE_NAME.
use crate::attribute::{FileAttributeFlags, FILE_ATTRIBUTE_MASK};
use crate::bytes::{in_bounds, le_at, read_u32, read_u64};
use crate::err::Error;
use crate::reference::{reference_of, MftReference};
use crate::utils::{decode_utf16le_lossy, utf16le_lossy};
use vstd::prelude::*;

verus! {

/// The fixed part of a $FILE_NAME value, before the name.
pub const FILE_NAME_FIXED_LEN: usize = 66;

#[derive(Debug, Copy, Clone, PartialEq, Eq, Structural)]
pub enum FileNamespace {
    POSIX,
    Win32,
    DOS,
    Win32AndDos,
}

/// The namespace whose on-disk code is `v`.
pub open spec fn namespace_of(v: u8) -> Option<FileNamespace> {
    if v == 0 {
        Some(FileNamespace::POSIX)
    } else if v == 1 {
        Some(FileNamespace::Win32)
    } else if v == 2 {
        Some(FileNamespace::DOS)
    } else if v == 3 {
        Some(FileNamespace::Win32AndDos)
    } else {
        None
    }
}

impl FileNamespace {
    pub fn from_u8(v: u8) -> (r: Option<FileNamespace>)
        ensures
            r == namespace_of(v),
    {
        if v == 0 {
            Some(FileNamespace::POSIX)
        } else if v == 1 {
            Some(FileNamespace::Win32)
        } else if v == 2 {
            Some(FileNamespace::DOS)
        } else if v == 3 {
            Some(FileNamespace::Win32AndDos)
        } else {
            None
        }
    }
}

/// Time stamps are Windows FILETIME values: 100-nanosecond intervals since 1601-01-01 UTC.
#[derive(Debug, Clone, PartialEq)]
pub struct FileNameAttr {
    pub parent: MftReference,
    pub created: u64,
    pub modified: u64,
    pub mft_modified: u64,
    pub accessed: u64,
    pub logical_size: u64,
    pub physical_size: u64,
    pub flags: FileAttributeFlags,
    pub reparse_value: u32,
    pub name_length: u8,
    pub namespace: FileNamespace,
    pub name: String,
}

/// `a` holds the fields of the $FILE_NAME value at `p` of `s`.
pub open spec fn file_name_fields_at(a: FileNameAttr, s: Seq<u8>, p: int) -> bool {
    &&& a.parent == reference_of(le_at(s, p, 8) as u64)
    &&& a.created == le_at(s, p + 8, 8)
    &&& a.modified == le_at(s, p + 16, 8)
    &&& a.mft_modified == le_at(s, p + 24, 8)
    &&& a.accessed == le_at(s, p + 32, 8)
    &&& a.logical_size == le_at(s, p + 40, 8)
    &&& a.physical_size == le_at(s, p + 48, 8)
    &&& a.flags.bits == (le_at(s, p + 56, 4) as u32) & FILE_ATTRIBUTE_MASK
    &&& a.reparse_value == le_at(s, p + 60, 4)
    &&& a.name_length == s[p + 64]
    &&& namespace_of(s[p + 65]) == Some(a.namespace)
    &&& a.name@ == utf16le_lossy(s.subrange(p + 66, p + 66 + 2 * s[p + 64]))
}

/// The bytes a $FILE_NAME value at `p` of `s` spans, given its fixed part is there.
pub open spec fn file_name_len(s: Seq<u8>, p: int) -> int {
    66 + 2 * s[p + 64]
}

/// What decoding the $FILE_NAME value at `p` of `s` gives.
pub open spec fn file_name_ok(r: Result<FileNameAttr, Error>, s: Seq<u8>, p: int) -> bool {
    if !in_bounds(s, p, FILE_NAME_FIXED_LEN as int) {
        r is Err && r->Err_0 is IoError
    } else if namespace_of(s[p + 65]) is None {
        r is Err && r->Err_0 == (Error::UnknownNamespace { namespace: s[p + 65] })
    } else if !in_bounds(s, p, file_name_len(s, p)) {
        r is Err && r->Err_0 is IoError
    } else {
        r matches Ok(a) && file_name_fields_at(a, s, p)
    }
}

impl FileNameAttr {
    /// A copy of the attribute.
    pub fn duplicate(&self) -> (r: FileNameAttr)
        ensures
            r == *self,
    {
        FileNameAttr {
            parent: self.parent,
            created: self.created,
            modified: self.modified,
            mft_modified: self.mft_modified,
            accessed: self.accessed,
            logical_size: self.logical_size,
            physical_size: self.physical_size,
            flags: self.flags,
            reparse_value: self.reparse_value,
            name_length: self.name_length,
            namespace: self.namespace,
            name: self.name.clone(),
        }
    }

    /// Decodes the $FILE_NAME value at `pos` of `data`.
    pub fn from_stream(data: &[u8], pos: usize) -> (r: Result<FileNameAttr, Error>)
        ensures
            file_name_ok(r, data@, pos as int),
    {
        if pos > data.len() || data.len() - pos < FILE_NAME_FIXED_LEN {
            return Err(Error::IoError);
        }
        let parent = MftReference::from_u64(read_u64(data, pos).unwrap());
        let created = read_u64(data, pos + 8).unwrap();
        let modified = read_u64(data, pos + 16).unwrap();
        let mft_modified = read_u64(data, pos + 24).unwrap();
        let accessed = read_u64(data, pos + 32).unwrap();
        let logical_size = read_u64(data, pos + 40).unwrap();
        let physical_size = read_u64(data, pos + 48).unwrap();
        let flags = FileAttributeFlags::from_bits_truncate(read_u32(data, pos + 56).unwrap());
        let reparse_value = read_u32(data, pos + 60).unwrap();
        let name_length = data[pos + 64];
        let namespace_code = data[pos + 65];
        let namespace = match FileNamespace::from_u8(namespace_code) {
            Some(n) => n,
            None => {
                return Err(Error::UnknownNamespace { namespace: namespace_code });
            },
        };
        let name_bytes = 2 * name_length as usize;
        if data.len() - pos - FILE_NAME_FIXED_LEN < name_bytes {
            return Err(Error::IoError);
        }
        let start = pos + FILE_NAME_FIXED_LEN;
        let name = decode_utf16le_lossy(&data[start..start + name_bytes]);
        Ok(FileNameAttr {
            parent,
            created,
            modified,
            mft_modified,
            accessed,
            logical_size,
            physical_size,
            flags,
            reparse_value,
            name_length,
            namespace,
            name,
        })
    }
}

} // verus!
