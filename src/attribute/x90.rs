//! $INDEX_ROOT and the index entries it holds.
use crate::attribute::x30::{file_name_fields_at, file_name_len, namespace_of, FileNameAttr, FILE_NAME_FIXED_LEN};
use crate::bytes::{in_bounds, le_at, read_u16, read_u32, read_u64};
use crate::err::Error;
use crate::reference::{reference_of, MftReference};
use vstd::prelude::*;

verus! {

/// The rule by which the entries of an index are sorted.
#[derive(Debug, Copy, Clone, PartialEq, Eq, Structural)]
pub enum IndexCollationRules {
    CollationBinary,
    CollationFilename,
    CollationUnicodeString,
    CollationNtofsUlong,
    CollationNtofsSid,
    CollationNtofsSecurityHash,
    CollationNtofsUlongs,
}

/// The collation rule whose on-disk code is `v`.
pub open spec fn collation_of(v: u32) -> Option<IndexCollationRules> {
    if v == 0x00 {
        Some(IndexCollationRules::CollationBinary)
    } else if v == 0x01 {
        Some(IndexCollationRules::CollationFilename)
    } else if v == 0x02 {
        Some(IndexCollationRules::CollationUnicodeString)
    } else if v == 0x10 {
        Some(IndexCollationRules::CollationNtofsUlong)
    } else if v == 0x11 {
        Some(IndexCollationRules::CollationNtofsSid)
    } else if v == 0x12 {
        Some(IndexCollationRules::CollationNtofsSecurityHash)
    } else if v == 0x13 {
        Some(IndexCollationRules::CollationNtofsUlongs)
    } else {
        None
    }
}

impl IndexCollationRules {
    pub fn from_u32(v: u32) -> (r: Option<IndexCollationRules>)
        ensures
            r == collation_of(v),
    {
        if v == 0x00 {
            Some(IndexCollationRules::CollationBinary)
        } else if v == 0x01 {
            Some(IndexCollationRules::CollationFilename)
        } else if v == 0x02 {
            Some(IndexCollationRules::CollationUnicodeString)
        } else if v == 0x10 {
            Some(IndexCollationRules::CollationNtofsUlong)
        } else if v == 0x11 {
            Some(IndexCollationRules::CollationNtofsSid)
        } else if v == 0x12 {
            Some(IndexCollationRules::CollationNtofsSecurityHash)
        } else if v == 0x13 {
            Some(IndexCollationRules::CollationNtofsUlongs)
        } else {
            None
        }
    }
}

/// 0: the index fits in the root; 1: an $INDEX_ALLOCATION is needed.
#[derive(Debug, Copy, Clone, PartialEq, Eq, Structural)]
pub struct IndexRootFlags {
    pub bits: u32,
}

impl IndexRootFlags {
    pub const SMALL_INDEX: u32 = 0x00;
    pub const LARGE_INDEX: u32 = 0x01;
}

#[derive(Debug, Copy, Clone, PartialEq, Eq, Structural)]
pub struct IndexEntryFlags {
    pub bits: u32,
}

impl IndexEntryFlags {
    pub const INDEX_ENTRY_NODE: u32 = 0x01;
    pub const INDEX_ENTRY_END: u32 = 0x02;
}

#[derive(Debug, Clone, PartialEq)]
pub struct IndexEntryHeader {
    pub mft_reference: MftReference,
    pub index_record_length: u16,
    pub attr_fname_length: u16,
    pub flags: IndexEntryFlags,
    pub fname_info: FileNameAttr,
}

#[derive(Debug, Clone)]
pub struct IndexEntries {
    pub index_entries: Vec<IndexEntryHeader>,
}

#[derive(Debug, Clone)]
pub struct IndexRootAttr {
    /// The type of the attribute that is indexed.
    pub attribute_type: u32,
    pub collation_rule: IndexCollationRules,
    pub index_entry_size: u32,
    pub index_entry_number_of_cluster_blocks: u32,
    pub relative_offset_to_index_node: u32,
    pub index_node_length: u32,
    pub index_node_allocation_length: u32,
    pub index_root_flags: IndexRootFlags,
    pub index_entries: IndexEntries,
}

/// Whether the reference at `p` of `s` names an entry (both numbers non-zero).
pub open spec fn names_entry(s: Seq<u8>, p: int) -> bool {
    let r = reference_of(le_at(s, p, 8) as u64);
    r.entry > 0 && r.sequence > 0
}

/// `e` is the index entry at `p` of `s`.
pub open spec fn index_entry_at(e: IndexEntryHeader, s: Seq<u8>, p: int) -> bool {
    &&& in_bounds(s, p, 16)
    &&& e.mft_reference == reference_of(le_at(s, p, 8) as u64)
    &&& e.index_record_length == le_at(s, p + 8, 2)
    &&& e.attr_fname_length == le_at(s, p + 10, 2)
    &&& e.flags.bits == (le_at(s, p + 12, 4) as u32) & 0x03
    &&& file_name_fields_at(e.fname_info, s, p + 16)
}

/// `entries` is the walk over the index entries of `s` from `p` to `end`; it stops at
/// `end`, at the first entry whose reference is zero, or after an entry of record
/// length 0.
pub open spec fn index_walk_ok(entries: Seq<IndexEntryHeader>, s: Seq<u8>, p: int, end: int) -> bool
    decreases walk_measure(p, end),
{
    if p >= end {
        entries.len() == 0
    } else if !in_bounds(s, p, 8) {
        false
    } else if !names_entry(s, p) {
        entries.len() == 0
    } else if entries.len() == 0 || !index_entry_at(entries[0], s, p) {
        false
    } else if entries[0].index_record_length == 0 {
        entries.len() == 1
    } else {
        index_walk_ok(entries.drop_first(), s, p + entries[0].index_record_length, end)
    }
}

pub open spec fn walk_measure(p: int, end: int) -> int {
    if p < end {
        end - p
    } else {
        0
    }
}

/// The index entry at `p` of `s` lies inside `s`, and so does its file name, whose
/// namespace is known.
pub open spec fn index_entry_fits(s: Seq<u8>, p: int) -> bool {
    &&& in_bounds(s, p, 16)
    &&& in_bounds(s, p + 16, FILE_NAME_FIXED_LEN as int)
    &&& namespace_of(s[p + 16 + 65]) is Some
    &&& in_bounds(s, p + 16, file_name_len(s, p + 16))
}

/// Every entry of the walk from `p` to `end` decodes.
pub open spec fn index_walk_fits(s: Seq<u8>, p: int, end: int) -> bool
    decreases walk_measure(p, end),
{
    if p >= end {
        true
    } else if !in_bounds(s, p, 8) {
        false
    } else if !names_entry(s, p) {
        true
    } else if !index_entry_fits(s, p) {
        false
    } else if le_at(s, p + 8, 2) == 0 {
        true
    } else {
        index_walk_fits(s, p + le_at(s, p + 8, 2), end)
    }
}

/// The errors that decoding index entries can give.
pub open spec fn index_error(e: Error) -> bool {
    e is IoError || e is UnknownNamespace
}

impl IndexEntryHeader {
    /// Decodes the index entry at `pos` of `data`; `None` when its reference is zero.
    pub fn from_stream(data: &[u8], pos: usize) -> (r: Result<Option<IndexEntryHeader>, Error>)
        ensures
            !in_bounds(data@, pos as int, 8) ==> r is Err && r->Err_0 is IoError,
            in_bounds(data@, pos as int, 8) && !names_entry(data@, pos as int) ==> r
                == Ok::<Option<IndexEntryHeader>, Error>(None),
            r matches Ok(None) ==> in_bounds(data@, pos as int, 8) && !names_entry(data@, pos as int),
            r matches Ok(Some(e)) ==> names_entry(data@, pos as int) && index_entry_at(e, data@, pos as int),
            in_bounds(data@, pos as int, 8) && names_entry(data@, pos as int) ==> (index_entry_fits(
                data@,
                pos as int,
            ) <==> r matches Ok(Some(_))),
            r matches Err(e) ==> index_error(e),
    {
        let mft_reference = match read_u64(data, pos) {
            Some(v) => MftReference::from_u64(v),
            None => {
                return Err(Error::IoError);
            },
        };
        if !(mft_reference.entry > 0 && mft_reference.sequence > 0) {
            return Ok(None);
        }
        if data.len() - pos < 16 {
            return Err(Error::IoError);
        }
        let index_record_length = read_u16(data, pos + 8).unwrap();
        let attr_fname_length = read_u16(data, pos + 10).unwrap();
        let flags = IndexEntryFlags { bits: read_u32(data, pos + 12).unwrap() & 0x03 };
        let fname_info = match FileNameAttr::from_stream(data, pos + 16) {
            Ok(f) => f,
            Err(e) => {
                return Err(e);
            },
        };
        Ok(Some(IndexEntryHeader { mft_reference, index_record_length, attr_fname_length, flags, fname_info }))
    }
}

impl IndexEntries {
    /// Walks the index entries from `pos` of `data` until `end`.
    pub fn from_stream(data: &[u8], pos: usize, end: u128) -> (r: Result<IndexEntries, Error>)
        ensures
            r matches Ok(es) ==> index_walk_ok(es.index_entries@, data@, pos as int, end as int),
            r is Ok <==> index_walk_fits(data@, pos as int, end as int),
            r matches Err(e) ==> index_error(e),
    {
        let ghost s = data@;
        let mut entries: Vec<IndexEntryHeader> = Vec::new();
        let mut p: usize = pos;
        while (p as u128) < end
            invariant
                s == data@,
                forall|rest: Seq<IndexEntryHeader>| #[trigger]
                    index_walk_ok(rest, s, p as int, end as int) ==> index_walk_ok(
                        entries@ + rest,
                        s,
                        pos as int,
                        end as int,
                    ),
                index_walk_fits(s, pos as int, end as int) == index_walk_fits(s, p as int, end as int),
            decreases walk_measure(p as int, end as int),
        {
            let entry = match IndexEntryHeader::from_stream(data, p) {
                Ok(Some(e)) => e,
                Ok(None) => {
                    proof {
                        assert(index_walk_ok(Seq::<IndexEntryHeader>::empty(), s, p as int, end as int));
                        assert(entries@ + Seq::<IndexEntryHeader>::empty() =~= entries@);
                    }
                    return Ok(IndexEntries { index_entries: entries });
                },
                Err(e) => {
                    return Err(e);
                },
            };
            let step = entry.index_record_length as usize;
            assert(index_walk_fits(s, p as int, end as int) == (step == 0 || index_walk_fits(
                s,
                p + step,
                end as int,
            )));
            let ghost before = entries@;
            let ghost e = entry;
            entries.push(entry);
            if step == 0 {
                proof {
                    assert(index_walk_ok(seq![e], s, p as int, end as int));
                    assert(before + seq![e] =~= entries@);
                }
                return Ok(IndexEntries { index_entries: entries });
            }
            proof {
                assert forall|rest: Seq<IndexEntryHeader>| #[trigger]
                    index_walk_ok(rest, s, p + step, end as int) implies index_walk_ok(
                    entries@ + rest,
                    s,
                    pos as int,
                    end as int,
                ) by {
                    let longer = seq![e] + rest;
                    assert(longer.drop_first() =~= rest);
                    assert(index_walk_ok(longer, s, p as int, end as int));
                    assert(before + longer =~= entries@ + rest);
                }
            }
            if step > data.len() - p {
                // The next entry would start past the end of the data.
                if (p as u128) + (step as u128) < end {
                    return Err(Error::IoError);
                }
                proof {
                    assert(index_walk_ok(Seq::<IndexEntryHeader>::empty(), s, p + step, end as int));
                    assert(entries@ + Seq::<IndexEntryHeader>::empty() =~= entries@);
                }
                return Ok(IndexEntries { index_entries: entries });
            }
            p = p + step;
        }
        proof {
            assert(index_walk_ok(Seq::<IndexEntryHeader>::empty(), s, p as int, end as int));
            assert(entries@ + Seq::<IndexEntryHeader>::empty() =~= entries@);
        }
        Ok(IndexEntries { index_entries: entries })
    }
}

/// The fixed fields of the $INDEX_ROOT value at `p` of `s`, all but the entries.
pub open spec fn index_root_fields_at(a: IndexRootAttr, s: Seq<u8>, p: int) -> bool {
    &&& a.attribute_type == le_at(s, p, 4)
    &&& collation_of(le_at(s, p + 4, 4) as u32) == Some(a.collation_rule)
    &&& a.index_entry_size == le_at(s, p + 8, 4)
    &&& a.index_entry_number_of_cluster_blocks == le_at(s, p + 12, 4)
    &&& a.relative_offset_to_index_node == le_at(s, p + 16, 4)
    &&& a.index_node_length == le_at(s, p + 20, 4)
    &&& a.index_node_allocation_length == le_at(s, p + 24, 4)
    &&& a.index_root_flags.bits == (le_at(s, p + 28, 4) as u32) & 0x01
}

/// What decoding the $INDEX_ROOT value at `p` of `s` gives. The entries follow the
/// 32 fixed bytes and end `index_node_length` bytes after the node header at `p + 16`.
pub open spec fn index_root_ok(r: Result<IndexRootAttr, Error>, s: Seq<u8>, p: int) -> bool {
    if !in_bounds(s, p, 8) {
        r is Err && r->Err_0 is IoError
    } else if collation_of(le_at(s, p + 4, 4) as u32) is None {
        r is Err && r->Err_0 == (Error::UnknownCollationType { collation_type: le_at(s, p + 4, 4) as u32 })
    } else if !in_bounds(s, p, 32) {
        r is Err && r->Err_0 is IoError
    } else {
        if index_walk_fits(s, p + 32, p + 16 + le_at(s, p + 20, 4)) {
            r matches Ok(a) && index_root_fields_at(a, s, p) && index_walk_ok(
                a.index_entries.index_entries@,
                s,
                p + 32,
                p + 16 + le_at(s, p + 20, 4),
            )
        } else {
            r is Err && index_error(r->Err_0)
        }
    }
}

impl IndexRootAttr {
    /// Decodes the $INDEX_ROOT value at `pos` of `data`.
    pub fn from_stream(data: &[u8], pos: usize) -> (r: Result<IndexRootAttr, Error>)
        ensures
            index_root_ok(r, data@, pos as int),
    {
        if pos > data.len() || data.len() - pos < 8 {
            return Err(Error::IoError);
        }
        let attribute_type = read_u32(data, pos).unwrap();
        let collation_value = read_u32(data, pos + 4).unwrap();
        let collation_rule = match IndexCollationRules::from_u32(collation_value) {
            Some(c) => c,
            None => {
                return Err(Error::UnknownCollationType { collation_type: collation_value });
            },
        };
        if data.len() - pos < 32 {
            return Err(Error::IoError);
        }
        let index_entry_size = read_u32(data, pos + 8).unwrap();
        let blocks = read_u32(data, pos + 12).unwrap();
        let relative_offset = read_u32(data, pos + 16).unwrap();
        let index_node_length = read_u32(data, pos + 20).unwrap();
        let allocation_length = read_u32(data, pos + 24).unwrap();
        let flags = IndexRootFlags { bits: read_u32(data, pos + 28).unwrap() & 0x01 };
        let end: u128 = (pos as u128) + 16 + (index_node_length as u128);
        let index_entries = match IndexEntries::from_stream(data, pos + 32, end) {
            Ok(es) => es,
            Err(e) => {
                return Err(e);
            },
        };
        Ok(IndexRootAttr {
            attribute_type,
            collation_rule,
            index_entry_size,
            index_entry_number_of_cluster_blocks: blocks,
            relative_offset_to_index_node: relative_offset,
            index_node_length,
            index_node_allocation_length: allocation_length,
            index_root_flags: flags,
            index_entries,
        })
    }
}

} // verus!
