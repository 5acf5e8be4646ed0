//! $ATTRIBUTE_LIST.
use crate::bytes::{in_bounds, le_at, read_u16, read_u32, read_u64};
use crate::err::Error;
use crate::reference::{reference_of, MftReference};
use crate::utils::{decode_utf16le_lossy, utf16le_lossy};
use vstd::prelude::*;

verus! {

/// The fixed part of an attribute list entry.
pub const LIST_ENTRY_FIXED_LEN: usize = 26;

/// Where one attribute of a file lies, in the entry that `segment_reference` names.
#[derive(Debug, Clone)]
pub struct AttributeListEntry {
    pub attribute_type: u32,
    /// The length of this list entry.
    pub record_length: u16,
    /// The length of the attribute name in UTF-16 units; 0 when there is none.
    pub name_length: u8,
    pub name_offset: u8,
    /// The lowest virtual cluster number the referenced segment describes.
    pub lowest_vcn: u64,
    pub segment_reference: MftReference,
    /// The attribute's instance.
    pub reserved: u16,
    pub name: String,
}

/// The list entry at `p` of `s` lies inside `s`, name included.
pub open spec fn list_entry_fits(s: Seq<u8>, p: int) -> bool {
    in_bounds(s, p, LIST_ENTRY_FIXED_LEN as int) && (s[p + 6] == 0 || in_bounds(
        s,
        p + s[p + 7],
        2 * s[p + 6],
    ))
}

/// `e` is the list entry at `p` of `s`.
pub open spec fn list_entry_at(e: AttributeListEntry, s: Seq<u8>, p: int) -> bool {
    &&& list_entry_fits(s, p)
    &&& e.attribute_type == le_at(s, p, 4)
    &&& e.record_length == le_at(s, p + 4, 2)
    &&& e.name_length == s[p + 6]
    &&& e.name_offset == s[p + 7]
    &&& e.lowest_vcn == le_at(s, p + 8, 8)
    &&& e.segment_reference == reference_of(le_at(s, p + 16, 8) as u64)
    &&& e.reserved == le_at(s, p + 24, 2)
    &&& e.name@ == (if s[p + 6] == 0 {
        Seq::<char>::empty()
    } else {
        utf16le_lossy(s.subrange(p + s[p + 7], p + s[p + 7] + 2 * s[p + 6]))
    })
}

impl AttributeListEntry {
    /// Decodes the list entry at `pos` of `data`.
    pub fn from_stream(data: &[u8], pos: usize) -> (r: Result<AttributeListEntry, Error>)
        ensures
            r matches Ok(e) ==> list_entry_at(e, data@, pos as int),
            !list_entry_fits(data@, pos as int) ==> r is Err && r->Err_0 is IoError,
            list_entry_fits(data@, pos as int) ==> r is Ok,
    {
        if pos > data.len() || data.len() - pos < LIST_ENTRY_FIXED_LEN {
            return Err(Error::IoError);
        }
        let attribute_type = read_u32(data, pos).unwrap();
        let record_length = read_u16(data, pos + 4).unwrap();
        let name_length = data[pos + 6];
        let name_offset = data[pos + 7];
        let lowest_vcn = read_u64(data, pos + 8).unwrap();
        let segment_reference = MftReference::from_u64(read_u64(data, pos + 16).unwrap());
        let reserved = read_u16(data, pos + 24).unwrap();
        let name = if name_length > 0 {
            let n = 2 * name_length as usize;
            if name_offset as usize > data.len() - pos {
                return Err(Error::IoError);
            }
            let start = pos + name_offset as usize;
            if data.len() - start < n {
                return Err(Error::IoError);
            }
            decode_utf16le_lossy(&data[start..start + n])
        } else {
            String::new()
        };
        Ok(AttributeListEntry {
            attribute_type,
            record_length,
            name_length,
            name_offset,
            lowest_vcn,
            segment_reference,
            reserved,
            name,
        })
    }
}

/// The measure of a walk from `p` to `end`.
pub open spec fn walk_measure(p: int, end: int) -> int {
    if p < end {
        end - p
    } else {
        0
    }
}

/// `entries` is the walk over `s` from `p` to `end`: each entry starts where the one
/// before ends, by its record length. An entry of record length 0 ends the walk, as
/// stepping by it would find it again.
pub open spec fn list_ok(entries: Seq<AttributeListEntry>, s: Seq<u8>, p: int, end: int) -> bool
    decreases walk_measure(p, end),
{
    if p >= end {
        entries.len() == 0
    } else if entries.len() == 0 {
        false
    } else if !list_entry_at(entries[0], s, p) {
        false
    } else if entries[0].record_length == 0 {
        entries.len() == 1
    } else {
        list_ok(entries.drop_first(), s, p + entries[0].record_length, end)
    }
}

/// Every entry of the walk from `p` to `end` lies inside `s`.
pub open spec fn list_walk_fits(s: Seq<u8>, p: int, end: int) -> bool
    decreases walk_measure(p, end),
{
    if p >= end {
        true
    } else if !list_entry_fits(s, p) {
        false
    } else if le_at(s, p + 4, 2) == 0 {
        true
    } else {
        list_walk_fits(s, p + le_at(s, p + 4, 2), end)
    }
}

#[derive(Debug, Clone)]
pub struct AttributeListAttr {
    pub entries: Vec<AttributeListEntry>,
}

impl AttributeListAttr {
    /// Decodes the list entries that fill `content`, the value of the attribute.
    pub fn from_stream(content: &[u8]) -> (r: Result<AttributeListAttr, Error>)
        ensures
            r matches Ok(a) ==> list_ok(a.entries@, content@, 0, content@.len() as int),
            !list_walk_fits(content@, 0, content@.len() as int) ==> r is Err,
            list_walk_fits(content@, 0, content@.len() as int) ==> r is Ok,
            r matches Err(e) ==> e is IoError,
    {
        let ghost s = content@;
        let ghost end = content@.len() as int;
        let mut entries: Vec<AttributeListEntry> = Vec::new();
        let mut pos: usize = 0;
        while pos < content.len()
            invariant
                s == content@,
                end == content@.len(),
                forall|rest: Seq<AttributeListEntry>| #[trigger]
                    list_ok(rest, s, pos as int, end) ==> list_ok(entries@ + rest, s, 0, end),
                list_walk_fits(s, 0, end) == list_walk_fits(s, pos as int, end),
            decreases content.len() - pos,
        {
            let entry = match AttributeListEntry::from_stream(content, pos) {
                Ok(e) => e,
                Err(e) => {
                    return Err(e);
                },
            };
            let step = entry.record_length as usize;
            let ghost before = entries@;
            let ghost e = entry;
            entries.push(entry);
            if step == 0 {
                proof {
                    assert(list_ok(seq![e], s, pos as int, end));
                    assert(before + seq![e] =~= entries@);
                }
                return Ok(AttributeListAttr { entries });
            }
            proof {
                assert forall|rest: Seq<AttributeListEntry>| #[trigger]
                    list_ok(rest, s, pos + step, end) implies list_ok(entries@ + rest, s, 0, end) by {
                    let longer = seq![e] + rest;
                    assert(longer.drop_first() =~= rest);
                    assert(list_ok(longer, s, pos as int, end));
                    assert(before + longer =~= entries@ + rest);
                }
            }
            assert(list_walk_fits(s, pos as int, end) == list_walk_fits(s, pos + step, end));
            if step > content.len() - pos {
                proof {
                    assert(list_ok(Seq::<AttributeListEntry>::empty(), s, pos + step, end));
                    assert(entries@ + Seq::<AttributeListEntry>::empty() =~= entries@);
                }
                return Ok(AttributeListAttr { entries });
            }
            pos = pos + step;
        }
        proof {
            assert(list_ok(Seq::<AttributeListEntry>::empty(), s, pos as int, end));
            assert(entries@ + Seq::<AttributeListEntry>::empty() =~= entries@);
        }
        Ok(AttributeListAttr { entries })
    }
}

} // verus!
