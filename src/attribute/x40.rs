//! $OBJECT_ID.
use crate::bytes::{in_bounds, le_at, read_u16, read_u32};
use crate::err::Error;
use vstd::prelude::*;

verus! {

/// A GUID in its on-disk layout.
#[derive(Debug, Copy, Clone, PartialEq, Eq)]
pub struct Guid {
    pub data1: u32,
    pub data2: u16,
    pub data3: u16,
    pub data4: [u8; 8],
}

/// `g` is the GUID stored at `p` of `s`.
pub open spec fn guid_at(g: Guid, s: Seq<u8>, p: int) -> bool {
    &&& g.data1 == le_at(s, p, 4)
    &&& g.data2 == le_at(s, p + 4, 2)
    &&& g.data3 == le_at(s, p + 6, 2)
    &&& g.data4@ == s.subrange(p + 8, p + 16)
}

impl Guid {
    pub fn from_reader(data: &[u8], pos: usize) -> (r: Result<Guid, Error>)
        ensures
            in_bounds(data@, pos as int, 16) ==> (r matches Ok(g) && guid_at(g, data@, pos as int)),
            !in_bounds(data@, pos as int, 16) ==> r is Err && r->Err_0 is IoError,
    {
        if pos > data.len() || data.len() - pos < 16 {
            return Err(Error::IoError);
        }
        let p = pos + 8;
        let data4: [u8; 8] = [
            data[p],
            data[p + 1],
            data[p + 2],
            data[p + 3],
            data[p + 4],
            data[p + 5],
            data[p + 6],
            data[p + 7],
        ];
        assert(data4@ =~= data@.subrange(pos + 8, pos + 16));
        Ok(Guid {
            data1: read_u32(data, pos).unwrap(),
            data2: read_u16(data, pos + 4).unwrap(),
            data3: read_u16(data, pos + 6).unwrap(),
            data4,
        })
    }
}

#[derive(Debug, Clone)]
pub struct ObjectIdAttr {
    /// The identifier of the file.
    pub object_id: Guid,
    /// The volume where the file was created.
    pub birth_volume_id: Option<Guid>,
    /// The object identifier the file was first given.
    pub birth_object_id: Option<Guid>,
    /// The domain in which the object was created.
    pub domain_id: Option<Guid>,
}

/// What decoding an $OBJECT_ID value of `data_size` bytes at `p` of `s` gives: one GUID
/// when the value is 16 bytes long, four otherwise.
pub open spec fn object_id_ok(r: Result<ObjectIdAttr, Error>, s: Seq<u8>, p: int, data_size: usize) -> bool {
    let n = if data_size == 16 { 16int } else { 64int };
    if !in_bounds(s, p, n) {
        r is Err && r->Err_0 is IoError
    } else {
        r matches Ok(a) && guid_at(a.object_id, s, p) && if data_size == 16 {
            a.birth_volume_id is None && a.birth_object_id is None && a.domain_id is None
        } else {
            &&& a.birth_volume_id matches Some(g) && guid_at(g, s, p + 16)
            &&& a.birth_object_id matches Some(g) && guid_at(g, s, p + 32)
            &&& a.domain_id matches Some(g) && guid_at(g, s, p + 48)
        }
    }
}

impl ObjectIdAttr {
    pub fn from_stream(data: &[u8], pos: usize, data_size: usize) -> (r: Result<ObjectIdAttr, Error>)
        ensures
            object_id_ok(r, data@, pos as int, data_size),
    {
        let object_id = match Guid::from_reader(data, pos) {
            Ok(g) => g,
            Err(e) => {
                return Err(e);
            },
        };
        if data_size == 16 {
            return Ok(
                ObjectIdAttr {
                    object_id,
                    birth_volume_id: None,
                    birth_object_id: None,
                    domain_id: None,
                },
            );
        }
        if data.len() - pos < 64 {
            return Err(Error::IoError);
        }
        let g1 = Guid::from_reader(data, pos + 16).unwrap();
        let g2 = Guid::from_reader(data, pos + 32).unwrap();
        let g3 = Guid::from_reader(data, pos + 48).unwrap();
        Ok(
            ObjectIdAttr {
                object_id,
                birth_volume_id: Some(g1),
                birth_object_id: Some(g2),
                domain_id: Some(g3),
            },
        )
    }
}

} // verus!
