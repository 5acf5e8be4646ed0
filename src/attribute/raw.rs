//! Resident attributes whose content is not decoded.
use crate::attribute::x80::read_bytes;
use crate::attribute::MftAttributeType;
use crate::bytes::in_bounds;
use crate::err::Error;
use vstd::prelude::*;

verus! {

/// The type and the bytes of an attribute whose content is kept as it is.
#[derive(Debug, Clone)]
pub struct RawAttribute {
    pub attribute_type: MftAttributeType,
    pub data: Vec<u8>,
}

impl RawAttribute {
    pub fn from_stream(data: &[u8], pos: usize, attribute_type: MftAttributeType, data_size: usize) -> (r: Result<RawAttribute, Error>)
        ensures
            in_bounds(data@, pos as int, data_size as int) ==> (r matches Ok(a) && a.attribute_type
                == attribute_type && a.data@ == data@.subrange(pos as int, pos + data_size)),
            !in_bounds(data@, pos as int, data_size as int) ==> r is Err && r->Err_0 is IoError,
    {
        match read_bytes(data, pos, data_size) {
            Some(v) => Ok(RawAttribute { attribute_type, data: v }),
            None => Err(Error::IoError),
        }
    }
}

} // verus!
