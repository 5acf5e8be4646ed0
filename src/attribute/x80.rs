//! Resident $DATA.
use crate::bytes::in_bounds;
use crate::err::Error;
use vstd::prelude::*;

verus! {

/// Copies the `n` bytes at `pos` of `data`; `None` when they run past its end.
pub fn read_bytes(data: &[u8], pos: usize, n: usize) -> (r: Option<Vec<u8>>)
    ensures
        in_bounds(data@, pos as int, n as int) ==> (r matches Some(v) && v@ == data@.subrange(
            pos as int,
            pos + n,
        )),
        !in_bounds(data@, pos as int, n as int) ==> r is None,
{
    if pos > data.len() || data.len() - pos < n {
        return None;
    }
    let mut out: Vec<u8> = Vec::new();
    let mut i: usize = 0;
    while i < n
        invariant
            i <= n,
            pos + n <= data.len(),
            out@ == data@.subrange(pos as int, pos + i),
        decreases n - i,
    {
        out.push(data[pos + i]);
        i = i + 1;
        assert(out@ =~= data@.subrange(pos as int, pos + i));
    }
    Some(out)
}

/// The bytes of a resident $DATA attribute: the unnamed stream or a named alternate
/// data stream.
#[derive(Debug, Clone)]
pub struct DataAttr(pub Vec<u8>);

impl DataAttr {
    pub fn from_stream(data: &[u8], pos: usize, data_size: usize) -> (r: Result<DataAttr, Error>)
        ensures
            in_bounds(data@, pos as int, data_size as int) ==> (r matches Ok(d) && d.0@ == data@.subrange(
                pos as int,
                pos + data_size,
            )),
            !in_bounds(data@, pos as int, data_size as int) ==> r is Err && r->Err_0 is IoError,
    {
        match read_bytes(data, pos, data_size) {
            Some(v) => Ok(DataAttr(v)),
            None => Err(Error::IoError),
        }
    }

    pub fn data(&self) -> (r: &[u8])
        ensures
            r@ == self.0@,
    {
        self.0.as_slice()
    }
}

} // verus!
