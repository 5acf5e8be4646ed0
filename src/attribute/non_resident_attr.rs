//! The content of a non-resident attribute: its data runs.
use crate::attribute::data_run::{data_runs_of, decode_data_runs, DataRun};
use crate::attribute::header::{MftAttributeHeader, NonResidentHeader};
use crate::attribute::x80::read_bytes;
use crate::bytes::in_bounds;
use crate::err::Error;
use vstd::prelude::*;

verus! {

#[derive(Debug, Clone)]
pub struct NonResidentAttr {
    pub data_runs: Vec<DataRun>,
}

/// What reading the runs of a non-resident attribute that starts at `start`, is
/// `record_length` long and holds its mapping pairs at `datarun_offset` gives.
pub open spec fn non_resident_ok(
    r: Result<NonResidentAttr, Error>,
    s: Seq<u8>,
    start: int,
    record_length: u32,
    datarun_offset: u16,
) -> bool {
    let p = start + datarun_offset;
    let n = record_length - datarun_offset;
    if datarun_offset > record_length {
        r is Err && r->Err_0 == (Error::DataRunOffsetOutOfRange { datarun_offset, record_length })
    } else if n == 0 {
        r matches Ok(a) && a.data_runs@.len() == 0
    } else if !in_bounds(s, p, n) {
        r is Err && r->Err_0 is IoError
    } else {
        match data_runs_of(s.subrange(p, p + n)) {
            Some(runs) => r matches Ok(a) && a.data_runs@ == runs,
            None => r is Err && r->Err_0 is FailedToDecodeDataRuns && r->Err_0->bad_data_runs@
                == s.subrange(p, p + n),
        }
    }
}

/// The mapping pairs of such an attribute decode.
pub open spec fn runs_decode(s: Seq<u8>, start: int, record_length: u32, datarun_offset: u16) -> bool {
    let p = start + datarun_offset;
    let n = record_length - datarun_offset;
    datarun_offset <= record_length && (n == 0 || (in_bounds(s, p, n) && data_runs_of(
        s.subrange(p, p + n),
    ) is Some))
}

pub proof fn lemma_runs_outcome(
    r: Result<NonResidentAttr, Error>,
    s: Seq<u8>,
    start: int,
    record_length: u32,
    datarun_offset: u16,
)
    requires
        non_resident_ok(r, s, start, record_length, datarun_offset),
    ensures
        r is Ok <==> runs_decode(s, start, record_length, datarun_offset),
{
}

impl NonResidentAttr {
    /// Decodes the mapping pairs that run from `datarun_offset` to the end of the record.
    pub fn from_stream(data: &[u8], header: &MftAttributeHeader, resident: &NonResidentHeader) -> (r: Result<NonResidentAttr, Error>)
        ensures
            non_resident_ok(
                r,
                data@,
                header.start_offset as int,
                header.record_length,
                resident.datarun_offset,
            ),
    {
        if resident.datarun_offset as u32 > header.record_length {
            return Err(
                Error::DataRunOffsetOutOfRange {
                    datarun_offset: resident.datarun_offset,
                    record_length: header.record_length,
                },
            );
        }
        let count = (header.record_length - resident.datarun_offset as u32) as usize;
        if count == 0 {
            return Ok(NonResidentAttr { data_runs: Vec::new() });
        }
        if header.start_offset > data.len() as u64 || resident.datarun_offset as u64 > data.len()
            as u64 - header.start_offset {
            return Err(Error::IoError);
        }
        let p = header.start_offset as usize + resident.datarun_offset as usize;
        let bytes = match read_bytes(data, p, count) {
            Some(b) => b,
            None => {
                return Err(Error::IoError);
            },
        };
        match decode_data_runs(bytes.as_slice()) {
            Some(data_runs) => Ok(NonResidentAttr { data_runs }),
            None => Err(Error::FailedToDecodeDataRuns { bad_data_runs: bytes }),
        }
    }
}

} // verus!
