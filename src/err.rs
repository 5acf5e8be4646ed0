//! The errors of the decoders.
use vstd::prelude::*;

verus! {

#[derive(Debug, Clone)]
pub enum Error {
    /// A field runs past the end of the data it is read from.
    IoError,
    /// The name of an attribute is not valid UTF-16.
    InvalidAttributeName,
    InvalidEntrySignature { bad_sig: Vec<u8> },
    UnknownAttributeType { attribute_type: u32 },
    UnknownCollationType { collation_type: u32 },
    UnknownNamespace { namespace: u8 },
    UnhandledResidentFlag { flag: u8, offset: u64 },
    /// The update sequence array, or a sector it protects, lies outside the entry.
    FixupOutOfBounds { usa_offset: u16, usa_size: u16 },
    FailedToApplyFixup { stride_number: usize, end_of_sector_bytes: Vec<u8>, fixup_bytes: Vec<u8> },
    FailedToDecodeDataRuns { bad_data_runs: Vec<u8> },
    /// The mapping pairs of a non-resident attribute would start past its end.
    DataRunOffsetOutOfRange { datarun_offset: u16, record_length: u32 },
    FailedToReadEntrySize,
}

} // verus!
