//! References to MFT entries.
use vstd::prelude::*;

verus! {

/// One generation of one MFT slot: 48 bits of entry number, 16 bits of sequence number.
#[derive(Debug, Copy, Clone, PartialEq, Eq, Hash, Structural)]
pub struct MftReference {
    pub entry: u64,
    pub sequence: u16,
}

/// The reference stored on disk as the little-endian 64-bit value `v`.
pub open spec fn reference_of(v: u64) -> MftReference {
    MftReference {
        entry: (v % 0x1_0000_0000_0000) as u64,
        sequence: (v / 0x1_0000_0000_0000) as u16,
    }
}

impl MftReference {
    pub fn new(entry: u64, sequence: u16) -> (r: MftReference)
        ensures
            r == (MftReference { entry, sequence }),
    {
        MftReference { entry, sequence }
    }

    /// Splits a raw 64-bit reference into entry and sequence numbers.
    pub fn from_u64(v: u64) -> (r: MftReference)
        ensures
            r == reference_of(v),
    {
        MftReference { entry: v % 0x1_0000_0000_0000, sequence: (v / 0x1_0000_0000_0000) as u16 }
    }
}

} // verus!
