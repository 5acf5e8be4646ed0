//! MFT entries: the fixed header, the update sequence fixups, and the entry value.
use crate::attribute::header::{
    attribute_header_ok, header_end, header_fixed_fields_at, header_good, lemma_header_outcome,
    record_len, record_type, MftAttributeHeader, ResidentialHeader,
};
use crate::attribute::non_resident_attr::{lemma_runs_outcome, non_resident_ok, runs_decode};
use crate::attribute::x30::{file_name_fields_at, namespace_of, FileNameAttr, FileNamespace};
use crate::attribute::{
    as_runs, lemma_resident_outcome, resident_content_ok, resident_decodes, MftAttribute,
    MftAttributeContent, MftAttributeType,
};
use crate::bytes::{in_bounds, le_at, read_u16, read_u32, read_u64};
use crate::err::Error;
use crate::reference::{reference_of, MftReference};
use vstd::arithmetic::div_mod::lemma_fundamental_div_mod_converse;
use vstd::prelude::*;

verus! {

/// The distance between two update sequence numbers in an entry.
pub const SEQUENCE_NUMBER_STRIDE: usize = 512;

/// The number of header bytes read after a non-zero signature.
pub const ENTRY_HEADER_LEN: usize = 42;

pub open spec fn file_signature() -> Seq<u8> {
    seq![0x46u8, 0x49u8, 0x4Cu8, 0x45u8]
}

pub open spec fn baad_signature() -> Seq<u8> {
    seq![0x42u8, 0x41u8, 0x41u8, 0x44u8]
}

pub open spec fn zero_signature() -> Seq<u8> {
    seq![0u8, 0u8, 0u8, 0u8]
}

pub open spec fn is_known_signature(sig: Seq<u8>) -> bool {
    sig == file_signature() || sig == baad_signature() || sig == zero_signature()
}

/// The entry flags, keeping only the four defined bits.
#[derive(Debug, Copy, Clone, PartialEq, Eq, Structural)]
pub struct EntryFlags {
    pub bits: u16,
}

impl EntryFlags {
    pub const ALLOCATED: u16 = 0x01;
    pub const INDEX_PRESENT: u16 = 0x02;
    pub const UNKNOWN_1: u16 = 0x04;
    pub const UNKNOWN_2: u16 = 0x08;

    pub fn from_bits_truncate(bits: u16) -> (r: EntryFlags)
        ensures
            r.bits == bits & 0x0F,
    {
        EntryFlags { bits: bits & 0x0F }
    }

    pub fn bits(&self) -> (r: u16)
        ensures
            r == self.bits,
    {
        self.bits
    }

    pub fn contains(&self, flag: u16) -> (r: bool)
        ensures
            r == (self.bits & flag == flag),
    {
        self.bits & flag == flag
    }
}

/// The fixed part of an MFT entry.
#[derive(Debug, Clone)]
pub struct EntryHeader {
    /// "FILE", "BAAD" or four zero bytes.
    pub signature: [u8; 4],
    /// Offset of the update sequence array from the start of the entry.
    pub usa_offset: u16,
    /// Number of 2-byte elements of the update sequence array.
    pub usa_size: u16,
    /// $LogFile sequence number.
    pub metadata_transaction_journal: u64,
    pub sequence: u16,
    pub hard_link_count: u16,
    pub first_attribute_record_offset: u16,
    pub flags: EntryFlags,
    pub used_entry_size: u32,
    pub total_entry_size: u32,
    /// The base record of an extension record; zero for a base record.
    pub base_reference: MftReference,
    pub first_attribute_id: u16,
    /// The entry number, as given by the caller.
    pub record_number: u64,
}

/// `h` holds the fields of the non-zero header at `p` of `s`, for entry `id`.
pub open spec fn header_fields_at(h: EntryHeader, s: Seq<u8>, p: int, id: u64) -> bool {
    &&& h.signature@ == s.subrange(p, p + 4)
    &&& h.usa_offset == le_at(s, p + 4, 2)
    &&& h.usa_size == le_at(s, p + 6, 2)
    &&& h.metadata_transaction_journal == le_at(s, p + 8, 8)
    &&& h.sequence == le_at(s, p + 16, 2)
    &&& h.hard_link_count == le_at(s, p + 18, 2)
    &&& h.first_attribute_record_offset == le_at(s, p + 20, 2)
    &&& h.flags.bits == (le_at(s, p + 22, 2) as u16) & 0x0F
    &&& h.used_entry_size == le_at(s, p + 24, 4)
    &&& h.total_entry_size == le_at(s, p + 28, 4)
    &&& h.base_reference == reference_of(le_at(s, p + 32, 8) as u64)
    &&& h.first_attribute_id == le_at(s, p + 40, 2)
    &&& h.record_number == id
}

/// The header of an unused slot: every field zero.
pub open spec fn is_zero_header(h: EntryHeader) -> bool {
    &&& h.signature@ == zero_signature()
    &&& h.usa_offset == 0
    &&& h.usa_size == 0
    &&& h.metadata_transaction_journal == 0
    &&& h.sequence == 0
    &&& h.hard_link_count == 0
    &&& h.first_attribute_record_offset == 0
    &&& h.flags.bits == 0
    &&& h.used_entry_size == 0
    &&& h.total_entry_size == 0
    &&& h.base_reference == (MftReference { entry: 0, sequence: 0 })
    &&& h.first_attribute_id == 0
    &&& h.record_number == 0
}

/// What decoding a header at `p` of `s` yields: `Some(true)` for a zero signature,
/// `Some(false)` for a complete non-zero header, `None` on an error.
pub open spec fn header_result_ok(r: Result<EntryHeader, Error>, s: Seq<u8>, p: int, id: u64) -> bool {
    if !in_bounds(s, p, 4) {
        r is Err && r->Err_0 is IoError
    } else if !is_known_signature(s.subrange(p, p + 4)) {
        r is Err && r->Err_0 is InvalidEntrySignature && r->Err_0->bad_sig@ == s.subrange(p, p + 4)
    } else if s.subrange(p, p + 4) == zero_signature() {
        r is Ok && is_zero_header(r->Ok_0)
    } else if !in_bounds(s, p, ENTRY_HEADER_LEN as int) {
        r is Err && r->Err_0 is IoError
    } else {
        r is Ok && header_fields_at(r->Ok_0, s, p, id)
    }
}

impl EntryHeader {
    /// Decodes the entry header at `offset` of `data`. The entry number is not
    /// reliable on disk and is taken from the caller.
    pub fn from_reader(data: &[u8], offset: usize, entry_id: u64) -> (r: Result<EntryHeader, Error>)
        ensures
            header_result_ok(r, data@, offset as int, entry_id),
    {
        if offset > data.len() || data.len() - offset < 4 {
            return Err(Error::IoError);
        }
        let signature: [u8; 4] = [data[offset], data[offset + 1], data[offset + 2], data[offset + 3]];
        assert(signature@ =~= data@.subrange(offset as int, offset + 4));
        let is_file = signature[0] == 0x46 && signature[1] == 0x49 && signature[2] == 0x4C
            && signature[3] == 0x45;
        let is_baad = signature[0] == 0x42 && signature[1] == 0x41 && signature[2] == 0x41
            && signature[3] == 0x44;
        let is_zero = signature[0] == 0 && signature[1] == 0 && signature[2] == 0 && signature[3]
            == 0;
        proof {
            assert(is_file == (signature@ =~= file_signature()));
            assert(is_baad == (signature@ =~= baad_signature()));
            assert(is_zero == (signature@ =~= zero_signature()));
        }
        if !(is_file || is_baad || is_zero) {
            let mut bad_sig: Vec<u8> = Vec::new();
            bad_sig.push(signature[0]);
            bad_sig.push(signature[1]);
            bad_sig.push(signature[2]);
            bad_sig.push(signature[3]);
            assert(bad_sig@ =~= signature@);
            return Err(Error::InvalidEntrySignature { bad_sig });
        }
        if is_zero {
            return Ok(Self::zero());
        }
        if data.len() - offset < ENTRY_HEADER_LEN {
            return Err(Error::IoError);
        }
        let usa_offset = read_u16(data, offset + 4).unwrap();
        let usa_size = read_u16(data, offset + 6).unwrap();
        let lsn = read_u64(data, offset + 8).unwrap();
        let sequence = read_u16(data, offset + 16).unwrap();
        let hard_link_count = read_u16(data, offset + 18).unwrap();
        let first_attribute_offset = read_u16(data, offset + 20).unwrap();
        let flags = EntryFlags::from_bits_truncate(read_u16(data, offset + 22).unwrap());
        let used = read_u32(data, offset + 24).unwrap();
        let total = read_u32(data, offset + 28).unwrap();
        let base_reference = MftReference::from_u64(read_u64(data, offset + 32).unwrap());
        let first_attribute_id = read_u16(data, offset + 40).unwrap();
        Ok(EntryHeader {
            signature,
            usa_offset,
            usa_size,
            metadata_transaction_journal: lsn,
            sequence,
            hard_link_count,
            first_attribute_record_offset: first_attribute_offset,
            flags,
            used_entry_size: used,
            total_entry_size: total,
            base_reference,
            first_attribute_id,
            record_number: entry_id,
        })
    }

    /// Whether the signature is "FILE".
    pub fn is_valid(&self) -> (r: bool)
        ensures
            r == (self.signature@ == file_signature()),
    {
        let r = self.signature[0] == 0x46 && self.signature[1] == 0x49 && self.signature[2] == 0x4C
            && self.signature[3] == 0x45;
        assert(r == (self.signature@ =~= file_signature()));
        r
    }

    /// Whether the signature is four zero bytes: an unused slot.
    pub fn is_unused(&self) -> (r: bool)
        ensures
            r == (self.signature@ == zero_signature()),
    {
        let r = self.signature[0] == 0 && self.signature[1] == 0 && self.signature[2] == 0
            && self.signature[3] == 0;
        assert(r == (self.signature@ =~= zero_signature()));
        r
    }

    /// The header of an unused slot.
    pub fn zero() -> (r: EntryHeader)
        ensures
            is_zero_header(r),
    {
        let signature: [u8; 4] = [0, 0, 0, 0];
        assert(signature@ =~= zero_signature());
        EntryHeader {
            signature,
            usa_offset: 0,
            usa_size: 0,
            metadata_transaction_journal: 0,
            sequence: 0,
            hard_link_count: 0,
            first_attribute_record_offset: 0,
            flags: EntryFlags { bits: 0 },
            used_entry_size: 0,
            total_entry_size: 0,
            base_reference: MftReference { entry: 0, sequence: 0 },
            first_attribute_id: 0,
            record_number: 0,
        }
    }
}


/// Strides `0..k` of `s` each end with the update sequence number, the first element
/// of the update sequence array at `uo`.
pub open spec fn strides_match(s: Seq<u8>, uo: int, k: int) -> bool {
    forall|i: int|
        0 <= i < k ==> #[trigger] s[512 * i + 510] == s[uo] && s[512 * i + 511] == s[uo + 1]
}

/// `s` with the last two bytes of each of the strides `0..k` replaced by the
/// matching element of the update sequence array at `uo`.
pub open spec fn fixed_upto(s: Seq<u8>, uo: int, k: int) -> Seq<u8> {
    Seq::new(
        s.len(),
        |j: int|
            if j / 512 < k && j % 512 == 510 {
                s[uo + 2 * (j / 512) + 2]
            } else if j / 512 < k && j % 512 == 511 {
                s[uo + 2 * (j / 512) + 3]
            } else {
                s[j]
            },
    )
}

/// The update sequence array of `h`, and every stride it protects, lie inside `s`.
pub open spec fn fixups_in_bounds(h: EntryHeader, s: Seq<u8>) -> bool {
    &&& h.usa_size >= 1
    &&& h.usa_offset + 2 * h.usa_size <= s.len()
    &&& 512 * (h.usa_size - 1) <= s.len()
}

/// The first stride whose last two bytes differ from the update sequence number.
pub open spec fn first_bad_stride(s: Seq<u8>, uo: int, n: int, k: int) -> bool {
    0 <= k < n && strides_match(s, uo, k) && !(s[512 * k + 510] == s[uo] && s[512 * k + 511] == s[uo
        + 1])
}

proof fn lemma_sector_pos(i: int, r: int)
    requires
        0 <= i,
        0 <= r < 512,
    ensures
        (512 * i + r) / 512 == i,
        (512 * i + r) % 512 == r,
{
    lemma_fundamental_div_mod_converse(512 * i + r, 512, i, r);
}

proof fn lemma_split_pos(j: int)
    requires
        0 <= j,
    ensures
        j == 512 * (j / 512) + j % 512,
        0 <= j % 512 < 512,
        0 <= j / 512,
{
    vstd::arithmetic::div_mod::lemma_fundamental_div_mod(j, 512);
}

/// Checks the last two bytes of each 512-byte stride against the update sequence
/// number and replaces them with the matching element of the update sequence array.
pub fn apply_fixups(header: &EntryHeader, buffer: &mut Vec<u8>) -> (r: Result<(), Error>)
    ensures
        !fixups_in_bounds(*header, old(buffer)@) ==> r is Err && r->Err_0 is FixupOutOfBounds
            && final(buffer)@ == old(buffer)@,
        fixups_in_bounds(*header, old(buffer)@) && strides_match(
            old(buffer)@,
            header.usa_offset as int,
            header.usa_size - 1,
        ) ==> r is Ok && final(buffer)@ == fixed_upto(
            old(buffer)@,
            header.usa_offset as int,
            header.usa_size - 1,
        ),
        r is Ok ==> fixups_in_bounds(*header, old(buffer)@) && strides_match(
            old(buffer)@,
            header.usa_offset as int,
            header.usa_size - 1,
        ),
        r matches Err(Error::FailedToApplyFixup { stride_number, end_of_sector_bytes, fixup_bytes })
            ==> fixups_in_bounds(*header, old(buffer)@) && first_bad_stride(
            old(buffer)@,
            header.usa_offset as int,
            header.usa_size - 1,
            stride_number as int,
        ) && end_of_sector_bytes@ == old(buffer)@.subrange(
            512 * stride_number + 510,
            512 * stride_number + 512,
        ) && fixup_bytes@ == old(buffer)@.subrange(
            header.usa_offset + 2 * stride_number + 2,
            header.usa_offset + 2 * stride_number + 4,
        ) && final(buffer)@ == fixed_upto(old(buffer)@, header.usa_offset as int, stride_number as int),
        r is Err ==> r->Err_0 is FixupOutOfBounds || r->Err_0 is FailedToApplyFixup,
        r matches Err(Error::FixupOutOfBounds { .. }) ==> !fixups_in_bounds(*header, old(buffer)@),
{
    let ghost s = buffer@;
    let usa_offset = header.usa_offset as usize;
    let usa_size = header.usa_size as usize;
    if usa_size < 1 || usa_offset + 2 * usa_size > buffer.len() || SEQUENCE_NUMBER_STRIDE * (
    usa_size - 1) > buffer.len() {
        return Err(Error::FixupOutOfBounds { usa_offset: header.usa_offset, usa_size: header.usa_size });
    }
    let number_of_fixups = usa_size - 1;
    // The array is copied first: the sector ends it restores are written in place.
    let mut usa: Vec<u8> = Vec::new();
    let mut k: usize = 0;
    while k < 2 * usa_size
        invariant
            k <= 2 * usa_size,
            usa_offset + 2 * usa_size <= buffer.len(),
            buffer@ == s,
            usa@ == s.subrange(usa_offset as int, usa_offset + k),
        decreases 2 * usa_size - k,
    {
        usa.push(buffer[usa_offset + k]);
        k = k + 1;
        assert(usa@ =~= s.subrange(usa_offset as int, usa_offset + k));
    }
    let mut i: usize = 0;
    while i < number_of_fixups
        invariant
            number_of_fixups == usa_size - 1,
            usa_size == header.usa_size,
            usa_offset == header.usa_offset,
            fixups_in_bounds(*header, s),
            s == old(buffer)@,
            i <= number_of_fixups,
            usa@ == s.subrange(usa_offset as int, usa_offset + 2 * usa_size),
            strides_match(s, usa_offset as int, i as int),
            buffer@ == fixed_upto(s, usa_offset as int, i as int),
        decreases number_of_fixups - i,
    {
        let end = i * SEQUENCE_NUMBER_STRIDE + 510;
        proof {
            lemma_sector_pos(i as int, 510);
            lemma_sector_pos(i as int, 511);
        }
        let b0 = buffer[end];
        let b1 = buffer[end + 1];
        assert(b0 == s[512 * i + 510] && b1 == s[512 * i + 511]);
        assert(usa[0] == s[usa_offset as int] && usa[1] == s[usa_offset + 1]);
        if b0 != usa[0] || b1 != usa[1] {
            proof {
                if strides_match(s, usa_offset as int, number_of_fixups as int) {
                    assert(s[512 * i + 510] == s[usa_offset as int] && s[512 * i + 511] == s[
                        usa_offset + 1]);
                }
            }
            let mut end_of_sector_bytes: Vec<u8> = Vec::new();
            end_of_sector_bytes.push(b0);
            end_of_sector_bytes.push(b1);
            let mut fixup_bytes: Vec<u8> = Vec::new();
            fixup_bytes.push(usa[2 * i + 2]);
            fixup_bytes.push(usa[2 * i + 3]);
            assert(end_of_sector_bytes@ =~= s.subrange(512 * i + 510, 512 * i + 512));
            assert(fixup_bytes@ =~= s.subrange(usa_offset + 2 * i + 2, usa_offset + 2 * i + 4));
            return Err(
                Error::FailedToApplyFixup { stride_number: i, end_of_sector_bytes, fixup_bytes },
            );
        }
        buffer.set(end, usa[2 * i + 2]);
        buffer.set(end + 1, usa[2 * i + 3]);
        proof {
            assert forall|j: int| 0 <= j < s.len() implies #[trigger] buffer@[j] == fixed_upto(
                s,
                usa_offset as int,
                i + 1,
            )[j] by {
                lemma_split_pos(j);
            }
            assert(buffer@ =~= fixed_upto(s, usa_offset as int, i + 1));
        }
        i = i + 1;
    }
    Ok(())
}

/// One MFT entry: its header and its bytes, with the fixups applied when they check.
#[derive(Debug, Clone)]
pub struct MftEntry {
    pub header: EntryHeader,
    pub data: Vec<u8>,
    /// Whether the fixups of a "FILE" or "BAAD" entry checked; `None` for an unused slot.
    pub valid_fixup: Option<bool>,
}

/// What decoding an entry from the bytes `b` gives: its header, and the bytes it keeps.
pub open spec fn entry_from_buffer_ok(r: Result<MftEntry, Error>, b: Seq<u8>, entry_number: u64) -> bool {
    &&& header_result_ok(
        match r {
            Ok(e) => Ok(e.header),
            Err(e) => Err(e),
        },
        b,
        0,
        entry_number,
    )
    &&& r matches Ok(e) ==> {
        let h = e.header;
        let uo = h.usa_offset as int;
        let n = h.usa_size - 1;
        if h.signature@ != zero_signature() {
            if fixups_in_bounds(h, b) && strides_match(b, uo, n) {
                e.valid_fixup == Some(true) && e.data@ == fixed_upto(b, uo, n)
            } else {
                e.valid_fixup == Some(false) && e.data@ == b
            }
        } else {
            e.valid_fixup is None && e.data@ == b
        }
    }
}

impl MftEntry {
    /// Decodes an entry from its bytes. A "FILE" or "BAAD" entry whose fixups check holds
    /// the fixed bytes; one whose fixups fail keeps its bytes as read and is marked so.
    pub fn from_buffer(buffer: Vec<u8>, entry_number: u64) -> (r: Result<MftEntry, Error>)
        ensures
            entry_from_buffer_ok(r, buffer@, entry_number),
    {
        let header = match EntryHeader::from_reader(buffer.as_slice(), 0, entry_number) {
            Ok(h) => h,
            Err(e) => {
                return Err(e);
            },
        };
        if !header.is_unused() {
            let mut fixed = buffer.clone();
            assert(fixed@ =~= buffer@);
            match apply_fixups(&header, &mut fixed) {
                Ok(()) => Ok(MftEntry { header, data: fixed, valid_fixup: Some(true) }),
                Err(_) => Ok(MftEntry { header, data: buffer, valid_fixup: Some(false) }),
            }
        } else {
            Ok(MftEntry { header, data: buffer, valid_fixup: None })
        }
    }

    /// Decodes an entry without checking or applying the fixups; fails unless the
    /// signature is "FILE".
    pub fn from_buffer_skip_fixup(buffer: Vec<u8>, entry_number: u64) -> (r: Result<MftEntry, Error>)
        ensures
            r matches Ok(e) ==> e.data@ == buffer@ && e.valid_fixup is None && e.header.signature@
                == file_signature() && header_fields_at(e.header, buffer@, 0, entry_number),
            r is Ok <==> in_bounds(buffer@, 0, ENTRY_HEADER_LEN as int) && buffer@.subrange(0, 4)
                == file_signature(),
    {
        let header = match EntryHeader::from_reader(buffer.as_slice(), 0, entry_number) {
            Ok(h) => h,
            Err(e) => {
                return Err(e);
            },
        };
        if !header.is_valid() {
            let mut bad_sig: Vec<u8> = Vec::new();
            bad_sig.push(header.signature[0]);
            bad_sig.push(header.signature[1]);
            bad_sig.push(header.signature[2]);
            bad_sig.push(header.signature[3]);
            return Err(Error::InvalidEntrySignature { bad_sig });
        }
        Ok(MftEntry { header, data: buffer, valid_fixup: None })
    }

    pub fn is_allocated(&self) -> (r: bool)
        ensures
            r == (self.header.flags.bits & 0x01 != 0),
    {
        self.header.flags.bits & 0x01 != 0
    }

    pub fn is_dir(&self) -> (r: bool)
        ensures
            r == (self.header.flags.bits & 0x02 != 0),
    {
        self.header.flags.bits & 0x02 != 0
    }
}


/// The filter `types` as a sequence of types (`None` passes every type).
pub open spec fn filter_of(types: Option<Vec<MftAttributeType>>) -> Option<Seq<MftAttributeType>> {
    match types {
        Some(v) => Some(v@),
        None => None,
    }
}

/// Whether `t` passes the filter `f`.
pub open spec fn wanted(f: Option<Seq<MftAttributeType>>, t: MftAttributeType) -> bool {
    match f {
        Some(v) => v.contains(t),
        None => true,
    }
}

/// `a` was decoded from the record at `a.header.start_offset` of `s`: its header, and
/// its content by type and residency.
pub open spec fn attribute_ok(a: MftAttribute, s: Seq<u8>) -> bool {
    &&& attribute_header_ok(Ok(Some(a.header)), s, a.header.start_offset as int)
    &&& match a.header.residential_header {
        ResidentialHeader::Resident(res) => resident_content_ok(
            Ok(a.data),
            s,
            a.header.start_offset + res.data_offset,
            a.header.type_code,
            res.data_size,
        ),
        ResidentialHeader::NonResident(nr) => a.data is DataRun && non_resident_ok(
            as_runs(Ok(a.data)),
            s,
            a.header.start_offset as int,
            a.header.record_length,
            nr.datarun_offset,
        ),
    }
}

/// The content of the record at `q`, whose header decodes, decodes too.
pub open spec fn content_decodes(s: Seq<u8>, q: int) -> bool {
    if s[q + 8] == 0 {
        resident_decodes(s, q + le_at(s, q + 20, 2), record_type(s, q), le_at(s, q + 16, 4) as u32)
    } else {
        runs_decode(s, q, le_at(s, q + 4, 4) as u32, le_at(s, q + 32, 2) as u16)
    }
}

/// The record at `p` decodes, is of a type the filter leaves out, and is not empty: the
/// cursor steps over it.
pub open spec fn skipped_record(s: Seq<u8>, p: int, f: Option<Seq<MftAttributeType>>) -> bool {
    header_good(s, p) && !wanted(f, record_type(s, p)) && record_len(s, p) > 0
}

pub open spec fn walk_measure(s: Seq<u8>, p: int) -> int {
    if 0 <= p <= s.len() {
        s.len() + 1 - p
    } else {
        0
    }
}

/// Where the cursor at `p` stops stepping over records the filter leaves out.
pub open spec fn stop_pos(s: Seq<u8>, p: int, f: Option<Seq<MftAttributeType>>) -> int
    decreases walk_measure(s, p),
{
    if p >= 0 && skipped_record(s, p, f) {
        stop_pos(s, p + record_len(s, p), f)
    } else {
        p
    }
}

proof fn lemma_stop_pos_ge(s: Seq<u8>, p: int, f: Option<Seq<MftAttributeType>>)
    requires
        p >= 0,
    ensures
        stop_pos(s, p, f) >= p,
    decreases walk_measure(s, p),
{
    if skipped_record(s, p, f) {
        lemma_stop_pos_ge(s, p + record_len(s, p), f);
    }
}

/// One step of the cursor from `offset`: what it yields, and whether it is exhausted
/// afterwards or where it then stands.
pub open spec fn next_ok(
    s: Seq<u8>,
    offset: int,
    f: Option<Seq<MftAttributeType>>,
    r: Option<Result<MftAttribute, Error>>,
    exhausted: bool,
    new_offset: int,
) -> bool {
    let q = stop_pos(s, offset, f);
    if !header_good(s, q) {
        exhausted && if header_end(s, q) {
            r is None
        } else {
            r matches Some(Err(e)) && attribute_header_ok(Err(e), s, q)
        }
    } else if !wanted(f, record_type(s, q)) {
        r is None && exhausted
    } else if !content_decodes(s, q) {
        (r matches Some(Err(_))) && exhausted
    } else {
        &&& r matches Some(Ok(a)) && a.header.start_offset == q && attribute_ok(a, s)
        &&& if record_len(s, q) == 0 {
            exhausted
        } else {
            !exhausted && new_offset == q + record_len(s, q)
        }
    }
}

/// `items` is what the cursor yields from `p` on, to its end.
pub open spec fn walk_ok(
    items: Seq<Result<MftAttribute, Error>>,
    s: Seq<u8>,
    p: int,
    f: Option<Seq<MftAttributeType>>,
) -> bool
    decreases walk_measure(s, p),
{
    let q = stop_pos(s, p, f);
    if q < p || p < 0 {
        false
    } else if !header_good(s, q) {
        if header_end(s, q) {
            items.len() == 0
        } else {
            items.len() == 1 && (items[0] matches Err(e) && attribute_header_ok(Err(e), s, q))
        }
    } else if !wanted(f, record_type(s, q)) {
        items.len() == 0
    } else if !content_decodes(s, q) {
        items.len() == 1 && items[0] is Err
    } else if items.len() == 0 || !(items[0] matches Ok(a) && (a.header.start_offset == q
        && attribute_ok(a, s))) {
        false
    } else if record_len(s, q) == 0 {
        items.len() == 1
    } else {
        walk_ok(items.drop_first(), s, q + record_len(s, q), f)
    }
}

fn type_wanted(types: &Option<Vec<MftAttributeType>>, t: MftAttributeType) -> (r: bool)
    ensures
        r == wanted(filter_of(*types), t),
{
    match types {
        None => true,
        Some(v) => {
            let mut i: usize = 0;
            while i < v.len()
                invariant
                    i <= v.len(),
                    *types == Some(*v),
                    forall|j: int| 0 <= j < i ==> v@[j] != t,
                decreases v.len() - i,
            {
                if v[i] == t {
                    assert(v@[i as int] == t);
                    assert(v@.contains(t));
                    return true;
                }
                i = i + 1;
            }
            false
        },
    }
}

/// A cursor over the attribute records of one entry. Each step decodes the header at
/// the cursor, moves the cursor past the record by its record length, and decodes the
/// content if the type is wanted. After an error or the end marker it yields nothing.
#[derive(Debug, Clone)]
pub struct AttributeIter {
    /// Where the next record starts in the entry's bytes.
    pub offset: u128,
    pub exhausted: bool,
    /// The attribute types to decode; `None` decodes every type.
    pub types: Option<Vec<MftAttributeType>>,
}

impl AttributeIter {
    /// The next wanted attribute; `None` once the records are over.
    pub fn next(&mut self, entry: &MftEntry) -> (r: Option<Result<MftAttribute, Error>>)
        ensures
            final(self).types == old(self).types,
            old(self).exhausted ==> r is None && final(self).exhausted,
            !old(self).exhausted ==> next_ok(
                entry.data@,
                old(self).offset as int,
                filter_of(old(self).types),
                r,
                final(self).exhausted,
                final(self).offset as int,
            ),
            !final(self).exhausted ==> final(self).offset > old(self).offset,
    {
        let data = entry.data.as_slice();
        let ghost s = entry.data@;
        let ghost f = filter_of(self.types);
        loop
            invariant
                data@ == s,
                s == entry.data@,
                f == filter_of(old(self).types),
                self.types == old(self).types,
                self.exhausted == old(self).exhausted,
                self.offset >= old(self).offset,
                !self.exhausted ==> stop_pos(s, old(self).offset as int, f) == stop_pos(
                    s,
                    self.offset as int,
                    f,
                ),
            ensures
                final(self).types == old(self).types,
            decreases 0x1_0000_0000_0000_0000_0000_0000_0000_0000 - self.offset + (if self.exhausted { 0int } else { 1int }),
        {
            if self.exhausted {
                return None;
            }
            let ghost here = self.offset as int;
            if self.offset > data.len() as u128 {
                assert(!header_good(s, here));
                self.exhausted = true;
                return Some(Err(Error::IoError));
            }
            let pos = self.offset as usize;
            let hr = MftAttributeHeader::from_stream(data, pos);
            proof {
                lemma_header_outcome(hr, s, here);
            }
            let header = match hr {
                Ok(Some(h)) => h,
                Ok(None) => {
                    self.exhausted = true;
                    return None;
                },
                Err(e) => {
                    self.exhausted = true;
                    return Some(Err(e));
                },
            };
            let step = header.record_length;
            if step == 0 {
                // Stepping by a zero record length would decode this record forever.
                self.exhausted = true;
            } else {
                self.offset = self.offset + step as u128;
            }
            if !type_wanted(&self.types, header.type_code) {
                if self.exhausted {
                    return None;
                }
                assert(skipped_record(s, here, f));
                continue;
            }
            let content = match &header.residential_header {
                ResidentialHeader::Resident(resident) => MftAttributeContent::from_stream_resident(
                    data,
                    &header,
                    resident,
                ),
                ResidentialHeader::NonResident(non_resident) => MftAttributeContent::from_stream_non_resident(
                    data,
                    &header,
                    non_resident,
                ),
            };
            proof {
                assert(wanted(f, record_type(s, here)));
                assert(!skipped_record(s, here, f));
                assert(stop_pos(s, here, f) == here);
                assert(header.start_offset == here);
                match header.residential_header {
                    ResidentialHeader::Resident(res) => {
                        assert(s[here + 8] == 0);
                        assert(res.data_offset == le_at(s, here + 20, 2));
                        assert(res.data_size == le_at(s, here + 16, 4));
                        lemma_resident_outcome(
                            content,
                            s,
                            here + res.data_offset,
                            header.type_code,
                            res.data_size,
                        );
                    },
                    ResidentialHeader::NonResident(nr) => {
                        assert(s[here + 8] != 0);
                        assert(nr.datarun_offset == le_at(s, here + 32, 2));
                        lemma_runs_outcome(
                            as_runs(content),
                            s,
                            here,
                            header.record_length,
                            nr.datarun_offset,
                        );
                    },
                }
            }
            return match content {
                Ok(c) => Some(Ok(MftAttribute { header, data: c })),
                Err(e) => {
                    self.exhausted = true;
                    Some(Err(e))
                },
            };
        }
    }
}

/// The first Win32 or Win32-and-DOS name at or after `i` among `names`, or the length.
pub open spec fn first_win32(names: Seq<FileNameAttr>, i: int) -> int
    decreases names.len() - i,
{
    if i < 0 || i >= names.len() {
        names.len() as int
    } else if names[i].namespace == FileNamespace::Win32 || names[i].namespace
        == FileNamespace::Win32AndDos {
        i
    } else {
        first_win32(names, i + 1)
    }
}

proof fn lemma_first_win32_range(names: Seq<FileNameAttr>, i: int)
    requires
        0 <= i <= names.len(),
    ensures
        i <= first_win32(names, i) <= names.len(),
    decreases names.len() - i,
{
    if i < names.len() {
        lemma_first_win32_range(names, i + 1);
    }
}

/// The name shown for a file: the first Win32 or Win32-and-DOS name, else the first name.
pub open spec fn best_name_index(names: Seq<FileNameAttr>) -> Option<int> {
    if names.len() == 0 {
        None
    } else if first_win32(names, 0) < names.len() {
        Some(first_win32(names, 0))
    } else {
        Some(0)
    }
}

/// Picks the name shown for a file among its file name attributes.
pub fn best_file_name(names: &Vec<FileNameAttr>) -> (r: Option<FileNameAttr>)
    ensures
        best_name_index(names@) is None ==> r is None,
        best_name_index(names@) matches Some(i) ==> r == Some(names@[i]),
{
    let mut i: usize = 0;
    while i < names.len()
        invariant
            i <= names.len(),
            first_win32(names@, 0) == first_win32(names@, i as int),
        decreases names.len() - i,
    {
        if names[i].namespace == FileNamespace::Win32 || names[i].namespace == FileNamespace::Win32AndDos {
            return Some(names[i].duplicate());
        }
        i = i + 1;
    }
    if names.len() > 0 {
        Some(names[0].duplicate())
    } else {
        None
    }
}

/// The filter that keeps only $FILE_NAME attributes.
pub open spec fn file_name_filter() -> Option<Seq<MftAttributeType>> {
    Some(seq![MftAttributeType::FileName])
}

/// Where the $FILE_NAME values that a cursor over file names yields from `p` on start,
/// in order (non-resident ones yield no value).
pub open spec fn names_from(s: Seq<u8>, p: int) -> Seq<int>
    decreases walk_measure(s, p),
{
    let q = stop_pos(s, p, file_name_filter());
    if q < p || p < 0 || !header_good(s, q) || record_type(s, q) != MftAttributeType::FileName
        || !content_decodes(s, q) {
        Seq::empty()
    } else {
        let rest = if record_len(s, q) == 0 {
            Seq::empty()
        } else {
            names_from(s, q + record_len(s, q))
        };
        if s[q + 8] == 0 {
            seq![q + le_at(s, q + 20, 2)] + rest
        } else {
            rest
        }
    }
}

/// The value at `q` is in the Win32 or Win32-and-DOS namespace.
pub open spec fn win32_at(s: Seq<u8>, q: int) -> bool {
    namespace_of(s[q + 65]) == Some(FileNamespace::Win32) || namespace_of(s[q + 65]) == Some(
        FileNamespace::Win32AndDos,
    )
}

pub open spec fn first_win32_at(s: Seq<u8>, ps: Seq<int>, i: int) -> int
    decreases ps.len() - i,
{
    if i < 0 || i >= ps.len() {
        ps.len() as int
    } else if win32_at(s, ps[i]) {
        i
    } else {
        first_win32_at(s, ps, i + 1)
    }
}

/// Where the name shown for the entry whose bytes are `s` and whose first record is at
/// `p` starts: the first Win32 or Win32-and-DOS file name, else the first file name.
pub open spec fn best_name_pos(s: Seq<u8>, p: int) -> Option<int> {
    let ps = names_from(s, p);
    if ps.len() == 0 {
        None
    } else if first_win32_at(s, ps, 0) < ps.len() {
        Some(ps[first_win32_at(s, ps, 0)])
    } else {
        Some(ps[0])
    }
}

/// Where the name shown for `e` starts in its bytes.
pub open spec fn entry_best_name(e: MftEntry) -> Option<int> {
    best_name_pos(e.data@, e.header.first_attribute_record_offset as int)
}

proof fn lemma_first_win32_same(s: Seq<u8>, ps: Seq<int>, names: Seq<FileNameAttr>, i: int)
    requires
        ps.len() == names.len(),
        0 <= i <= ps.len(),
        forall|k: int| 0 <= k < ps.len() ==> file_name_fields_at(#[trigger] names[k], s, ps[k]),
    ensures
        first_win32(names, i) == first_win32_at(s, ps, i),
    decreases ps.len() - i,
{
    if i < ps.len() {
        assert(file_name_fields_at(names[i], s, ps[i]));
        lemma_first_win32_same(s, ps, names, i + 1);
    }
}

/// The measure of a cursor: it falls with every step that yields something.
pub open spec fn cursor_measure(it: AttributeIter) -> int {
    if it.exhausted {
        0
    } else {
        0x1_0000_0000_0000_0000_0000_0000_0000_0001 - it.offset
    }
}

impl MftEntry {
    /// A cursor over all the attributes of the entry.
    pub fn iter_attributes(&self) -> (r: AttributeIter)
        ensures
            r.offset == self.header.first_attribute_record_offset,
            !r.exhausted,
            r.types is None,
    {
        self.iter_attributes_matching(None)
    }

    /// A cursor over the attributes whose type is in `types`; the others are stepped over.
    pub fn iter_attributes_matching(&self, types: Option<Vec<MftAttributeType>>) -> (r: AttributeIter)
        ensures
            r.offset == self.header.first_attribute_record_offset,
            !r.exhausted,
            r.types == types,
    {
        AttributeIter {
            offset: self.header.first_attribute_record_offset as u128,
            exhausted: false,
            types,
        }
    }

    /// Everything a cursor over the attributes whose type is in `types` yields.
    pub fn attributes_matching(&self, types: Option<Vec<MftAttributeType>>) -> (r: Vec<Result<MftAttribute, Error>>)
        ensures
            walk_ok(
                r@,
                self.data@,
                self.header.first_attribute_record_offset as int,
                filter_of(types),
            ),
    {
        let ghost s = self.data@;
        let ghost f = filter_of(types);
        let ghost first = self.header.first_attribute_record_offset as int;
        let mut it = self.iter_attributes_matching(types);
        let mut out: Vec<Result<MftAttribute, Error>> = Vec::new();
        assert(forall|rest: Seq<Result<MftAttribute, Error>>|
            #[trigger] walk_ok(rest, s, it.offset as int, f) ==> walk_ok(out@ + rest, s, first, f)) by {
            assert forall|rest: Seq<Result<MftAttribute, Error>>|
                #[trigger] walk_ok(rest, s, it.offset as int, f) implies walk_ok(out@ + rest, s, first, f) by {
                assert(out@ + rest =~= rest);
            }
        }
        loop
            invariant
                it.types == types,
                first == self.header.first_attribute_record_offset as int,
                f == filter_of(types),
                s == self.data@,
                !it.exhausted ==> forall|rest: Seq<Result<MftAttribute, Error>>|
                    #[trigger] walk_ok(rest, s, it.offset as int, f) ==> walk_ok(out@ + rest, s, first, f),
                it.exhausted ==> walk_ok(out@, s, first, f),
            decreases cursor_measure(it),
        {
            if it.exhausted {
                let r = it.next(self);
                return out;
            }
            let ghost old_off = it.offset as int;
            let ghost before = out@;
            proof {
                lemma_stop_pos_ge(s, old_off, f);
            }
            match it.next(self) {
                None => {
                    assert(walk_ok(Seq::<Result<MftAttribute, Error>>::empty(), s, old_off, f));
                    assert(before + Seq::<Result<MftAttribute, Error>>::empty() =~= before);
                    return out;
                },
                Some(item) => {
                    let ghost it1 = item;
                    out.push(item);
                    proof {
                        let q = stop_pos(s, old_off, f);
                        if it.exhausted {
                            assert(walk_ok(seq![it1], s, old_off, f));
                            assert(before + seq![it1] =~= out@);
                        } else {
                            assert forall|rest: Seq<Result<MftAttribute, Error>>|
                                #[trigger] walk_ok(rest, s, it.offset as int, f) implies walk_ok(
                                out@ + rest,
                                s,
                                first,
                                f,
                            ) by {
                                let longer = seq![it1] + rest;
                                assert(longer.drop_first() =~= rest);
                                assert(walk_ok(longer, s, old_off, f));
                                assert(before + longer =~= out@ + rest);
                            }
                        }
                    }
                },
            }
        }
    }

    /// The name shown for the entry: the first Win32 or Win32-and-DOS file name, else the
    /// first file name, among the $FILE_NAME values a cursor over the entry yields.
    pub fn find_best_name_attribute(&self) -> (r: Option<FileNameAttr>)
        ensures
            entry_best_name(*self) is None ==> r is None,
            entry_best_name(*self) matches Some(q) ==> (r matches Some(f) && file_name_fields_at(
                f,
                self.data@,
                q,
            )),
    {
        let ghost s = self.data@;
        let ghost first = self.header.first_attribute_record_offset as int;
        let mut types: Vec<MftAttributeType> = Vec::new();
        types.push(MftAttributeType::FileName);
        assert(types@ =~= seq![MftAttributeType::FileName]);
        let ghost f = file_name_filter();
        let mut it = self.iter_attributes_matching(Some(types));
        let mut names: Vec<FileNameAttr> = Vec::new();
        let ghost mut ps: Seq<int> = Seq::empty();
        loop
            invariant
                s == self.data@,
                first == self.header.first_attribute_record_offset as int,
                f == file_name_filter(),
                filter_of(it.types) == f,
                names@.len() == ps.len(),
                forall|k: int| 0 <= k < ps.len() ==> file_name_fields_at(#[trigger] names@[k], s, ps[k]),
                names_from(s, first) == ps + (if it.exhausted {
                    Seq::<int>::empty()
                } else {
                    names_from(s, it.offset as int)
                }),
            ensures
                it.exhausted,
                names@.len() == ps.len(),
                forall|k: int| 0 <= k < ps.len() ==> file_name_fields_at(#[trigger] names@[k], s, ps[k]),
                names_from(s, first) == ps + Seq::<int>::empty(),
            decreases cursor_measure(it),
        {
            if it.exhausted {
                break;
            }
            let ghost old_off = it.offset as int;
            proof {
                lemma_stop_pos_ge(s, old_off, f);
            }
            let item = it.next(self);
            proof {
                let q = stop_pos(s, old_off, f);
                if header_good(s, q) {
                    assert(seq![MftAttributeType::FileName].contains(record_type(s, q)) == (
                    record_type(s, q) == MftAttributeType::FileName)) by {
                        if record_type(s, q) == MftAttributeType::FileName {
                            assert(seq![MftAttributeType::FileName][0] == record_type(s, q));
                        }
                    }
                }
            }
            match item {
                None => {
                    assert(ps + Seq::<int>::empty() =~= ps);
                },
                Some(Err(_)) => {
                    assert(ps + Seq::<int>::empty() =~= ps);
                },
                Some(Ok(a)) => {
                    let ghost q = a.header.start_offset as int;
                    proof {
                        lemma_header_outcome(Ok(Some(a.header)), s, q);
                    }
                    match a.data {
                        MftAttributeContent::AttrX30(name) => {
                            proof {
                                match a.header.residential_header {
                                    ResidentialHeader::Resident(res) => {},
                                    ResidentialHeader::NonResident(_) => {
                                        assert(false);
                                    },
                                }
                                let cpos = q + le_at(s, q + 20, 2);
                                assert(file_name_fields_at(name, s, cpos));
                                let old_ps = ps;
                                ps = ps.push(cpos);
                                if it.exhausted {
                                    assert(names_from(s, old_off) =~= seq![cpos]);
                                    assert(old_ps + seq![cpos] =~= ps + Seq::<int>::empty());
                                } else {
                                    assert(old_ps + (seq![cpos] + names_from(s, it.offset as int))
                                        =~= ps + names_from(s, it.offset as int));
                                }
                            }
                            names.push(name);
                        },
                        _ => {
                            proof {
                                if s[q + 8] == 0 {
                                    match a.header.residential_header {
                                        ResidentialHeader::Resident(res) => {},
                                        ResidentialHeader::NonResident(_) => {
                                            assert(false);
                                        },
                                    }
                                }
                                if it.exhausted {
                                    assert(ps + Seq::<int>::empty() =~= ps);
                                }
                            }
                        },
                    }
                },
            }
        }
        assert(ps + Seq::<int>::empty() =~= ps);
        proof {
            lemma_first_win32_same(s, ps, names@, 0);
            lemma_first_win32_range(names@, 0);
            assert(names_from(s, first) == ps);
        }
        let r = best_file_name(&names);
        proof {
            if let Some(i) = best_name_index(names@) {
                assert(file_name_fields_at(names@[i], s, ps[i]));
                assert(entry_best_name(*self) == Some(ps[i]));
            }
        }
        r
    }
}

/// Two entry headers agree on every field.
pub open spec fn same_entry_header(a: EntryHeader, b: EntryHeader) -> bool {
    &&& a.signature@ == b.signature@
    &&& a.usa_offset == b.usa_offset
    &&& a.usa_size == b.usa_size
    &&& a.metadata_transaction_journal == b.metadata_transaction_journal
    &&& a.sequence == b.sequence
    &&& a.hard_link_count == b.hard_link_count
    &&& a.first_attribute_record_offset == b.first_attribute_record_offset
    &&& a.flags == b.flags
    &&& a.used_entry_size == b.used_entry_size
    &&& a.total_entry_size == b.total_entry_size
    &&& a.base_reference == b.base_reference
    &&& a.first_attribute_id == b.first_attribute_id
    &&& a.record_number == b.record_number
}

/// Decoding the entry header at the same position of the same bytes twice gives the
/// same outcome: the same kind of error, or headers equal field by field.
pub proof fn lemma_entry_header_pure(
    s: Seq<u8>,
    p: int,
    id: u64,
    r1: Result<EntryHeader, Error>,
    r2: Result<EntryHeader, Error>,
)
    requires
        header_result_ok(r1, s, p, id),
        header_result_ok(r2, s, p, id),
    ensures
        r1 is Ok <==> r2 is Ok,
        r1 matches Ok(h1) ==> (r2 matches Ok(h2) && same_entry_header(h1, h2)),
        r1 matches Err(Error::IoError) ==> (r2 matches Err(Error::IoError)),
        r1 matches Err(Error::InvalidEntrySignature { bad_sig: b1 }) ==> (r2 matches Err(
            Error::InvalidEntrySignature { bad_sig: b2 },
        ) && b1@ == b2@),
{
}

/// Fixing up the same bytes twice gives the same bytes and the same outcome.
pub proof fn lemma_fixups_pure(h: EntryHeader, s: Seq<u8>, k1: int, k2: int)
    requires
        fixups_in_bounds(h, s),
        first_bad_stride(s, h.usa_offset as int, h.usa_size - 1, k1),
        first_bad_stride(s, h.usa_offset as int, h.usa_size - 1, k2),
    ensures
        k1 == k2,
        fixed_upto(s, h.usa_offset as int, k1) == fixed_upto(s, h.usa_offset as int, k2),
{
    let uo = h.usa_offset as int;
    if k1 < k2 {
        assert(s[512 * k1 + 510] == s[uo] && s[512 * k1 + 511] == s[uo + 1]);
    } else if k2 < k1 {
        assert(s[512 * k2 + 510] == s[uo] && s[512 * k2 + 511] == s[uo + 1]);
    }
}

} // verus!
