//! The mapping-pairs ("data runs") encoding of a non-resident attribute's extents.
use crate::bytes::{in_bounds, le_at, lemma_le_at_bound, lemma_pow256_values, pow256, read_le};
use vstd::prelude::*;

verus! {

#[derive(Debug, Copy, Clone, PartialEq, Eq, Structural)]
pub enum RunType {
    Standard,
    Sparse,
}

#[derive(Debug, Copy, Clone, PartialEq, Eq, Structural)]
pub struct DataRun {
    pub lcn_offset: u64,
    pub lcn_length: u64,
    pub run_type: RunType,
}

/// The two's-complement value of an `n`-byte field whose unsigned value is `v`.
pub open spec fn sign_extend(v: nat, n: nat) -> int {
    if n > 0 && v >= pow256(n) / 2 {
        v - pow256(n)
    } else {
        v as int
    }
}

/// `prev + delta`, wrapping modulo 2^64.
pub open spec fn add_delta(prev: u64, delta: int) -> u64 {
    ((prev + delta) % 0x1_0000_0000_0000_0000) as u64
}

/// The runs encoded from position `p` of `s` to the terminating zero header, where
/// `prev` is the offset of the run decoded just before (`None` before the first run,
/// whose signed offset field is taken from 0);
/// `None` when the encoding is malformed or truncated.
pub open spec fn runs_from(s: Seq<u8>, p: int, prev: Option<u64>) -> Option<Seq<DataRun>>
    decreases s.len() - p,
{
    if p < 0 || p >= s.len() {
        None
    } else if s[p] == 0 {
        Some(Seq::empty())
    } else {
        let offset_size = (s[p] / 16) as nat;
        let length_size = (s[p] % 16) as nat;
        let q = p + 1 + length_size;
        if offset_size > 8 || length_size > 8 || !in_bounds(s, p + 1, length_size as int) {
            None
        } else if offset_size != 0 && !in_bounds(s, q, offset_size as int) {
            None
        } else {
            let length = le_at(s, p + 1, length_size) as u64;
            let raw = le_at(s, q, offset_size);
            let run = if offset_size == 0 {
                DataRun { lcn_offset: 0, lcn_length: length, run_type: RunType::Sparse }
            } else {
                let offset = match prev {
                    Some(last) => add_delta(last, sign_extend(raw, offset_size)),
                    None => add_delta(0, sign_extend(raw, offset_size)),
                };
                DataRun { lcn_offset: offset, lcn_length: length, run_type: RunType::Standard }
            };
            match runs_from(s, q + offset_size, Some(run.lcn_offset)) {
                Some(rest) => Some(seq![run] + rest),
                None => None,
            }
        }
    }
}

/// The runs that `bytes` encodes.
pub open spec fn data_runs_of(bytes: Seq<u8>) -> Option<Seq<DataRun>> {
    runs_from(bytes, 0, None)
}

/// Reads the first `width` bytes of `bytes` as an unsigned little-endian value.
pub fn decode_run_value(bytes: &[u8], width: u8) -> (r: Option<u64>)
    requires
        width <= 8,
    ensures
        r == (if width <= bytes@.len() { Some(le_at(bytes@, 0, width as nat) as u64) } else { None::<u64> }),
{
    read_le(bytes, 0, width as usize)
}

/// Reads `width` bytes at `pos` as a little-endian value sign-extended to 64 bits.
fn read_signed(bytes: &[u8], pos: usize, width: u8) -> (r: Option<i64>)
    requires
        1 <= width <= 8,
    ensures
        r == (if in_bounds(bytes@, pos as int, width as int) {
            Some(sign_extend(le_at(bytes@, pos as int, width as nat), width as nat) as i64)
        } else {
            None::<i64>
        }),
        r matches Some(v) ==> v as int == sign_extend(le_at(bytes@, pos as int, width as nat), width as nat),
{
    match read_le(bytes, pos, width as usize) {
        None => None,
        Some(v) => {
            proof {
                lemma_pow256_values();
                lemma_le_at_bound(bytes@, pos as int, width as nat);
            }
            if width == 8 {
                if v >= 0x8000_0000_0000_0000 {
                    Some(-((u64::MAX - v) as i64) - 1)
                } else {
                    Some(v as i64)
                }
            } else {
                let full: u64 = if width == 1 {
                    0x100
                } else if width == 2 {
                    0x1_0000
                } else if width == 3 {
                    0x100_0000
                } else if width == 4 {
                    0x1_0000_0000
                } else if width == 5 {
                    0x100_0000_0000
                } else if width == 6 {
                    0x1_0000_0000_0000
                } else {
                    0x100_0000_0000_0000
                };
                assert(full == pow256(width as nat));
                if v >= full / 2 {
                    Some(v as i64 - full as i64)
                } else {
                    Some(v as i64)
                }
            }
        },
    }
}

/// Reads the first `width` bytes of `bytes` as a little-endian value sign-extended
/// from the field width to 64 bits.
pub fn decode_run_svalue(bytes: &[u8], width: u8) -> (r: Option<i64>)
    requires
        1 <= width <= 8,
    ensures
        r == (if width <= bytes@.len() {
            Some(sign_extend(le_at(bytes@, 0, width as nat), width as nat) as i64)
        } else {
            None::<i64>
        }),
{
    read_signed(bytes, 0, width)
}

/// Decodes a mapping-pairs array into absolute runs; `None` when it is malformed
/// or ends before its terminating zero byte.
pub fn decode_data_runs(runs: &[u8]) -> (r: Option<Vec<DataRun>>)
    ensures
        r matches Some(v) ==> data_runs_of(runs@) == Some(v@),
        r is None <==> data_runs_of(runs@) is None,
{
    let mut out: Vec<DataRun> = Vec::new();
    let mut pos: usize = 0;
    let mut prev: Option<u64> = None;
    loop
        invariant
            pos <= runs.len(),
            data_runs_of(runs@) == (match runs_from(runs@, pos as int, prev) {
                Some(rest) => Some(out@ + rest),
                None => None::<Seq<DataRun>>,
            }),
        decreases runs.len() - pos,
    {
        if pos >= runs.len() {
            return None;
        }
        let h = runs[pos];
        if h == 0 {
            assert(out@ + Seq::<DataRun>::empty() == out@);
            return Some(out);
        }
        let offset_size = h / 16;
        let length_size = h % 16;
        if offset_size > 8 || length_size > 8 {
            return None;
        }
        let length = match read_le(runs, pos + 1, length_size as usize) {
            Some(v) => v,
            None => {
                return None;
            },
        };
        let q: usize = pos + 1 + length_size as usize;
        let run;
        let next: usize;
        if offset_size != 0 {
            let last: u64 = match prev {
                Some(l) => l,
                None => 0,
            };
            let offset = match read_signed(runs, q, offset_size) {
                Some(delta) => {
                    let o = last.wrapping_add_signed(delta);
                    assert(o == add_delta(last, delta as int));
                    o
                },
                None => {
                    return None;
                },
            };
            run = DataRun { lcn_offset: offset, lcn_length: length, run_type: RunType::Standard };
            next = q + offset_size as usize;
        } else {
            run = DataRun { lcn_offset: 0, lcn_length: length, run_type: RunType::Sparse };
            next = q;
        }
        proof {
            let rest = runs_from(runs@, next as int, Some(run.lcn_offset));
            if let Some(r) = rest {
                assert(out@.push(run) + r == out@ + (seq![run] + r));
            }
        }
        out.push(run);
        prev = Some(run.lcn_offset);
        pos = next;
    }
}


/// Runs decoded from the same bytes are the same runs; in particular two successful
/// decodings of one mapping-pairs array agree run by run.
pub proof fn lemma_data_runs_pure(a: Seq<u8>, b: Seq<u8>, r1: Seq<DataRun>, r2: Seq<DataRun>)
    requires
        a == b,
        data_runs_of(a) == Some(r1),
        data_runs_of(b) == Some(r2),
    ensures
        r1 == r2,
{
}

} // verus!
