//! Text helpers: UTF-16 names and hex rendering.
use crate::bytes::{in_bounds, le_at, read_u16};
use vstd::prelude::*;

verus! {

/// The UTF-16 decoding of `units`: a unit outside 0xD800..=0xDFFF is its own character,
/// a high surrogate followed by a low one is one supplementary character, and any other
/// surrogate makes the text invalid (`None`).
pub open spec fn utf16_decoded(units: Seq<u16>) -> Option<Seq<char>>
    decreases units.len(),
{
    if units.len() == 0 {
        Some(Seq::empty())
    } else if units[0] < 0xD800 || units[0] > 0xDFFF {
        match utf16_decoded(units.drop_first()) {
            Some(rest) => Some(seq![units[0] as char] + rest),
            None => None,
        }
    } else if units[0] <= 0xDBFF && units.len() >= 2 && 0xDC00 <= units[1] <= 0xDFFF {
        let c = (0x10000 + (units[0] - 0xD800) * 0x400 + (units[1] - 0xDC00)) as char;
        match utf16_decoded(units.skip(2)) {
            Some(rest) => Some(seq![c] + rest),
            None => None,
        }
    } else {
        None
    }
}

/// Relies on `std::char::decode_utf16`, collected into a `String`: the UTF-16 text of
/// the code units, or `None` on an unpaired surrogate.
#[verifier::external_body]
fn decode_utf16_units(units: &[u16]) -> (r: Option<String>)
    ensures
        r.is_some() == utf16_decoded(units@).is_some(),
        r.is_some() ==> r.unwrap()@ == utf16_decoded(units@).unwrap(),
{
    std::char::decode_utf16(units.iter().copied()).collect::<Result<String, _>>().ok()
}

/// What encoding's UTF-16LE decoder yields for `bytes` when undecodable input is
/// skipped.
pub uninterp spec fn utf16le_lossy(bytes: Seq<u8>) -> Seq<char>;

/// Relies on `encoding::all::UTF_16LE.decode` with `DecoderTrap::Ignore`: the text of the
/// bytes, skipping what does not decode. That trap always lets decoding go on, so the
/// decoder never reports an error. No bytes give the empty text.
#[verifier::external_body]
pub(crate) fn decode_utf16le_lossy(bytes: &[u8]) -> (r: String)
    ensures
        r@ == utf16le_lossy(bytes@),
        bytes@.len() == 0 ==> r@.len() == 0,
{
    encoding::Encoding::decode(encoding::all::UTF_16LE, bytes, encoding::DecoderTrap::Ignore).unwrap_or_default()
}

/// Appends one character; `String::push`.
#[verifier::external_body]
pub(crate) fn push_char(s: &mut String, c: char)
    ensures
        final(s)@ == old(s)@.push(c),
{
    s.push(c)
}

/// Appends text; `String::push_str`.
#[verifier::external_body]
pub(crate) fn push_str(s: &mut String, t: &str)
    ensures
        final(s)@ == old(s)@ + t@,
{
    s.push_str(t)
}

/// The `n` 16-bit little-endian code units at `p` of `s`.
pub open spec fn units_at(s: Seq<u8>, p: int, n: nat) -> Seq<u16> {
    Seq::new(n, |i: int| le_at(s, p + 2 * i, 2) as u16)
}

/// The index of the first zero unit of `u` at or after `i`, or its length.
pub open spec fn first_nul_from(u: Seq<u16>, i: int) -> int
    decreases u.len() - i,
{
    if i < 0 || i >= u.len() {
        u.len() as int
    } else if u[i] == 0 {
        i
    } else {
        first_nul_from(u, i + 1)
    }
}

/// The units of `u` before the first zero unit.
pub open spec fn nul_prefix(u: Seq<u16>) -> Seq<u16> {
    u.take(first_nul_from(u, 0))
}

/// What reading a name of `n` code units at `p` of `s` gives: `Err(())` when the units
/// run past the end, else the decoded text up to the first zero unit.
pub open spec fn utf16_name_at(s: Seq<u8>, p: int, n: nat) -> Result<Option<Seq<char>>, ()> {
    if !in_bounds(s, p, 2 * n as int) {
        Err(())
    } else {
        Ok(utf16_decoded(nul_prefix(units_at(s, p, n))))
    }
}

/// The outcome of `read_utf16_string`, in the terms of `utf16_name_at`.
pub open spec fn name_result_ok(r: Result<String, bool>, s: Seq<u8>, p: int, n: nat) -> bool {
    match utf16_name_at(s, p, n) {
        Err(()) => r == Err::<String, bool>(true),
        Ok(None) => r == Err::<String, bool>(false),
        Ok(Some(t)) => r matches Ok(name) && name@ == t,
    }
}

proof fn lemma_first_nul_skip(u: Seq<u16>, i: int)
    requires
        0 <= i < u.len(),
        u[i] != 0,
    ensures
        first_nul_from(u, i) == first_nul_from(u, i + 1),
{
}

/// Reads `len` UTF-16LE code units at `pos` of `data` and decodes them up to the first
/// zero unit. `Err(true)` when the units run past the end of `data`, `Err(false)` when
/// they are not valid UTF-16.
pub fn read_utf16_string(data: &[u8], pos: usize, len: usize) -> (r: Result<String, bool>)
    ensures
        name_result_ok(r, data@, pos as int, len as nat),
{
    if pos > data.len() || len > (data.len() - pos) / 2 {
        return Err(true);
    }
    let ghost s = data@;
    let mut units: Vec<u16> = Vec::new();
    let mut i: usize = 0;
    let mut stop: bool = false;
    let ghost full = units_at(s, pos as int, len as nat);
    while i < len && !stop
        invariant
            pos + 2 * len <= data.len(),
            s == data@,
            i <= len,
            full == units_at(s, pos as int, len as nat),
            units@ == full.take(i as int),
            !stop ==> first_nul_from(full, 0) == first_nul_from(full, i as int),
            stop ==> first_nul_from(full, 0) == i,
        decreases 2 * (len - i) + (if stop { 0int } else { 1int }),
    {
        let u = read_u16(data, pos + 2 * i).unwrap();
        assert(u == full[i as int]);
        if u == 0 {
            stop = true;
        } else {
            proof {
                lemma_first_nul_skip(full, i as int);
            }
            units.push(u);
            i = i + 1;
            assert(units@ =~= full.take(i as int));
        }
    }
    proof {
        if !stop {
            assert(first_nul_from(full, i as int) == len);
        }
        assert(units@ =~= nul_prefix(full));
    }
    match decode_utf16_units(units.as_slice()) {
        Some(text) => Ok(text),
        None => Err(false),
    }
}

/// The upper-case hex digit of `d < 16`.
pub open spec fn hex_digit(d: nat) -> char {
    if d < 10 {
        (('0' as nat) + d) as char
    } else {
        (('A' as nat) + d - 10) as char
    }
}

/// Two upper-case hex digits for each byte.
pub open spec fn hex_of(b: Seq<u8>) -> Seq<char>
    decreases b.len(),
{
    if b.len() == 0 {
        Seq::empty()
    } else {
        hex_of(b.drop_last()) + seq![hex_digit((b.last() / 16) as nat), hex_digit((b.last() % 16) as nat)]
    }
}

fn hex_digit_char(d: u8) -> (c: char)
    requires
        d < 16,
    ensures
        c == hex_digit(d as nat),
{
    if d < 10 {
        ((48u8 + d) as char)
    } else {
        ((55u8 + d) as char)
    }
}

/// Renders bytes as upper-case hex, two digits per byte.
pub fn to_hex_string(bytes: &[u8]) -> (r: String)
    ensures
        r@ == hex_of(bytes@),
{
    let mut s = String::new();
    let mut i: usize = 0;
    while i < bytes.len()
        invariant
            i <= bytes.len(),
            s@ == hex_of(bytes@.take(i as int)),
        decreases bytes.len() - i,
    {
        let b = bytes[i];
        push_char(&mut s, hex_digit_char(b / 16));
        push_char(&mut s, hex_digit_char(b % 16));
        proof {
            let t = bytes@.take(i + 1);
            assert(t.drop_last() =~= bytes@.take(i as int));
        }
        i = i + 1;
    }
    assert(bytes@.take(i as int) =~= bytes@);
    s
}

} // verus!
