//! The choices of the dump tool: output format, entry ranges, stream file names.
use crate::utils::push_char;
use vstd::prelude::*;

verus! {

#[derive(Debug, Copy, Clone, PartialEq, Eq, Structural)]
pub enum OutputFormat {
    JSON,
    JSONL,
    CSV,
}

/// Whether two strings hold the same characters.
fn same_text(a: &str, b: &str) -> (r: bool)
    ensures
        r == (a@ == b@),
{
    let n = a.unicode_len();
    if n != b.unicode_len() {
        return false;
    }
    let mut i: usize = 0;
    while i < n
        invariant
            n == a@.len() == b@.len(),
            i <= n,
            forall|j: int| 0 <= j < i ==> a@[j] == b@[j],
        decreases n - i,
    {
        if a.get_char(i) != b.get_char(i) {
            return false;
        }
        i = i + 1;
    }
    assert(a@ =~= b@);
    true
}

impl OutputFormat {
    pub fn from_str(s: &str) -> (r: Option<OutputFormat>)
        ensures
            r == (if s@ == "json"@ {
                Some(OutputFormat::JSON)
            } else if s@ == "jsonl"@ {
                Some(OutputFormat::JSONL)
            } else if s@ == "csv"@ {
                Some(OutputFormat::CSV)
            } else {
                None::<OutputFormat>
            }),
    {
        if same_text(s, "json") {
            Some(OutputFormat::JSON)
        } else if same_text(s, "jsonl") {
            Some(OutputFormat::JSONL)
        } else if same_text(s, "csv") {
            Some(OutputFormat::CSV)
        } else {
            None
        }
    }
}

/// Relies on `std::path::is_separator`: '/' separates paths everywhere, '\\' on some
/// platforms, nothing else anywhere.
#[verifier::external_body]
fn is_separator(c: char) -> (r: bool)
    ensures
        c == '/' ==> r,
        r ==> c == '/' || c == '\\',
{
    std::path::is_separator(c)
}

/// The characters of `component` with every path separator replaced by '_'.
pub open spec fn sanitized_char(c: char, d: char) -> bool {
    if c == '/' {
        d == '_'
    } else if c == '\\' {
        d == '_' || d == '\\'
    } else {
        d == c
    }
}

/// `component` with each path separator replaced by '_', so that it names one file.
pub fn sanitized(component: &str) -> (r: String)
    ensures
        r@.len() == component@.len(),
        forall|i: int| 0 <= i < r@.len() ==> sanitized_char(component@[i], #[trigger] r@[i]),
{
    let n = component.unicode_len();
    let mut buf = String::new();
    let mut i: usize = 0;
    while i < n
        invariant
            n == component@.len(),
            i <= n,
            buf@.len() == i,
            forall|j: int| 0 <= j < i ==> sanitized_char(component@[j], #[trigger] buf@[j]),
        decreases n - i,
    {
        let c = component.get_char(i);
        if is_separator(c) {
            push_char(&mut buf, '_');
        } else {
            push_char(&mut buf, c);
        }
        i = i + 1;
    }
    buf
}

/// The value of the decimal digits `t`.
pub open spec fn digits_value(t: Seq<char>) -> nat
    decreases t.len(),
{
    if t.len() == 0 {
        0
    } else {
        10 * digits_value(t.drop_last()) + ((t.last() as nat) - ('0' as nat)) as nat
    }
}

pub open spec fn is_digit(c: char) -> bool {
    '0' <= c && c <= '9'
}

/// `t` without a leading '+'.
pub open spec fn unsigned_digits(t: Seq<char>) -> Seq<char> {
    if t.len() > 0 && t[0] == '+' {
        t.drop_first()
    } else {
        t
    }
}

pub open spec fn all_digits(d: Seq<char>) -> bool {
    forall|i: int| 0 <= i < d.len() ==> is_digit(#[trigger] d[i])
}

/// What `str::parse::<usize>` accepts: an optional '+' and at least one decimal digit,
/// of a value that fits.
pub open spec fn parse_usize(t: Seq<char>) -> Option<usize> {
    let d = unsigned_digits(t);
    if d.len() == 0 || !all_digits(d) {
        None
    } else if digits_value(d) > usize::MAX {
        None
    } else {
        Some(digits_value(d) as usize)
    }
}

/// The number of `c` in `t`.
pub open spec fn count_char(t: Seq<char>, c: char) -> nat
    decreases t.len(),
{
    if t.len() == 0 {
        0
    } else {
        count_char(t.drop_last(), c) + if t.last() == c {
            1nat
        } else {
            0nat
        }
    }
}

/// The index of the first `c` in `t` at or after `i`, or the length of `t`.
pub open spec fn next_char(t: Seq<char>, c: char, i: int) -> int
    decreases t.len() - i,
{
    if i < 0 || i >= t.len() {
        t.len() as int
    } else if t[i] == c {
        i
    } else {
        next_char(t, c, i + 1)
    }
}

/// One part of a range list: "n" is n..=n, "a-b" is a..=b.
pub open spec fn parse_part(t: Seq<char>) -> Option<(usize, usize)> {
    if count_char(t, '-') == 0 {
        match parse_usize(t) {
            Some(n) => Some((n, n)),
            None => None,
        }
    } else if count_char(t, '-') == 1 {
        let d = next_char(t, '-', 0);
        match (parse_usize(t.take(d)), parse_usize(t.skip(d + 1))) {
            (Some(a), Some(b)) => Some((a, b)),
            _ => None,
        }
    } else {
        None
    }
}

/// The ranges of the comma-separated parts of `s` from `i` on.
pub open spec fn parse_ranges_from(s: Seq<char>, i: int) -> Option<Seq<(usize, usize)>>
    decreases s.len() - i,
{
    let j = next_char(s, ',', i);
    if i < 0 || i > s.len() || j < i {
        None
    } else {
        match parse_part(s.subrange(i, j)) {
            None => None,
            Some(p) => if j >= s.len() {
                Some(seq![p])
            } else {
                match parse_ranges_from(s, j + 1) {
                    Some(rest) => Some(seq![p] + rest),
                    None => None,
                }
            },
        }
    }
}

/// The ranges that a list such as "1-5,8,10-19" names.
pub open spec fn parse_ranges(s: Seq<char>) -> Option<Seq<(usize, usize)>> {
    parse_ranges_from(s, 0)
}

/// A range list that does not parse.
#[derive(Debug, Copy, Clone, PartialEq, Eq, Structural)]
pub enum RangesError {
    InvalidRange,
}

/// Inclusive ranges of entry numbers.
#[derive(Debug, Clone)]
pub struct Ranges(pub Vec<core::ops::RangeInclusive<usize>>);


proof fn lemma_digits_prefix(d: Seq<char>, k: int)
    requires
        0 <= k < d.len(),
    ensures
        digits_value(d.take(k + 1)) == 10 * digits_value(d.take(k)) + ((d[k] as nat) - ('0' as nat)) as nat,
{
    assert(d.take(k + 1).drop_last() =~= d.take(k));
}

proof fn lemma_digits_mono(d: Seq<char>, k: int)
    requires
        0 <= k <= d.len(),
        forall|i: int| 0 <= i < d.len() ==> is_digit(#[trigger] d[i]),
    ensures
        digits_value(d.take(k)) <= digits_value(d),
    decreases d.len() - k,
{
    if k < d.len() {
        lemma_digits_prefix(d, k);
        lemma_digits_mono(d, k + 1);
    } else {
        assert(d.take(k) =~= d);
    }
}

/// Parses the characters `a..b` of `s` as `str::parse::<usize>` does.
fn parse_number(s: &str, a: usize, b: usize) -> (r: Option<usize>)
    requires
        a <= b <= s@.len(),
    ensures
        r == parse_usize(s@.subrange(a as int, b as int)),
{
    let ghost t = s@.subrange(a as int, b as int);
    let mut start = a;
    if start < b && s.get_char(start) == '+' {
        start = start + 1;
    }
    let ghost d = s@.subrange(start as int, b as int);
    assert(d =~= unsigned_digits(t));
    if start == b {
        assert(d.len() == 0);
        return None;
    }
    let mut acc: usize = 0;
    let mut i: usize = start;
    while i < b
        invariant
            start <= i <= b <= s@.len(),
            a <= start,
            d == s@.subrange(start as int, b as int),
            t == s@.subrange(a as int, b as int),
            d == unsigned_digits(t),
            forall|j: int| 0 <= j < i - start ==> is_digit(#[trigger] d[j]),
            acc == digits_value(d.take(i - start)),
        decreases b - i,
    {
        let c = s.get_char(i);
        assert(c == d[i - start]);
        if !('0' <= c && c <= '9') {
            assert(!is_digit(d[i - start]));
            assert(!all_digits(d));
            assert(parse_usize(t) is None);
            return None;
        }
        let digit = (c as u32 - '0' as u32) as usize;
        proof {
            lemma_digits_prefix(d, i - start);
        }
        let next = match acc.checked_mul(10) {
            Some(m) => m.checked_add(digit),
            None => None,
        };
        match next {
            Some(v) => {
                acc = v;
            },
            None => {
                proof {
                    if all_digits(d) {
                        lemma_digits_mono(d, i - start + 1);
                        assert(digits_value(d) > usize::MAX);
                    }
                    assert(parse_usize(t) is None);
                }
                return None;
            },
        }
        i = i + 1;
    }
    assert(d.take(i - start) =~= d);
    Some(acc)
}

/// The index of the first `c` at or after `i` in `s`, or its length.
fn find_char(s: &str, c: char, i: usize) -> (r: usize)
    requires
        i <= s@.len(),
    ensures
        r == next_char(s@, c, i as int),
        i <= r <= s@.len(),
{
    let n = s.unicode_len();
    let mut k = i;
    while k < n
        invariant
            i <= k <= n == s@.len(),
            next_char(s@, c, i as int) == next_char(s@, c, k as int),
        decreases n - k,
    {
        if s.get_char(k) == c {
            return k;
        }
        k = k + 1;
    }
    k
}

proof fn lemma_count_prefix(t: Seq<char>, k: int, c: char)
    requires
        0 <= k < t.len(),
    ensures
        count_char(t.take(k + 1), c) == count_char(t.take(k), c) + if t[k] == c { 1nat } else { 0nat },
{
    assert(t.take(k + 1).drop_last() =~= t.take(k));
}

/// Parses the part `a..b` of `s`: "n" or "a-b".
fn parse_segment(s: &str, a: usize, b: usize) -> (r: Option<(usize, usize)>)
    requires
        a <= b <= s@.len(),
    ensures
        r == parse_part(s@.subrange(a as int, b as int)),
{
    let ghost t = s@.subrange(a as int, b as int);
    let mut dashes: usize = 0;
    let mut first: usize = b;
    let mut i: usize = a;
    while i < b
        invariant
            a <= i <= b <= s@.len(),
            t == s@.subrange(a as int, b as int),
            dashes <= 2,
            dashes < 2 ==> dashes == count_char(t.take(i - a), '-'),
            dashes == 2 ==> count_char(t.take(i - a), '-') >= 2,
            dashes == 0 ==> first == b && next_char(t, '-', 0) == next_char(t, '-', i - a),
            dashes > 0 ==> a <= first < b && next_char(t, '-', 0) == first - a,
        decreases b - i,
    {
        proof {
            lemma_count_prefix(t, i - a, '-');
        }
        if s.get_char(i) == '-' {
            if dashes == 0 {
                first = i;
            }
            if dashes < 2 {
                dashes = dashes + 1;
            }
        }
        i = i + 1;
    }
    assert(t.take(i - a) =~= t);
    if dashes == 0 {
        match parse_number(s, a, b) {
            Some(n) => Some((n, n)),
            None => None,
        }
    } else if dashes == 1 {
        let lo = parse_number(s, a, first);
        let hi = parse_number(s, first + 1, b);
        assert(t.take(first - a) =~= s@.subrange(a as int, first as int));
        assert(t.skip(first - a + 1) =~= s@.subrange(first + 1, b as int));
        match (lo, hi) {
            (Some(x), Some(y)) => Some((x, y)),
            _ => None,
        }
    } else {
        proof {
            assert(count_char(t, '-') >= 2);
        }
        None
    }
}

/// The bounds of each range.
pub open spec fn bounds_of(rs: Seq<core::ops::RangeInclusive<usize>>) -> Seq<(usize, usize)> {
    rs.map_values(|r: core::ops::RangeInclusive<usize>| (r@.start, r@.end))
}

/// The numbers `a..=b` in order.
pub open spec fn span(a: usize, b: usize) -> Seq<usize> {
    if a <= b {
        Seq::new((b - a + 1) as nat, |i: int| (a + i) as usize)
    } else {
        Seq::empty()
    }
}

/// The numbers of the ranges, one range after the other.
pub open spec fn chain_of(rs: Seq<(usize, usize)>) -> Seq<usize>
    decreases rs.len(),
{
    if rs.len() == 0 {
        Seq::empty()
    } else {
        chain_of(rs.drop_last()) + span(rs.last().0, rs.last().1)
    }
}

/// Relies on `RangeInclusive::start`: the lower bound.
#[verifier::external_body]
fn range_start(r: &core::ops::RangeInclusive<usize>) -> (s: usize)
    ensures
        s == r@.start,
{
    *r.start()
}

/// Relies on `RangeInclusive::end`: the upper bound.
#[verifier::external_body]
fn range_end(r: &core::ops::RangeInclusive<usize>) -> (e: usize)
    ensures
        e == r@.end,
{
    *r.end()
}

impl Ranges {
    /// Parses a list such as "1-5,8,10-19": comma-separated numbers or pairs joined by
    /// one '-'.
    pub fn from_str(s: &str) -> (r: Result<Ranges, RangesError>)
        ensures
            r is Ok <==> parse_ranges(s@) is Some,
            r matches Ok(rs) ==> parse_ranges(s@) == Some(bounds_of(rs.0@)) && forall|i: int|
                0 <= i < rs.0@.len() ==> !(#[trigger] rs.0@[i])@.exhausted,
    {
        let n = s.unicode_len();
        let mut out: Vec<core::ops::RangeInclusive<usize>> = Vec::new();
        let mut i: usize = 0;
        loop
            invariant
                i <= n == s@.len(),
                parse_ranges(s@) == (match parse_ranges_from(s@, i as int) {
                    Some(rest) => Some(bounds_of(out@) + rest),
                    None => None::<Seq<(usize, usize)>>,
                }),
                forall|k: int| 0 <= k < out@.len() ==> !(#[trigger] out@[k])@.exhausted,
            decreases n - i,
        {
            let j = find_char(s, ',', i);
            let part = match parse_segment(s, i, j) {
                Some(p) => p,
                None => {
                    return Err(RangesError::InvalidRange);
                },
            };
            let range = core::ops::RangeInclusive::new(part.0, part.1);
            let ghost before = out@;
            out.push(range);
            proof {
                assert(bounds_of(out@) =~= bounds_of(before) + seq![part]);
                if j < n {
                    if let Some(rest) = parse_ranges_from(s@, j + 1) {
                        assert(bounds_of(before) + (seq![part] + rest) =~= bounds_of(out@) + rest);
                    }
                } else {
                    assert(bounds_of(before) + seq![part] =~= bounds_of(out@));
                }
            }
            if j >= n {
                return Ok(Ranges(out));
            }
            i = j + 1;
        }
    }

    /// Every number the ranges hold, range after range.
    pub fn chain(&self) -> (r: Vec<usize>)
        requires
            forall|i: int| 0 <= i < self.0@.len() ==> !(#[trigger] self.0@[i])@.exhausted,
        ensures
            r@ == chain_of(bounds_of(self.0@)),
    {
        let mut out: Vec<usize> = Vec::new();
        let mut i: usize = 0;
        while i < self.0.len()
            invariant
                i <= self.0@.len(),
                out@ == chain_of(bounds_of(self.0@.take(i as int))),
            decreases self.0.len() - i,
        {
            let a = range_start(&self.0[i]);
            let b = range_end(&self.0[i]);
            let ghost before = out@;
            if a <= b {
                let mut v = a;
                loop
                    invariant_except_break
                        a <= v <= b,
                        out@ == before + Seq::new((v - a) as nat, |k: int| (a + k) as usize),
                    ensures
                        out@ =~= before + span(a, b),
                    decreases b - v,
                {
                    out.push(v);
                    if v == b {
                        assert(out@ =~= before + span(a, b));
                        break;
                    }
                    v = v + 1;
                    assert(out@ =~= before + Seq::new((v - a) as nat, |k: int| (a + k) as usize));
                }
                assert(out@ =~= before + span(a, b));
            } else {
                assert(out@ =~= before + span(a, b));
            }
            proof {
                let t = self.0@.take(i + 1);
                assert(bounds_of(t).drop_last() =~= bounds_of(self.0@.take(i as int)));
                assert(bounds_of(t).last() == (a, b));
            }
            i = i + 1;
        }
        assert(self.0@.take(i as int) =~= self.0@);
        out
    }
}

} // verus!
