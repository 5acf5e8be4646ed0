//! Little-endian field reads over an in-memory byte buffer.
use vstd::prelude::*;

verus! {

/// `256^n`.
pub open spec fn pow256(n: nat) -> nat
    decreases n,
{
    if n == 0 {
        1
    } else {
        256 * pow256((n - 1) as nat)
    }
}

/// The unsigned little-endian value of the `n` bytes of `s` starting at `p`.
pub open spec fn le_at(s: Seq<u8>, p: int, n: nat) -> nat
    decreases n,
{
    if n == 0 {
        0
    } else {
        s[p] as nat + 256 * le_at(s, p + 1, (n - 1) as nat)
    }
}

/// Whether the `n` bytes starting at `p` lie inside `s`.
pub open spec fn in_bounds(s: Seq<u8>, p: int, n: int) -> bool {
    0 <= p && 0 <= n && p + n <= s.len()
}

pub proof fn lemma_pow256_positive(n: nat)
    ensures
        pow256(n) >= 1,
    decreases n,
{
    if n > 0 {
        lemma_pow256_positive((n - 1) as nat);
    }
}

pub proof fn lemma_pow256_values()
    ensures
        pow256(1) == 0x100,
        pow256(2) == 0x1_0000,
        pow256(3) == 0x100_0000,
        pow256(4) == 0x1_0000_0000,
        pow256(5) == 0x100_0000_0000,
        pow256(6) == 0x1_0000_0000_0000,
        pow256(7) == 0x100_0000_0000_0000,
        pow256(8) == 0x1_0000_0000_0000_0000,
{
    reveal_with_fuel(pow256, 9);
}

/// A value of `n` bytes is below `256^n`.
pub proof fn lemma_le_at_bound(s: Seq<u8>, p: int, n: nat)
    ensures
        le_at(s, p, n) < pow256(n),
    decreases n,
{
    if n > 0 {
        lemma_le_at_bound(s, p + 1, (n - 1) as nat);
        let rest = le_at(s, p + 1, (n - 1) as nat);
        let b = s[p] as nat;
        assert(b < 256);
        assert(rest + 1 <= pow256((n - 1) as nat));
        assert(b + 256 * rest < 256 * pow256((n - 1) as nat)) by (nonlinear_arith)
            requires
                b < 256,
                rest + 1 <= pow256((n - 1) as nat),
        ;
    }
}

/// Reads `n <= 8` bytes at `pos` as an unsigned little-endian integer; `None` when the
/// field runs past the end of `buf`.
pub fn read_le(buf: &[u8], pos: usize, n: usize) -> (r: Option<u64>)
    requires
        n <= 8,
    ensures
        in_bounds(buf@, pos as int, n as int) ==> r == Some(le_at(buf@, pos as int, n as nat) as u64),
        !in_bounds(buf@, pos as int, n as int) ==> r is None,
        r matches Some(v) ==> v as nat == le_at(buf@, pos as int, n as nat),
{
    if pos > buf.len() || n > buf.len() - pos {
        return None;
    }
    let mut acc: u64 = 0;
    let mut i: usize = n;
    proof {
        lemma_pow256_values();
    }
    while i > 0
        invariant
            i <= n <= 8,
            pos + n <= buf.len(),
            acc as nat == le_at(buf@, pos + i, (n - i) as nat),
            pow256(8) == 0x1_0000_0000_0000_0000,
        decreases i,
    {
        let b = buf[pos + (i - 1)];
        proof {
            lemma_le_at_bound(buf@, pos + i, (n - i) as nat);
            lemma_pow256_mono((n - i) as nat, 7);
            assert(le_at(buf@, pos + i - 1, (n - i + 1) as nat) == b as nat + 256 * le_at(
                buf@,
                pos + i,
                (n - i) as nat,
            ));
            assert((acc as nat) * 256 + (b as nat) < pow256(8)) by (nonlinear_arith)
                requires
                    (acc as nat) < pow256((n - i) as nat),
                    pow256((n - i) as nat) <= pow256(7),
                    pow256(8) == 256 * pow256(7),
                    b < 256,
            ;
        }
        acc = acc * 256 + b as u64;
        i = i - 1;
    }
    proof {
        lemma_le_at_bound(buf@, pos as int, n as nat);
    }
    Some(acc)
}

pub proof fn lemma_pow256_mono(a: nat, b: nat)
    requires
        a <= b,
    ensures
        pow256(a) <= pow256(b),
    decreases b,
{
    if a < b {
        lemma_pow256_mono(a, (b - 1) as nat);
        lemma_pow256_positive((b - 1) as nat);
    }
}

pub fn read_u16(buf: &[u8], pos: usize) -> (r: Option<u16>)
    ensures
        r == (if in_bounds(buf@, pos as int, 2) { Some(le_at(buf@, pos as int, 2) as u16) } else { None::<u16> }),
        r matches Some(v) ==> v as nat == le_at(buf@, pos as int, 2),
{
    proof {
        lemma_le_at_bound(buf@, pos as int, 2);
        lemma_pow256_values();
    }
    match read_le(buf, pos, 2) {
        Some(v) => Some(v as u16),
        None => None,
    }
}

pub fn read_u32(buf: &[u8], pos: usize) -> (r: Option<u32>)
    ensures
        r == (if in_bounds(buf@, pos as int, 4) { Some(le_at(buf@, pos as int, 4) as u32) } else { None::<u32> }),
        r matches Some(v) ==> v as nat == le_at(buf@, pos as int, 4),
{
    proof {
        lemma_le_at_bound(buf@, pos as int, 4);
        lemma_pow256_values();
    }
    match read_le(buf, pos, 4) {
        Some(v) => Some(v as u32),
        None => None,
    }
}

pub fn read_u64(buf: &[u8], pos: usize) -> (r: Option<u64>)
    ensures
        r == (if in_bounds(buf@, pos as int, 8) { Some(le_at(buf@, pos as int, 8) as u64) } else { None::<u64> }),
        r matches Some(v) ==> v as nat == le_at(buf@, pos as int, 8),
{
    read_le(buf, pos, 8)
}

} // verus!
