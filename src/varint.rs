//! The protocol's variable-length integer: seven payload bits per byte, least
//! significant group first, the high bit set on every byte but the last.

use vstd::prelude::*;

verus! {

/// A varint holds at most five bytes.
pub const VARINT_MAX_BYTES: usize = 5;

/// The canonical encoding of `v`.
pub open spec fn varint_bytes(v: nat) -> Seq<u8>
    decreases v,
{
    if v < 128 {
        seq![v as u8]
    } else {
        seq![(v % 128 + 128) as u8] + varint_bytes(v / 128)
    }
}

/// Reads a varint from the front of `s`, looking at no more than `budget`
/// bytes: the full value and the number of bytes it took.
pub open spec fn varint_scan(s: Seq<u8>, budget: nat) -> Option<(int, nat)>
    decreases budget,
{
    if budget == 0 || s.len() == 0 {
        None
    } else if s[0] < 128 {
        Some((s[0] as int, 1))
    } else {
        match varint_scan(s.drop_first(), (budget - 1) as nat) {
            Some((v, n)) => Some(((s[0] - 128) + 128 * v, n + 1)),
            None => None,
        }
    }
}

/// Decoding as the protocol does it: at most five bytes, the value taken
/// modulo 2^32 (the bits past the thirty-second are dropped).
pub open spec fn varint_decode(s: Seq<u8>) -> Option<(u32, nat)> {
    match varint_scan(s, 5) {
        Some((v, n)) => Some(((v % 0x1_0000_0000) as u32, n)),
        None => None,
    }
}

pub open spec fn radix_pow(n: nat) -> int
    decreases n,
{
    if n == 0 {
        1
    } else {
        128 * radix_pow((n - 1) as nat)
    }
}

pub proof fn lemma_scan_bounds(s: Seq<u8>, budget: nat)
    ensures
        match varint_scan(s, budget) {
            Some((v, n)) => 0 <= v < radix_pow(n) && 1 <= n <= budget && n <= s.len(),
            None => true,
        },
    decreases budget,
{
    if budget == 0 || s.len() == 0 {
    } else if s[0] < 128 {
        assert(radix_pow(1) == 128 * radix_pow(0));
    } else {
        lemma_scan_bounds(s.drop_first(), (budget - 1) as nat);
        match varint_scan(s.drop_first(), (budget - 1) as nat) {
            Some((v, n)) => {
                assert(radix_pow(n + 1) == 128 * radix_pow(n));
            },
            None => {},
        }
    }
}

pub proof fn lemma_varint_bytes_len(v: nat)
    ensures
        1 <= varint_bytes(v).len(),
        v < 0x1_0000_0000 ==> varint_bytes(v).len() <= 5,
        v < 128 ==> varint_bytes(v).len() == 1,
{
    assert(radix_pow(5) == 0x8_0000_0000) by {
        reveal_with_fuel(radix_pow, 6);
    }
    lemma_len_below(v, 5);
}

proof fn lemma_len_below(v: nat, k: nat)
    requires
        1 <= k,
    ensures
        1 <= varint_bytes(v).len(),
        v < radix_pow(k) ==> varint_bytes(v).len() <= k,
    decreases v,
{
    if v >= 128 {
        if k > 1 {
            lemma_len_below(v / 128, (k - 1) as nat);
        } else {
            lemma_len_below(v / 128, 1);
            assert(radix_pow(1) == 128 * radix_pow(0));
        }
    }
}

/// Reading the canonical encoding back gives the value and its size, whatever
/// follows it.
pub proof fn lemma_scan_round_trip(v: nat, rest: Seq<u8>, budget: nat)
    requires
        varint_bytes(v).len() <= budget,
    ensures
        varint_scan(varint_bytes(v) + rest, budget) == Some((v as int, varint_bytes(v).len())),
    decreases v,
{
    let s = varint_bytes(v) + rest;
    if v < 128 {
        assert(s[0] == v as u8);
    } else {
        lemma_scan_round_trip(v / 128, rest, (budget - 1) as nat);
        assert(s.drop_first() =~= varint_bytes(v / 128) + rest);
        assert(s[0] == (v % 128 + 128) as u8);
    }
}

pub proof fn lemma_decode_round_trip(v: u32, rest: Seq<u8>)
    ensures
        varint_decode(varint_bytes(v as nat) + rest) == Some((v, varint_bytes(v as nat).len())),
{
    lemma_varint_bytes_len(v as nat);
    lemma_scan_round_trip(v as nat, rest, 5);
}

/// A varint that can be read from a prefix reads the same from the whole.
pub proof fn lemma_scan_prefix(s: Seq<u8>, k: int, budget: nat)
    requires
        0 <= k <= s.len(),
        varint_scan(s.take(k), budget) is Some,
    ensures
        varint_scan(s, budget) == varint_scan(s.take(k), budget),
    decreases budget,
{
    let p = s.take(k);
    if p[0] < 128 {
    } else {
        assert(p.drop_first() =~= s.drop_first().take(k - 1));
        lemma_scan_prefix(s.drop_first(), k - 1, (budget - 1) as nat);
    }
}

pub proof fn lemma_decode_size(s: Seq<u8>)
    ensures
        varint_decode(s) matches Some((v, n)) ==> 1 <= n <= 5 && n <= s.len(),
{
    lemma_scan_bounds(s, 5);
}

/// The size of the canonical encoding of `v`.
pub fn varint_size(v: u32) -> (r: usize)
    ensures
        r == varint_bytes(v as nat).len(),
        1 <= r <= 5,
{
    proof {
        lemma_varint_bytes_len(v as nat);
    }
    let mut n: usize = 1;
    let mut rest: u32 = v;
    while rest >= 128
        invariant
            1 <= n <= 5,
            n + varint_bytes(rest as nat).len() - 1 == varint_bytes(v as nat).len(),
            varint_bytes(v as nat).len() <= 5,
        decreases rest,
    {
        proof {
            lemma_varint_bytes_len((rest / 128) as nat);
            assert(varint_bytes(rest as nat).len() == 1 + varint_bytes((rest / 128) as nat).len());
        }
        rest = rest / 128;
        n = n + 1;
    }
    proof {
        lemma_varint_bytes_len(rest as nat);
    }
    n
}

/// Appends the canonical encoding of `v` to `out`.
pub fn write_varint(v: u32, out: &mut Vec<u8>)
    ensures
        final(out)@ == old(out)@ + varint_bytes(v as nat),
    decreases v,
{
    if v < 128 {
        out.push(v as u8);
        assert(final(out)@ =~= old(out)@ + varint_bytes(v as nat));
    } else {
        out.push((v % 128 + 128) as u8);
        write_varint(v / 128, out);
        assert(final(out)@ =~= old(out)@ + varint_bytes(v as nat));
    }
}

fn scan_from(s: &[u8], start: usize, budget: usize) -> (r: Option<(u64, usize)>)
    requires
        start <= s@.len(),
        budget <= 5,
    ensures
        match varint_scan(s@.subrange(start as int, s@.len() as int), budget as nat) {
            Some((v, n)) => r == Some((v as u64, n as usize)),
            None => r is None,
        },
    decreases budget,
{
    let ghost t = s@.subrange(start as int, s@.len() as int);
    if budget == 0 || start == s.len() {
        return None;
    }
    let b = s[start];
    if b < 128 {
        return Some((b as u64, 1));
    }
    assert(t.drop_first() =~= s@.subrange(start + 1, s@.len() as int));
    proof {
        lemma_scan_bounds(t.drop_first(), (budget - 1) as nat);
    }
    match scan_from(s, start + 1, budget - 1) {
        Some((v, n)) => {
            proof {
                assert(radix_pow(n as nat) <= radix_pow(4)) by {
                    lemma_radix_pow_mono(n as nat, 4);
                }
                assert(radix_pow(4) == 0x1000_0000) by {
                    reveal_with_fuel(radix_pow, 5);
                }
            }
            Some(((b - 128) as u64 + 128 * v, n + 1))
        },
        None => None,
    }
}

proof fn lemma_radix_pow_pos(n: nat)
    ensures
        1 <= radix_pow(n),
    decreases n,
{
    if n > 0 {
        lemma_radix_pow_pos((n - 1) as nat);
    }
}

proof fn lemma_radix_pow_mono(a: nat, b: nat)
    requires
        a <= b,
    ensures
        1 <= radix_pow(a) <= radix_pow(b),
    decreases b,
{
    lemma_radix_pow_pos(a);
    if a < b {
        lemma_radix_pow_mono(a, (b - 1) as nat);
    }
}

/// Reads a varint from the front of `s`: its value and its size in bytes, or
/// `None` where `s` ends before the varint does or it runs past five bytes.
pub fn read_varint(s: &[u8]) -> (r: Option<(u32, usize)>)
    ensures
        match r {
            Some((v, n)) => varint_decode(s@) == Some((v, n as nat)) && 1 <= n <= 5 && n
                <= s@.len(),
            None => varint_decode(s@) is None,
        },
{
    assert(s@.subrange(0, s@.len() as int) =~= s@);
    proof {
        lemma_scan_bounds(s@, 5);
        lemma_radix_pow_mono(0, 5);
        assert(radix_pow(5) == 0x8_0000_0000) by {
            reveal_with_fuel(radix_pow, 6);
        }
        match varint_scan(s@, 5) {
            Some((v, n)) => {
                lemma_radix_pow_mono(n, 5);
            },
            None => {},
        }
    }
    match scan_from(s, 0, 5) {
        Some((v, n)) => Some(((v % 0x1_0000_0000) as u32, n)),
        None => None,
    }
}

} // verus!
