//! `leb128()`: a number in groups of seven bits, the lowest first.

use crate::bits::{lemma_pow2_monotone, lemma_pow2_pos, lemma_pow2_split, lemma_pow2_values, pow2};
use vstd::prelude::*;

verus! {

/// The bytes of `v` (4.10.5).
pub open spec fn leb128(v: nat) -> Seq<u8>
    decreases v,
{
    if v < 128 {
        seq![v as u8]
    } else {
        seq![(v % 128 + 128) as u8] + leb128(v / 128)
    }
}

/// The number at the start of `s`, which has at most `groups` bytes, and the number of its
/// bytes.
pub open spec fn leb128_value(s: Seq<u8>, groups: nat) -> Option<(nat, nat)>
    decreases groups,
{
    if groups == 0 || s.len() == 0 {
        None
    } else if s[0] < 128 {
        Some((s[0] as nat, 1))
    } else {
        match leb128_value(s.skip(1), (groups - 1) as nat) {
            Some((v, n)) => Some(((s[0] - 128 + 128 * v) as nat, n + 1)),
            None => None,
        }
    }
}

/// The bytes of a number are read as that number, whatever follows.
pub proof fn law_leb128_round_trip(v: nat, rest: Seq<u8>, groups: nat)
    requires
        groups > 0,
        v < pow2(7 * groups),
    ensures
        leb128_value(leb128(v) + rest, groups) == Some((v, leb128(v).len())),
    decreases groups,
{
    let s = leb128(v) + rest;
    if v < 128 {
        assert(s[0] == v as u8);
    } else {
        lemma_pow2_values();
        lemma_pow2_split((7 * (groups - 1)) as nat, 7);
        let m = pow2((7 * (groups - 1)) as nat) as int;
        assert(v < m * 128);
        assert(v / 128 < m) by (nonlinear_arith)
            requires
                v < m * 128,
        ;
        if groups == 1 {
            assert(pow2(0) == 1);
        }
        assert(s[0] == (v % 128 + 128) as u8);
        assert(s.skip(1) =~= leb128(v / 128) + rest);
        law_leb128_round_trip(v / 128, rest, (groups - 1) as nat);
    }
}

/// Appends the bytes of `v`.
pub fn write_leb128(out: &mut Vec<u8>, v: u64)
    ensures
        final(out)@ == old(out)@ + leb128(v as nat),
{
    let mut left: u64 = v;
    while left >= 128
        invariant
            out@ + leb128(left as nat) == old(out)@ + leb128(v as nat),
        decreases left,
    {
        let ghost before = out@;
        out.push((left % 128 + 128) as u8);
        proof {
            assert(out@ + leb128((left / 128) as nat) =~= before + leb128(left as nat));
        }
        left = left / 128;
    }
    let ghost before = out@;
    out.push(left as u8);
    proof {
        assert(out@ =~= before + leb128(left as nat));
    }
}

/// Reads a number of at most `groups` bytes at position `start`: the number, and how many
/// bytes it has.
pub fn read_leb128(data: &[u8], start: usize, groups: u8) -> (r: Option<(u64, usize)>)
    requires
        start <= data@.len(),
        groups <= 8,
    ensures
        match r {
            Some((v, n)) => {
                &&& leb128_value(
                    data@.skip(start as int),
                    groups as nat,
                ) == Some((v as nat, n as nat))
                &&& v < pow2(7 * groups as nat)
                &&& n <= data@.len() - start
            },
            None => leb128_value(data@.skip(start as int), groups as nat) is None,
        },
    decreases groups,
{
    if groups == 0 || start >= data.len() {
        return None;
    }
    let b: u8 = data[start];
    proof {
        lemma_pow2_values();
        lemma_pow2_split((7 * (groups - 1)) as nat, 7);
        lemma_pow2_monotone((7 * (groups - 1)) as nat, 49);
        lemma_pow2_pos((7 * (groups - 1)) as nat);
        lemma_pow2_split(32, 17);
        lemma_pow2_split(16, 1);
        assert(data@.skip(start as int).skip(1) =~= data@.skip(start + 1));
    }
    if b < 128 {
        return Some((b as u64, 1));
    }
    match read_leb128(data, start + 1, groups - 1) {
        Some((v, n)) => Some((b as u64 - 128 + 128 * v, n + 1)),
        None => None,
    }
}

} // verus!
