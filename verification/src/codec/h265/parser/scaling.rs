//! The reader of `scaling_list_data()`.

use crate::codec::bit_reader::BitReader;
use crate::codec::h265::parser::common::{agree, decodes};
use crate::codec::h265::tables::{
    coef_num, coefs_from, scaling_list_data_syntax, scaling_list_syntax, scaling_lists_from,
    wrapped,
};
use crate::codec::h265::types::ScalingLists;
use crate::syntax::{group_onto, group_read};
use vstd::prelude::*;

verus! {

broadcast use {group_onto, group_read};

/// The coefficients of one scaling list.
fn parse_coefs<const N: usize>(r: &mut BitReader, first: i32, n: usize) -> (a: [u8; N])
    requires
        old(r).inv(),
        n <= N,
        -0x10000 <= first <= 0x10000,
    ensures
        final(r).inv(),
        final(r)@ is Some ==> old(r)@ is Some,
        forall|s: Seq<u8>|
            agree(a@, s, n as int)
                ==> decodes(
                    old(r)@,
                    #[trigger] coefs_from(s, first as int, 0, n as int),
                    final(r)@,
                ),
        forall|v: Seq<u8>, rest: Seq<bool>|
            old(r)@ == Some(#[trigger] coefs_from(v, first as int, 0, n as int).onto(rest))
                && coefs_from(v, first as int, 0, n as int).fits()
                ==> final(r)@ == Some(rest) && agree(a@, v, n as int),
{
    let mut a: [u8; N] = [0; N];
    let mut next: i32 = first;
    let mut i: usize = 0;
    while i < n
        invariant
            i <= n <= N,
            -0x10000 <= next <= 0x10000,
            r.inv(),
            r@ is Some ==> old(r)@ is Some,
            forall|s: Seq<u8>, rest: Seq<bool>|
                agree(a@, s, i as int)
                    && r@ == Some(coefs_from(s, next as int, i as int, n as int).onto(rest))
                    ==> old(r)@
                    == Some(#[trigger] coefs_from(s, first as int, 0, n as int).onto(rest)),
            forall|s: Seq<u8>|
                agree(a@, s, i as int) && r@ is Some
                    && coefs_from(s, next as int, i as int, n as int).fits()
                    ==> #[trigger] coefs_from(s, first as int, 0, n as int).fits(),
            forall|v: Seq<u8>, rest: Seq<bool>|
                old(r)@ == Some(#[trigger] coefs_from(v, first as int, 0, n as int).onto(rest))
                    && coefs_from(v, first as int, 0, n as int).fits()
                    ==> r@ == Some(coefs_from(v, next as int, i as int, n as int).onto(rest))
                        && coefs_from(v, next as int, i as int, n as int).fits()
                        && agree(a@, v, i as int),
        decreases n - i,
    {
        let delta: i32 = r.se(-0x80, 0x7f);
        let coef: u8 = wrapped_sum(next, delta);
        proof {
            assert forall|v: u8| #[trigger] wrapped(v - next) == delta implies v == coef by {
                lemma_wrapped(next as int, delta as int, v);
            }
            lemma_wrapped(next as int, delta as int, coef);
        }
        a[i] = coef;
        next = coef as i32;
        i = i + 1;
    }
    a
}

/// The coefficient at distance `delta` from `next`, modulo 256.
fn wrapped_sum(next: i32, delta: i32) -> (coef: u8)
    requires
        -0x10000 <= next <= 0x10000,
        -0x80 <= delta <= 0x7f,
    ensures
        coef as int == (next + delta) % 256,
{
    // Past zero, `%` and the remainder of the mathematical division agree.
    assert((next + delta + 0x20000) % 256 == (next + delta) as int % 256) by (nonlinear_arith);
    ((next + delta + 0x20000) % 256) as u8
}

/// The wrapped difference of two coefficients tells one from the other.
proof fn lemma_wrapped(next: int, delta: int, coef: u8)
    requires
        -128 <= delta <= 127,
    ensures
        wrapped(coef - next) == delta <==> coef as int == (next + delta) % 256,
{
}

/// The lists of one size.
pub struct SizedLists<const N: usize> {
    pub lists: [[u8; N]; 6],
    pub dc: [i16; 6],
}

/// Whether the first lists of size `size_id` in `s` are these. Of the largest size,
/// every third is coded.
pub open spec fn lists_fill<const N: usize>(
    f: SizedLists<N>,
    s: ScalingLists,
    size_id: int,
    n: int,
) -> bool {
    forall|k: int|
        #![trigger f.lists@[k]]
        #![trigger s.list(size_id, k)]
        0 <= k < n && (size_id == 3 ==> k % 3 == 0) ==> {
            &&& s.list(size_id, k) == f.lists@[k]@
            &&& size_id > 1 ==> s.dc(size_id, k) == f.dc@[k]
        }
}

/// Whether the lists of the largest size that are not coded are zero.
pub open spec fn lists_settled<const N: usize>(f: SizedLists<N>, size_id: int) -> bool {
    &&& forall|k: int| 0 <= k < 6 && size_id == 3 && k % 3 != 0 ==> #[trigger] f.lists@[k] == [0u8; N]
    &&& forall|k: int| 0 <= k < 6 && size_id == 3 && k % 3 != 0 ==> #[trigger] f.dc@[k] == 0
}

/// One scaling list, in explicit form.
fn parse_scaling_list<const N: usize>(r: &mut BitReader, size_id: usize) -> (a: ([u8; N], i16))
    requires
        old(r).inv(),
        size_id < 4,
        N == coef_num(size_id as int),
    ensures
        final(r).inv(),
        forall|s: ScalingLists, m: int|
            s.list(size_id as int, m) == a.0@ && (size_id > 1 ==> s.dc(size_id as int, m) == a.1)
                ==> decodes(
                old(r)@,
                #[trigger] scaling_list_syntax(s, size_id as int, m),
                final(r)@,
            ),
        forall|v: ScalingLists, m: int, rest: Seq<bool>|
            v.list(size_id as int, m).len() == N && old(r)@ == Some(
                #[trigger] scaling_list_syntax(v, size_id as int, m).onto(rest),
            ) && scaling_list_syntax(v, size_id as int, m).fits()
                ==> final(r)@ == Some(rest) && v.list(
                size_id as int,
                m,
            ) == a.0@ && (size_id > 1 ==> v.dc(size_id as int, m) == a.1),
{
    proof {
        reveal(scaling_list_syntax);
    }
    let ghost start = r@;
    // scaling_list_pred_mode_flag
    let explicit: bool = r.flag();
    r.require(explicit);
    let mut dc: i16 = 0;
    let mut first: i32 = 8;
    if size_id > 1 {
        dc = r.se(-0x8000, 0x7fff) as i16;
        first = dc as i32 + 8;
    }
    let list: [u8; N] = parse_coefs::<N>(r, first, N);
    proof {
        assert forall|v: ScalingLists, m: int, rest: Seq<bool>|
            v.list(size_id as int, m).len() == N && start == Some(
                #[trigger] scaling_list_syntax(v, size_id as int, m).onto(rest),
            ) && scaling_list_syntax(v, size_id as int, m).fits()
                implies r@ == Some(rest) && v.list(
            size_id as int,
            m,
        ) == list@ && (size_id > 1 ==> v.dc(size_id as int, m) == dc) by {
            assert(agree(list@, v.list(size_id as int, m), N as int));
            assert(v.list(size_id as int, m) =~= list@);
        }
    }
    (list, dc)
}

/// The scaling lists of one size.
fn parse_sized_lists<const N: usize>(r: &mut BitReader, size_id: usize) -> (f: SizedLists<N>)
    requires
        old(r).inv(),
        size_id < 4,
        N == coef_num(size_id as int),
    ensures
        final(r).inv(),
        forall|s: ScalingLists, rest: Seq<bool>|
            lists_fill(f, s, size_id as int, 6)
                && final(r)@ == Some(scaling_lists_from(s, size_id + 1, 0).onto(rest))
                ==> old(r)@ == Some(#[trigger] scaling_lists_from(s, size_id as int, 0).onto(rest)),
        forall|s: ScalingLists|
            lists_fill(f, s, size_id as int, 6) && final(r)@ is Some
                && scaling_lists_from(s, size_id + 1, 0).fits()
                ==> #[trigger] scaling_lists_from(s, size_id as int, 0).fits(),
        forall|v: ScalingLists, rest: Seq<bool>|
            old(r)@ == Some(#[trigger] scaling_lists_from(v, size_id as int, 0).onto(rest))
                && scaling_lists_from(
                v,
                size_id as int,
                0,
            ).fits()
                ==> final(r)@ == Some(scaling_lists_from(v, size_id + 1, 0).onto(rest))
                    && scaling_lists_from(
                v,
                size_id + 1,
                0,
            ).fits() && lists_fill(f, v, size_id as int, 6),
        lists_settled(f, size_id as int),
{
    let mut f = SizedLists::<N> { lists: [[0; N]; 6], dc: [0; 6] };
    let mut m: usize = 0;
    while m < 6
        invariant
            m <= 6,
            size_id < 4,
            size_id == 3 ==> m % 3 == 0,
            N == coef_num(size_id as int),
            lists_settled(f, size_id as int),
            r.inv(),
            forall|s: ScalingLists, rest: Seq<bool>|
                lists_fill(f, s, size_id as int, m as int) && r@ == Some(
                    scaling_lists_from(s, size_id as int, m as int).onto(rest),
                )
                    ==> old(r)@ == Some(#[trigger] scaling_lists_from(s, size_id as int, 0).onto(rest)),
            forall|s: ScalingLists|
                lists_fill(f, s, size_id as int, m as int) && r@ is Some && scaling_lists_from(
                    s,
                    size_id as int,
                    m as int,
                ).fits() ==> #[trigger] scaling_lists_from(s, size_id as int, 0).fits(),
            forall|v: ScalingLists, rest: Seq<bool>|
                old(r)@ == Some(#[trigger] scaling_lists_from(v, size_id as int, 0).onto(rest))
                    && scaling_lists_from(v, size_id as int, 0).fits() ==> r@ == Some(
                    scaling_lists_from(v, size_id as int, m as int).onto(rest),
                ) && scaling_lists_from(v, size_id as int, m as int).fits() && lists_fill(
                    f,
                    v,
                    size_id as int,
                    m as int,
                ),
        decreases 6 - m,
    {
        let ghost start = r@;
        let (list, dc): ([u8; N], i16) = parse_scaling_list::<N>(r, size_id);
        let ghost before = f;
        f.lists[m] = list;
        f.dc[m] = dc;
        let next: usize = m + if size_id == 3 { 3 } else { 1 };
        proof {
            assert forall|s: ScalingLists|
                #[trigger] lists_fill(f, s, size_id as int, next as int) implies lists_fill(
                before,
                s,
                size_id as int,
                m as int,
            ) && s.list(size_id as int, m as int) == list@
                && (size_id > 1 ==> s.dc(size_id as int, m as int)
                == dc) by {
                assert(f.lists@[m as int] == list);
                assert forall|k: int| 0 <= k < m && (size_id == 3 ==> k % 3 == 0)
                    implies s.list(size_id as int, k)
                    == before.lists@[k]@
                        && (size_id > 1 ==> s.dc(size_id as int, k) == before.dc@[k]) by {
                    assert(f.lists@[k] == before.lists@[k]);
                    assert(f.dc@[k] == before.dc@[k]);
                }
            }
            assert forall|s: ScalingLists|
                lists_fill(f, s, size_id as int, next as int) && r@ is Some && scaling_lists_from(
                    s,
                    size_id as int,
                    next as int,
                ).fits() implies #[trigger] scaling_lists_from(s, size_id as int, 0).fits() by {
                assert(decodes(start, scaling_list_syntax(s, size_id as int, m as int), r@));
                assert(scaling_lists_from(s, size_id as int, m as int).fits());
            }
            assert forall|v: ScalingLists|
                lists_fill(before, v, size_id as int, m as int)
                    && v.list(size_id as int, m as int) == list@ && (
                size_id > 1 ==> v.dc(size_id as int, m as int) == dc) implies #[trigger] lists_fill(
                f,
                v,
                size_id as int,
                next as int,
            ) by {
                assert forall|k: int| 0 <= k < next && (size_id == 3 ==> k % 3 == 0) implies v.list(
                    size_id as int,
                    k,
                ) == f.lists@[k]@ && (size_id > 1 ==> v.dc(size_id as int, k) == f.dc@[k]) by {
                    if k < m {
                        assert(f.lists@[k] == before.lists@[k]);
                        assert(f.dc@[k] == before.dc@[k]);
                    } else {
                        assert(k == m);
                    }
                }
            }
        }
        m = next;
    }
    f
}

/// Whether the lists that are coded of `v` are those of `p`. Of the largest size,
/// every third is coded.
pub open spec fn scaling_lists_same(p: ScalingLists, v: ScalingLists) -> bool {
    forall|size_id: int, m: int|
        #![trigger v.list(size_id, m)]
        #![trigger p.list(size_id, m)]
        0 <= size_id < 4 && 0 <= m < 6 && (size_id == 3 ==> m % 3 == 0) ==> {
            &&& p.list(size_id, m) == v.list(size_id, m)
            &&& size_id > 1 ==> p.dc(size_id, m) == v.dc(size_id, m)
        }
}

/// Whether the lists of the largest size that are not coded are zero.
pub open spec fn scaling_settled(p: ScalingLists) -> bool {
    &&& forall|k: int|
        0 <= k < 6 && k % 3 != 0 ==> #[trigger] p.scaling_list_32x32@[k] == [0u8; 64usize]
    &&& forall|k: int|
        0 <= k < 6 && k % 3 != 0 ==> #[trigger] p.scaling_list_dc_coef_minus8_32x32@[k] == 0
}

/// Settled lists that are the same as far as they are coded are equal.
pub proof fn lemma_scaling_equal(p: ScalingLists, q: ScalingLists)
    requires
        scaling_lists_same(q, p),
        scaling_settled(p),
        scaling_settled(q),
    ensures
        q == p,
{
    assert forall|k: int| 0 <= k < 6 implies q.scaling_list_4x4[k] == p.scaling_list_4x4[k] by {
        assert(q.list(0, k) == p.list(0, k));
        assert(q.scaling_list_4x4[k] =~= p.scaling_list_4x4[k]);
    }
    assert forall|k: int| 0 <= k < 6 implies q.scaling_list_8x8[k] == p.scaling_list_8x8[k] by {
        assert(q.list(1, k) == p.list(1, k));
        assert(q.scaling_list_8x8[k] =~= p.scaling_list_8x8[k]);
    }
    assert forall|k: int| 0 <= k < 6 implies {
        &&& q.scaling_list_16x16[k] == p.scaling_list_16x16[k]
        &&& q.scaling_list_dc_coef_minus8_16x16[k] == p.scaling_list_dc_coef_minus8_16x16[k]
    } by {
        assert(q.list(2, k) == p.list(2, k));
        assert(q.dc(2, k) == p.dc(2, k));
        assert(q.scaling_list_16x16[k] =~= p.scaling_list_16x16[k]);
    }
    assert forall|k: int| 0 <= k < 6 implies {
        &&& q.scaling_list_32x32[k] == p.scaling_list_32x32[k]
        &&& q.scaling_list_dc_coef_minus8_32x32[k] == p.scaling_list_dc_coef_minus8_32x32[k]
    } by {
        if k % 3 == 0 {
            assert(q.list(3, k) == p.list(3, k));
            assert(q.dc(3, k) == p.dc(3, k));
            assert(q.scaling_list_32x32[k] =~= p.scaling_list_32x32[k]);
        } else {
            assert(q.scaling_list_32x32@[k] == p.scaling_list_32x32@[k]);
            assert(q.scaling_list_dc_coef_minus8_32x32@[k]
                == p.scaling_list_dc_coef_minus8_32x32@[k]);
        }
    }
    assert(q.scaling_list_4x4 =~= p.scaling_list_4x4);
    assert(q.scaling_list_8x8 =~= p.scaling_list_8x8);
    assert(q.scaling_list_16x16 =~= p.scaling_list_16x16);
    assert(q.scaling_list_32x32 =~= p.scaling_list_32x32);
    assert(q.scaling_list_dc_coef_minus8_16x16 =~= p.scaling_list_dc_coef_minus8_16x16);
    assert(q.scaling_list_dc_coef_minus8_32x32 =~= p.scaling_list_dc_coef_minus8_32x32);
}

/// `scaling_list_data()` (7.3.4).
pub(crate) fn parse_scaling_list_data(r: &mut BitReader) -> (p: ScalingLists)
    requires
        old(r).inv(),
    ensures
        final(r).inv(),
        decodes(old(r)@, scaling_list_data_syntax(p), final(r)@),
        forall|v: ScalingLists, rest: Seq<bool>|
            old(r)@ == Some(#[trigger] scaling_list_data_syntax(v).onto(rest))
                && scaling_list_data_syntax(v).fits()
                ==> final(r)@ == Some(rest) && scaling_lists_same(p, v),
        scaling_settled(p),
{
    proof {
        reveal(scaling_list_data_syntax);
    }
    let ghost start = r@;
    let a = parse_sized_lists::<16>(r, 0);
    let ghost b1 = r@;
    let b = parse_sized_lists::<64>(r, 1);
    let ghost b2 = r@;
    let c = parse_sized_lists::<64>(r, 2);
    let ghost b3 = r@;
    let d = parse_sized_lists::<64>(r, 3);
    let p = assemble_scaling_lists(a, b, c, d);
    proof {
        if let Some(rest) = r@ {
            assert(scaling_lists_from(p, 4, 0).onto(rest) == rest);
            assert(b3 == Some(scaling_lists_from(p, 3, 0).onto(rest)));
            assert(b2 == Some(scaling_lists_from(p, 2, 0).onto(rest)));
            assert(b1 == Some(scaling_lists_from(p, 1, 0).onto(rest)));
            assert(start == Some(scaling_lists_from(p, 0, 0).onto(rest)));
            assert(scaling_lists_from(p, 4, 0).fits());
            assert(scaling_lists_from(p, 3, 0).fits());
            assert(scaling_lists_from(p, 2, 0).fits());
            assert(scaling_lists_from(p, 1, 0).fits());
        }
    }
    p
}

/// The structure that holds the lists of each size.
fn assemble_scaling_lists(
    a: SizedLists<16>,
    b: SizedLists<64>,
    c: SizedLists<64>,
    d: SizedLists<64>,
) -> (p: ScalingLists)
    ensures
        lists_fill(a, p, 0, 6),
        lists_fill(b, p, 1, 6),
        lists_fill(c, p, 2, 6),
        lists_fill(d, p, 3, 6),
        lists_settled(d, 3) ==> scaling_settled(p),
{
    ScalingLists {
        scaling_list_4x4: a.lists,
        scaling_list_8x8: b.lists,
        scaling_list_16x16: c.lists,
        scaling_list_32x32: d.lists,
        scaling_list_dc_coef_minus8_16x16: c.dc,
        scaling_list_dc_coef_minus8_32x32: d.dc,
    }
}

} // verus!
