//! The reader of `st_ref_pic_set()`.

use crate::codec::bit_reader::BitReader;
use crate::codec::h265::parser::common::{agree, decodes, tail_is};
use crate::codec::h265::tables::{ordered_s0, ordered_s1, s0_from, s1_from, st_ref_pic_set_syntax};
use crate::codec::h265::types::ShortTermRefPicSet;
use crate::syntax::{group_onto, group_read};
use vstd::prelude::*;

verus! {

broadcast use {group_onto, group_read};

/// The pictures before the current one.
fn parse_s0(r: &mut BitReader, n: usize) -> (a: ([i32; 16], [bool; 16]))
    requires
        old(r).inv(),
        n <= 16,
    ensures
        final(r).inv(),
        final(r)@ is Some ==> old(r)@ is Some,
        forall|s: ShortTermRefPicSet|
            agree(a.0@, s.delta_poc_s0@, n as int) && agree(a.1@, s.used_by_curr_pic_s0@, n as int)
                ==> decodes(old(r)@, #[trigger] s0_from(s, 0, n as int), final(r)@),
        forall|v: ShortTermRefPicSet, rest: Seq<bool>|
            old(r)@ == Some(#[trigger] s0_from(v, 0, n as int).onto(rest))
                && s0_from(v, 0, n as int).fits() && ordered_s0(v, n as int)
                ==> final(r)@ == Some(rest) && agree(a.0@, v.delta_poc_s0@, n as int)
                    && agree(a.1@, v.used_by_curr_pic_s0@, n as int),
        forall|s: ShortTermRefPicSet|
            agree(a.0@, s.delta_poc_s0@, n as int) && final(r)@ is Some
                ==> #[trigger] ordered_s0(s, n as int),
        tail_is(a.0@, n as int, 0i32),
        tail_is(a.1@, n as int, false),
{
    let mut a: ([i32; 16], [bool; 16]) = ([0; 16], [false; 16]);
    let mut previous: i32 = 0;
    let mut i: usize = 0;
    while i < n
        invariant
            i <= n <= 16,
            tail_is(a.0@, i as int, 0i32),
            tail_is(a.1@, i as int, false),
            previous == (if i == 0 { 0 } else { a.0@[i - 1] as int }),
            r.inv(),
            r@ is Some ==> old(r)@ is Some,
            forall|s: ShortTermRefPicSet, rest: Seq<bool>|
                agree(a.0@, s.delta_poc_s0@, i as int)
                    && agree(a.1@, s.used_by_curr_pic_s0@, i as int)
                    && r@ == Some(s0_from(s, i as int, n as int).onto(rest))
                    ==> old(r)@
                    == Some(#[trigger] s0_from(s, 0, n as int).onto(rest)),
            forall|s: ShortTermRefPicSet|
                agree(a.0@, s.delta_poc_s0@, i as int)
                    && agree(a.1@, s.used_by_curr_pic_s0@, i as int) && r@ is Some
                    && s0_from(s, i as int, n as int).fits()
                    ==> #[trigger] s0_from(s, 0, n as int).fits(),
            forall|v: ShortTermRefPicSet, rest: Seq<bool>|
                old(r)@ == Some(#[trigger] s0_from(v, 0, n as int).onto(rest))
                    && s0_from(v, 0, n as int).fits() && ordered_s0(v, n as int)
                    ==> r@ == Some(s0_from(v, i as int, n as int).onto(rest))
                        && s0_from(v, i as int, n as int).fits()
                        && agree(a.0@, v.delta_poc_s0@, i as int)
                        && agree(a.1@, v.used_by_curr_pic_s0@, i as int),
            forall|s: ShortTermRefPicSet|
                agree(a.0@, s.delta_poc_s0@, i as int) && r@ is Some
                    ==> #[trigger] ordered_s0(s, i as int),
        decreases n - i,
    {
        let distance: u32 = r.ue(0x7fff_fffe);
        let poc: i64 = previous as i64 - (distance as i64 + 1);
        let in_range = poc >= -0x8000_0000;
        r.require(in_range);
        let poc: i32 = if in_range {
            poc as i32
        } else {
            previous
        };
        let used: bool = r.flag();
        let ghost before = a.0@;
        a.0[i] = poc;
        a.1[i] = used;
        proof {
            assert forall|s: ShortTermRefPicSet|
                agree(a.0@, s.delta_poc_s0@, i + 1) && r@ is Some
                    implies #[trigger] ordered_s0(s, i + 1) by {
                assert(agree(before, s.delta_poc_s0@, i as int));
                assert(ordered_s0(s, i as int));
                assert(0 <= s.s0_minus1(i as int) < i32::MAX);
            }
        }
        previous = poc;
        i = i + 1;
    }
    a
}

/// The pictures after the current one.
fn parse_s1(r: &mut BitReader, n: usize) -> (a: ([i32; 16], [bool; 16]))
    requires
        old(r).inv(),
        n <= 16,
    ensures
        final(r).inv(),
        final(r)@ is Some ==> old(r)@ is Some,
        forall|s: ShortTermRefPicSet|
            agree(a.0@, s.delta_poc_s1@, n as int) && agree(a.1@, s.used_by_curr_pic_s1@, n as int)
                ==> decodes(old(r)@, #[trigger] s1_from(s, 0, n as int), final(r)@),
        forall|v: ShortTermRefPicSet, rest: Seq<bool>|
            old(r)@ == Some(#[trigger] s1_from(v, 0, n as int).onto(rest))
                && s1_from(v, 0, n as int).fits() && ordered_s1(v, n as int)
                ==> final(r)@ == Some(rest) && agree(a.0@, v.delta_poc_s1@, n as int)
                    && agree(a.1@, v.used_by_curr_pic_s1@, n as int),
        forall|s: ShortTermRefPicSet|
            agree(a.0@, s.delta_poc_s1@, n as int) && final(r)@ is Some
                ==> #[trigger] ordered_s1(s, n as int),
        tail_is(a.0@, n as int, 0i32),
        tail_is(a.1@, n as int, false),
{
    let mut a: ([i32; 16], [bool; 16]) = ([0; 16], [false; 16]);
    let mut previous: i32 = 0;
    let mut i: usize = 0;
    while i < n
        invariant
            i <= n <= 16,
            tail_is(a.0@, i as int, 0i32),
            tail_is(a.1@, i as int, false),
            previous == (if i == 0 { 0 } else { a.0@[i - 1] as int }),
            r.inv(),
            r@ is Some ==> old(r)@ is Some,
            forall|s: ShortTermRefPicSet, rest: Seq<bool>|
                agree(a.0@, s.delta_poc_s1@, i as int)
                    && agree(a.1@, s.used_by_curr_pic_s1@, i as int)
                    && r@ == Some(s1_from(s, i as int, n as int).onto(rest))
                    ==> old(r)@
                    == Some(#[trigger] s1_from(s, 0, n as int).onto(rest)),
            forall|s: ShortTermRefPicSet|
                agree(a.0@, s.delta_poc_s1@, i as int)
                    && agree(a.1@, s.used_by_curr_pic_s1@, i as int) && r@ is Some
                    && s1_from(s, i as int, n as int).fits()
                    ==> #[trigger] s1_from(s, 0, n as int).fits(),
            forall|v: ShortTermRefPicSet, rest: Seq<bool>|
                old(r)@ == Some(#[trigger] s1_from(v, 0, n as int).onto(rest))
                    && s1_from(v, 0, n as int).fits() && ordered_s1(v, n as int)
                    ==> r@ == Some(s1_from(v, i as int, n as int).onto(rest))
                        && s1_from(v, i as int, n as int).fits()
                        && agree(a.0@, v.delta_poc_s1@, i as int)
                        && agree(a.1@, v.used_by_curr_pic_s1@, i as int),
            forall|s: ShortTermRefPicSet|
                agree(a.0@, s.delta_poc_s1@, i as int) && r@ is Some
                    ==> #[trigger] ordered_s1(s, i as int),
        decreases n - i,
    {
        let distance: u32 = r.ue(0x7fff_fffe);
        let poc: i64 = previous as i64 + (distance as i64 + 1);
        let in_range = poc <= 0x7fff_ffff;
        r.require(in_range);
        let poc: i32 = if in_range {
            poc as i32
        } else {
            previous
        };
        let used: bool = r.flag();
        let ghost before = a.0@;
        a.0[i] = poc;
        a.1[i] = used;
        proof {
            assert forall|s: ShortTermRefPicSet|
                agree(a.0@, s.delta_poc_s1@, i + 1) && r@ is Some
                    implies #[trigger] ordered_s1(s, i + 1) by {
                assert(agree(before, s.delta_poc_s1@, i as int));
                assert(ordered_s1(s, i as int));
                assert(0 <= s.s1_minus1(i as int) < i32::MAX);
            }
        }
        previous = poc;
        i = i + 1;
    }
    a
}

/// Whether the fields that are coded of `v` are those of `p`.
pub open spec fn rps_same(p: ShortTermRefPicSet, v: ShortTermRefPicSet) -> bool {
    &&& p.inter_ref_pic_set_prediction_flag == v.inter_ref_pic_set_prediction_flag
    &&& p.num_negative_pics == v.num_negative_pics
    &&& p.num_positive_pics == v.num_positive_pics
    &&& agree(p.delta_poc_s0@, v.delta_poc_s0@, v.num_negative_pics as int)
    &&& agree(p.used_by_curr_pic_s0@, v.used_by_curr_pic_s0@, v.num_negative_pics as int)
    &&& agree(p.delta_poc_s1@, v.delta_poc_s1@, v.num_positive_pics as int)
    &&& agree(p.used_by_curr_pic_s1@, v.used_by_curr_pic_s1@, v.num_positive_pics as int)
}

/// Whether what is not coded of an explicit set has its initial value, and the number of its
/// pictures is that of both kinds.
pub open spec fn rps_settled(p: ShortTermRefPicSet) -> bool {
    &&& p == (ShortTermRefPicSet {
        num_negative_pics: p.num_negative_pics,
        num_positive_pics: p.num_positive_pics,
        num_delta_pocs: (p.num_negative_pics + p.num_positive_pics) as u8,
        delta_poc_s0: p.delta_poc_s0,
        used_by_curr_pic_s0: p.used_by_curr_pic_s0,
        delta_poc_s1: p.delta_poc_s1,
        used_by_curr_pic_s1: p.used_by_curr_pic_s1,
        ..ShortTermRefPicSet::initial()
    })
    &&& tail_is(p.delta_poc_s0@, p.num_negative_pics as int, 0i32)
    &&& tail_is(p.used_by_curr_pic_s0@, p.num_negative_pics as int, false)
    &&& tail_is(p.delta_poc_s1@, p.num_positive_pics as int, 0i32)
    &&& tail_is(p.used_by_curr_pic_s1@, p.num_positive_pics as int, false)
}

/// Settled sets that are the same as far as they are coded are equal.
pub proof fn lemma_rps_equal(p: ShortTermRefPicSet, q: ShortTermRefPicSet)
    requires
        rps_same(q, p),
        rps_settled(p),
        rps_settled(q),
    ensures
        q == p,
{
    assert(q.delta_poc_s0 =~= p.delta_poc_s0);
    assert(q.used_by_curr_pic_s0 =~= p.used_by_curr_pic_s0);
    assert(q.delta_poc_s1 =~= p.delta_poc_s1);
    assert(q.used_by_curr_pic_s1 =~= p.used_by_curr_pic_s1);
}

/// The explicit set with these pictures.
fn assemble_rps(
    n: u8,
    m: u8,
    s0: ([i32; 16], [bool; 16]),
    s1: ([i32; 16], [bool; 16]),
) -> (p: ShortTermRefPicSet)
    requires
        n <= 16,
        m <= 16,
    ensures
        p == (ShortTermRefPicSet {
            num_negative_pics: n,
            num_positive_pics: m,
            num_delta_pocs: (n + m) as u8,
            delta_poc_s0: s0.0,
            used_by_curr_pic_s0: s0.1,
            delta_poc_s1: s1.0,
            used_by_curr_pic_s1: s1.1,
            ..ShortTermRefPicSet::initial()
        }),
{
    let mut p = ShortTermRefPicSet::default();
    p.num_negative_pics = n;
    p.num_positive_pics = m;
    p.num_delta_pocs = n + m;
    p.delta_poc_s0 = s0.0;
    p.used_by_curr_pic_s0 = s0.1;
    p.delta_poc_s1 = s1.0;
    p.used_by_curr_pic_s1 = s1.1;
    p
}

/// `st_ref_pic_set( stRpsIdx )` (7.3.7). A set that is predicted from another one is
/// refused.
pub(crate) fn parse_st_ref_pic_set(r: &mut BitReader, st_rps_idx: u8) -> (p: ShortTermRefPicSet)
    requires
        old(r).inv(),
    ensures
        final(r).inv(),
        decodes(old(r)@, st_ref_pic_set_syntax(p, st_rps_idx as int), final(r)@),
        final(r)@ is Some ==> p.valid(),
        !p.inter_ref_pic_set_prediction_flag,
        p.num_negative_pics <= 16,
        p.num_positive_pics <= 16,
        p.num_delta_pocs == p.num_negative_pics + p.num_positive_pics,
        rps_settled(p),
        forall|v: ShortTermRefPicSet, rest: Seq<bool>|
            old(r)@ == Some(#[trigger] st_ref_pic_set_syntax(v, st_rps_idx as int).onto(rest))
                && st_ref_pic_set_syntax(v, st_rps_idx as int).fits() && v.valid()
                    ==> final(r)@ == Some(rest)
                && rps_same(p, v),
{
    proof {
        reveal(st_ref_pic_set_syntax);
    }
    if st_rps_idx != 0 {
        let predicted: bool = r.flag();
        r.require(!predicted);
    }
    let n: u8 = r.ue(16) as u8;
    let m: u8 = r.ue(16) as u8;
    let s0 = parse_s0(r, n as usize);
    let s1 = parse_s1(r, m as usize);
    assemble_rps(n, m, s0, s1)
}

} // verus!
