//! The reader of `pred_weight_table()`.

use crate::codec::bit_reader::BitReader;
use crate::codec::h265::parser::common::{agree, decodes, parse_flags, tail_is};
use crate::codec::h265::tables::{
    no_chroma_weights, pwt_syntax, weight_list_syntax, weights_from, Weights,
};
use crate::codec::h265::types::{PredWeightTable, SliceType};
use crate::syntax::{group_onto, group_read, syntax, Syntax};
use vstd::prelude::*;

verus! {

broadcast use {group_onto, group_read};

/// The weights of one reference list.
pub struct WeightList {
    pub luma_flag: [bool; 15],
    pub chroma_flag: [bool; 15],
    pub luma_weight: [i8; 15],
    pub luma_offset: [i8; 15],
    pub chroma_weight: [[i8; 2]; 15],
    pub chroma_offset: [[i16; 2]; 15],
}

/// Whether the weights of picture `k` of `w`, as far as they are coded, are these.
pub open spec fn weights_same_at(a: Weights, w: Weights, k: int) -> bool {
    &&& w.luma_flag[k]
        ==> a.luma_weight[k] == w.luma_weight[k] && a.luma_offset[k] == w.luma_offset[k]
    &&& w.chroma_flag[k] ==> {
        &&& a.chroma_weight[k][0] == w.chroma_weight[k][0]
        &&& a.chroma_offset[k][0] == w.chroma_offset[k][0]
        &&& a.chroma_weight[k][1] == w.chroma_weight[k][1]
        &&& a.chroma_offset[k][1] == w.chroma_offset[k][1]
    }
}

/// Whether the weights of the first `n` pictures of `w`, as far as they are coded, are
/// these.
pub open spec fn weights_same(a: Weights, w: Weights, n: int) -> bool {
    forall|k: int| #![trigger a.luma_weight[k]] #![trigger w.luma_flag[k]] 0 <= k < n
        ==> weights_same_at(a, w, k)
}

/// Whether the weights of picture `k` that are not coded are zero.
pub open spec fn weights_settled_at(a: Weights, k: int) -> bool {
    &&& !a.luma_flag[k] ==> a.luma_weight[k] == 0 && a.luma_offset[k] == 0
    &&& !a.chroma_flag[k] ==> {
        &&& a.chroma_weight[k][0] == 0
        &&& a.chroma_offset[k][0] == 0
        &&& a.chroma_weight[k][1] == 0
        &&& a.chroma_offset[k][1] == 0
    }
}

/// Whether what is not coded of a list of `n` pictures is zero.
pub open spec fn weight_list_settled(a: Weights, n: int) -> bool {
    &&& a.luma_flag.len() == 15
    &&& a.chroma_flag.len() == 15
    &&& tail_is(a.luma_flag, n, false)
    &&& tail_is(a.chroma_flag, n, false)
    &&& forall|k: int|
        #![trigger a.luma_weight[k]]
        #![trigger a.luma_flag[k]]
        0 <= k < 15 ==> weights_settled_at(a, k)
}

impl WeightList {
    /// The weights as sequences.
    pub open spec fn weights(self) -> Weights {
        Weights {
            luma_flag: self.luma_flag@,
            chroma_flag: self.chroma_flag@,
            luma_weight: self.luma_weight@,
            luma_offset: self.luma_offset@,
            chroma_weight: self.chroma_weight@,
            chroma_offset: self.chroma_offset@,
        }
    }
}

/// The weights of one picture.
struct PictureWeights {
    luma_weight: i8,
    luma_offset: i8,
    chroma_weight: [i8; 2],
    chroma_offset: [i16; 2],
}

impl PictureWeights {
    /// Whether the weights of picture `k` of `w`, as far as they are coded, are these.
    spec fn same(self, w: Weights, k: int) -> bool {
        &&& w.luma_flag[k]
            ==> self.luma_weight == w.luma_weight[k] && self.luma_offset == w.luma_offset[k]
        &&& w.chroma_flag[k] ==> {
            &&& self.chroma_weight[0] == w.chroma_weight[k][0]
            &&& self.chroma_offset[0] == w.chroma_offset[k][0]
            &&& self.chroma_weight[1] == w.chroma_weight[k][1]
            &&& self.chroma_offset[1] == w.chroma_offset[k][1]
        }
    }
}

/// The table of picture `i`.
#[verifier::opaque]
spec fn picture_weights_syntax(w: Weights, i: int) -> Syntax {
    syntax()
        .when(
            w.luma_flag[i],
            syntax().se(w.luma_weight[i] as int).se(w.luma_offset[i] as int),
        )
        .when(
            w.chroma_flag[i],
            syntax()
                .se(w.chroma_weight[i][0] as int)
                .se(w.chroma_offset[i][0] as int)
                .se(w.chroma_weight[i][1] as int)
                .se(w.chroma_offset[i][1] as int),
        )
}

proof fn lemma_weights_step(w: Weights, i: int, n: int)
    requires
        0 <= i < n,
    ensures
        forall|rest: Seq<bool>|
            #[trigger] weights_from(w, i, n).onto(rest) == picture_weights_syntax(w, i).onto(
                weights_from(w, i + 1, n).onto(rest),
            ),
        weights_from(w, i, n).fits()
            <==> picture_weights_syntax(w, i).fits() && weights_from(w, i + 1, n).fits(),
{
    reveal(picture_weights_syntax);
}

/// Two values.
fn two<T: Copy>(a: T, b: T) -> (r: [T; 2])
    ensures
        r[0] == a,
        r[1] == b,
{
    [a, b]
}

/// The weights of one picture.
fn parse_picture_weights(r: &mut BitReader, luma: bool, chroma: bool) -> (f: PictureWeights)
    requires
        old(r).inv(),
    ensures
        final(r).inv(),
        final(r)@ is Some ==> old(r)@ is Some,
        forall|s: Weights, i: int|
            s.luma_flag[i] == luma && s.chroma_flag[i] == chroma && f.same(s, i) ==> decodes(
                old(r)@,
                #[trigger] picture_weights_syntax(s, i),
                final(r)@,
            ),
        forall|v: Weights, i: int, rest: Seq<bool>|
            v.luma_flag[i] == luma && v.chroma_flag[i] == chroma && old(r)@ == Some(
                #[trigger] picture_weights_syntax(v, i).onto(rest),
            ) && picture_weights_syntax(v, i).fits() ==> final(r)@ == Some(rest) && f.same(v, i),
        !luma ==> f.luma_weight == 0 && f.luma_offset == 0,
        !chroma ==> {
            &&& f.chroma_weight[0] == 0
            &&& f.chroma_offset[0] == 0
            &&& f.chroma_weight[1] == 0
            &&& f.chroma_offset[1] == 0
        },
{
    proof {
        reveal(picture_weights_syntax);
    }
    let mut luma_weight: i8 = 0;
    let mut luma_offset: i8 = 0;
    if luma {
        luma_weight = r.se(-0x80, 0x7f) as i8;
        luma_offset = r.se(-0x80, 0x7f) as i8;
    }
    let mut cb_weight: i8 = 0;
    let mut cb_offset: i16 = 0;
    let mut cr_weight: i8 = 0;
    let mut cr_offset: i16 = 0;
    if chroma {
        cb_weight = r.se(-0x80, 0x7f) as i8;
        cb_offset = r.se(-0x8000, 0x7fff) as i16;
        cr_weight = r.se(-0x80, 0x7f) as i8;
        cr_offset = r.se(-0x8000, 0x7fff) as i16;
    }
    PictureWeights {
        luma_weight,
        luma_offset,
        chroma_weight: two(cb_weight, cr_weight),
        chroma_offset: two(cb_offset, cr_offset),
    }
}

/// The weights of the pictures.
fn parse_weights(
    r: &mut BitReader,
    luma_flag: [bool; 15],
    chroma_flag: [bool; 15],
    n: usize,
) -> (a: WeightList)
    requires
        old(r).inv(),
        n <= 15,
    ensures
        final(r).inv(),
        a.luma_flag == luma_flag,
        a.chroma_flag == chroma_flag,
        final(r)@ is Some ==> old(r)@ is Some,
        forall|s: Weights|
            agree(luma_flag@, s.luma_flag, n as int) && agree(chroma_flag@, s.chroma_flag, n as int)
                && weights_same(a.weights(), s, n as int)
                ==> decodes(old(r)@, #[trigger] weights_from(s, 0, n as int), final(r)@),
        forall|v: Weights, rest: Seq<bool>|
            old(r)@ == Some(#[trigger] weights_from(v, 0, n as int).onto(rest))
                && weights_from(v, 0, n as int).fits() && agree(luma_flag@, v.luma_flag, n as int)
                && agree(chroma_flag@, v.chroma_flag, n as int)
                ==> final(r)@ == Some(rest) && weights_same(a.weights(), v, n as int),
        forall|k: int| 0 <= k < n ==> #[trigger] weights_settled_at(a.weights(), k),
        tail_is(a.luma_weight@, n as int, 0i8),
        tail_is(a.luma_offset@, n as int, 0i8),
        tail_is(a.chroma_weight@, n as int, [0i8; 2usize]),
        tail_is(a.chroma_offset@, n as int, [0i16; 2usize]),
{
    let mut a = WeightList {
        luma_flag,
        chroma_flag,
        luma_weight: [0; 15],
        luma_offset: [0; 15],
        chroma_weight: [[0; 2]; 15],
        chroma_offset: [[0; 2]; 15],
    };
    let mut i: usize = 0;
    while i < n
        invariant
            i <= n <= 15,
            a.luma_flag == luma_flag,
            a.chroma_flag == chroma_flag,
            forall|k: int| 0 <= k < i ==> #[trigger] weights_settled_at(a.weights(), k),
            tail_is(a.luma_weight@, i as int, 0i8),
            tail_is(a.luma_offset@, i as int, 0i8),
            tail_is(a.chroma_weight@, i as int, [0i8; 2usize]),
            tail_is(a.chroma_offset@, i as int, [0i16; 2usize]),
            r.inv(),
            r@ is Some ==> old(r)@ is Some,
            forall|s: Weights, rest: Seq<bool>|
                agree(luma_flag@, s.luma_flag, n as int)
                    && agree(chroma_flag@, s.chroma_flag, n as int)
                    && weights_same(a.weights(), s, i as int)
                    && r@ == Some(weights_from(s, i as int, n as int).onto(rest))
                    ==> old(r)@
                    == Some(#[trigger] weights_from(s, 0, n as int).onto(rest)),
            forall|s: Weights|
                agree(luma_flag@, s.luma_flag, n as int)
                    && agree(chroma_flag@, s.chroma_flag, n as int)
                    && weights_same(a.weights(), s, i as int) && r@ is Some
                    && weights_from(s, i as int, n as int).fits()
                    ==> #[trigger] weights_from(s, 0, n as int).fits(),
            forall|v: Weights, rest: Seq<bool>|
                old(r)@ == Some(#[trigger] weights_from(v, 0, n as int).onto(rest))
                    && weights_from(v, 0, n as int).fits()
                    && agree(luma_flag@, v.luma_flag, n as int)
                    && agree(chroma_flag@, v.chroma_flag, n as int)
                    ==> r@ == Some(weights_from(v, i as int, n as int).onto(rest))
                        && weights_from(v, i as int, n as int).fits()
                        && weights_same(a.weights(), v, i as int),
        decreases n - i,
    {
        let ghost start = r@;
        let ghost before = a;
        let f = parse_picture_weights(r, luma_flag[i], chroma_flag[i]);
        a.luma_weight[i] = f.luma_weight;
        a.luma_offset[i] = f.luma_offset;
        a.chroma_weight[i] = f.chroma_weight;
        a.chroma_offset[i] = f.chroma_offset;
        proof {
            let w0 = before.weights();
            let w1 = a.weights();
            assert(w1.luma_weight == w0.luma_weight.update(i as int, f.luma_weight));
            assert(w1.luma_offset == w0.luma_offset.update(i as int, f.luma_offset));
            assert(w1.chroma_weight == w0.chroma_weight.update(i as int, f.chroma_weight));
            assert(w1.chroma_offset == w0.chroma_offset.update(i as int, f.chroma_offset));
            assert forall|k: int| 0 <= k < i + 1 implies #[trigger] weights_settled_at(w1, k) by {
                if k < i {
                    assert(weights_settled_at(w0, k));
                }
            }
            assert forall|s: Weights|
                #[trigger] weights_same(w1, s, i + 1)
                    <==> weights_same(w0, s, i as int) && f.same(s, i as int) by {
                if weights_same(w1, s, i + 1) {
                    assert(weights_same_at(w1, s, i as int));
                    assert forall|k: int| 0 <= k < i implies weights_same_at(w0, s, k) by {
                        assert(weights_same_at(w1, s, k));
                    }
                }
                if weights_same(w0, s, i as int) && f.same(s, i as int) {
                    assert forall|k: int| 0 <= k < i + 1 implies weights_same_at(w1, s, k) by {
                        if k < i {
                            assert(weights_same_at(w0, s, k));
                        }
                    }
                }
            }
            assert forall|s: Weights, rest: Seq<bool>|
                agree(luma_flag@, s.luma_flag, n as int)
                    && agree(chroma_flag@, s.chroma_flag, n as int) && weights_same(w1, s, i + 1)
                    && r@ == Some(
                    weights_from(s, i + 1, n as int).onto(rest),
                ) implies old(r)@ == Some(#[trigger] weights_from(s, 0, n as int).onto(rest)) by {
                lemma_weights_step(s, i as int, n as int);
                assert(decodes(start, picture_weights_syntax(s, i as int), r@));
                assert(start == Some(weights_from(s, i as int, n as int).onto(rest)));
            }
            assert forall|s: Weights|
                agree(luma_flag@, s.luma_flag, n as int)
                    && agree(chroma_flag@, s.chroma_flag, n as int) && weights_same(w1, s, i + 1)
                    && r@ is Some && weights_from(
                    s,
                    i + 1,
                    n as int,
                ).fits() implies #[trigger] weights_from(s, 0, n as int).fits() by {
                lemma_weights_step(s, i as int, n as int);
                assert(decodes(start, picture_weights_syntax(s, i as int), r@));
            }
            assert forall|v: Weights, rest: Seq<bool>|
                old(r)@ == Some(#[trigger] weights_from(v, 0, n as int).onto(rest)) && weights_from(
                    v,
                    0,
                    n as int,
                ).fits() && agree(luma_flag@, v.luma_flag, n as int)
                    && agree(chroma_flag@, v.chroma_flag, n as int)
                    implies r@ == Some(weights_from(v, i + 1, n as int).onto(rest))
                && weights_from(v, i + 1, n as int).fits() && weights_same(w1, v, i + 1) by {
                lemma_weights_step(v, i as int, n as int);
                assert(start == Some(
                    picture_weights_syntax(v, i as int).onto(weights_from(v, i + 1, n as int).onto(rest)),
                ));
            }
        }
        i = i + 1;
    }
    a
}

/// Whether the flags of the first `n` pictures of `v` are these, and so are the weights
/// as far as they are coded.
pub open spec fn weight_list_same(a: Weights, v: Weights, n: int) -> bool {
    &&& agree(a.luma_flag, v.luma_flag, n)
    &&& agree(a.chroma_flag, v.chroma_flag, n)
    &&& weights_same(a, v, n)
}

/// The flags and the weights of one reference list.
fn parse_weight_list(r: &mut BitReader, chroma_array_type: u8, n: usize) -> (a: WeightList)
    requires
        old(r).inv(),
        n <= 15,
    ensures
        final(r).inv(),
        decodes(
            old(r)@,
            weight_list_syntax(a.weights(), chroma_array_type as int, n as int),
            final(r)@,
        ),
        chroma_array_type == 0 ==> no_chroma_weights(a.weights(), n as int),
        forall|v: Weights, rest: Seq<bool>|
            old(r)@ == Some(#[trigger] weight_list_syntax(v, chroma_array_type as int, n as int).onto(rest))
                && weight_list_syntax(v, chroma_array_type as int, n as int).fits()
                    && (chroma_array_type == 0
                ==> no_chroma_weights(v, n as int)) ==> final(r)@ == Some(rest) && weight_list_same(
                a.weights(),
                v,
                n as int,
            ),
        weight_list_settled(a.weights(), n as int),
{
    proof {
        reveal(weight_list_syntax);
    }
    let luma_flag: [bool; 15] = parse_flags::<15>(r, n);
    let mut chroma_flag: [bool; 15] = [false; 15];
    if chroma_array_type != 0 {
        chroma_flag = parse_flags::<15>(r, n);
    }
    let a = parse_weights(r, luma_flag, chroma_flag, n);
    proof {
        let w = a.weights();
        assert forall|k: int| 0 <= k < 15 implies #[trigger] weights_settled_at(w, k) by {
            if k >= n {
                assert(a.luma_weight@[k] == 0 && a.luma_offset@[k] == 0);
                assert(a.chroma_weight@[k] == [0i8; 2usize]);
                assert(a.chroma_offset@[k] == [0i16; 2usize]);
            }
        }
    }
    a
}

/// The table made of these lists.
fn assemble_pwt(
    luma_log2_weight_denom: u8,
    delta_chroma_log2_weight_denom: i8,
    l0: WeightList,
    l1: WeightList,
) -> (t: PredWeightTable)
    ensures
        t.luma_log2_weight_denom == luma_log2_weight_denom,
        t.delta_chroma_log2_weight_denom == delta_chroma_log2_weight_denom,
        t.l0() == l0.weights(),
        t.l1() == l1.weights(),
{
    PredWeightTable {
        luma_log2_weight_denom,
        delta_chroma_log2_weight_denom,
        luma_weight_l0_flag: l0.luma_flag,
        chroma_weight_l0_flag: l0.chroma_flag,
        delta_luma_weight_l0: l0.luma_weight,
        luma_offset_l0: l0.luma_offset,
        delta_chroma_weight_l0: l0.chroma_weight,
        delta_chroma_offset_l0: l0.chroma_offset,
        luma_weight_l1_flag: l1.luma_flag,
        chroma_weight_l1_flag: l1.chroma_flag,
        delta_luma_weight_l1: l1.luma_weight,
        luma_offset_l1: l1.luma_offset,
        delta_chroma_weight_l1: l1.chroma_weight,
        delta_chroma_offset_l1: l1.chroma_offset,
    }
}

/// Whether the fields that are coded of `v` are those of `p`.
pub open spec fn pwt_same(
    p: PredWeightTable,
    v: PredWeightTable,
    slice_type: SliceType,
    chroma_array_type: int,
    l0_minus1: int,
    l1_minus1: int,
) -> bool {
    &&& p.luma_log2_weight_denom == v.luma_log2_weight_denom
    &&& chroma_array_type != 0
        ==> p.delta_chroma_log2_weight_denom == v.delta_chroma_log2_weight_denom
    &&& weight_list_same(p.l0(), v.l0(), l0_minus1 + 1)
    &&& slice_type == SliceType::B ==> weight_list_same(p.l1(), v.l1(), l1_minus1 + 1)
}

/// Whether what is not coded is zero.
pub open spec fn pwt_settled(
    p: PredWeightTable,
    slice_type: SliceType,
    chroma_array_type: int,
    l0_minus1: int,
    l1_minus1: int,
) -> bool {
    &&& chroma_array_type == 0 ==> p.delta_chroma_log2_weight_denom == 0
    &&& weight_list_settled(p.l0(), l0_minus1 + 1)
    &&& weight_list_settled(p.l1(), if slice_type == SliceType::B { l1_minus1 + 1 } else { 0 })
}

/// Settled lists that are the same as far as they are coded have equal weights.
proof fn lemma_weights_equal(a: Weights, b: Weights, n: int, k: int)
    requires
        weight_list_same(b, a, n),
        weight_list_settled(a, n),
        weight_list_settled(b, n),
        0 <= k < 15,
    ensures
        b.luma_flag[k] == a.luma_flag[k],
        b.chroma_flag[k] == a.chroma_flag[k],
        b.luma_weight[k] == a.luma_weight[k],
        b.luma_offset[k] == a.luma_offset[k],
        b.chroma_weight[k] == a.chroma_weight[k],
        b.chroma_offset[k] == a.chroma_offset[k],
{
    if k < n {
        assert(b.luma_flag[k] == a.luma_flag[k]);
        assert(b.chroma_flag[k] == a.chroma_flag[k]);
        assert(weights_same_at(b, a, k));
    }
    assert(weights_settled_at(a, k) && weights_settled_at(b, k));
    assert(b.chroma_weight[k] =~= a.chroma_weight[k]);
    assert(b.chroma_offset[k] =~= a.chroma_offset[k]);
}

/// Settled tables that are the same as far as they are coded are equal.
pub proof fn lemma_pwt_equal(
    p: PredWeightTable,
    q: PredWeightTable,
    slice_type: SliceType,
    chroma_array_type: int,
    l0_minus1: int,
    l1_minus1: int,
)
    requires
        pwt_same(q, p, slice_type, chroma_array_type, l0_minus1, l1_minus1),
        pwt_settled(p, slice_type, chroma_array_type, l0_minus1, l1_minus1),
        pwt_settled(q, slice_type, chroma_array_type, l0_minus1, l1_minus1),
    ensures
        q == p,
{
    let n = if slice_type == SliceType::B { l1_minus1 + 1 } else { 0 };
    assert(weight_list_same(q.l1(), p.l1(), n));
    assert forall|k: int| 0 <= k < 15 implies {
        &&& q.luma_weight_l0_flag[k] == p.luma_weight_l0_flag[k]
        &&& q.chroma_weight_l0_flag[k] == p.chroma_weight_l0_flag[k]
        &&& q.delta_luma_weight_l0[k] == p.delta_luma_weight_l0[k]
        &&& q.luma_offset_l0[k] == p.luma_offset_l0[k]
        &&& q.delta_chroma_weight_l0[k] == p.delta_chroma_weight_l0[k]
        &&& q.delta_chroma_offset_l0[k] == p.delta_chroma_offset_l0[k]
        &&& q.luma_weight_l1_flag[k] == p.luma_weight_l1_flag[k]
        &&& q.chroma_weight_l1_flag[k] == p.chroma_weight_l1_flag[k]
        &&& q.delta_luma_weight_l1[k] == p.delta_luma_weight_l1[k]
        &&& q.luma_offset_l1[k] == p.luma_offset_l1[k]
        &&& q.delta_chroma_weight_l1[k] == p.delta_chroma_weight_l1[k]
        &&& q.delta_chroma_offset_l1[k] == p.delta_chroma_offset_l1[k]
    } by {
        lemma_weights_equal(p.l0(), q.l0(), l0_minus1 + 1, k);
        lemma_weights_equal(p.l1(), q.l1(), n, k);
    }
    assert(q.luma_weight_l0_flag =~= p.luma_weight_l0_flag);
    assert(q.chroma_weight_l0_flag =~= p.chroma_weight_l0_flag);
    assert(q.delta_luma_weight_l0 =~= p.delta_luma_weight_l0);
    assert(q.luma_offset_l0 =~= p.luma_offset_l0);
    assert(q.delta_chroma_weight_l0 =~= p.delta_chroma_weight_l0);
    assert(q.delta_chroma_offset_l0 =~= p.delta_chroma_offset_l0);
    assert(q.luma_weight_l1_flag =~= p.luma_weight_l1_flag);
    assert(q.chroma_weight_l1_flag =~= p.chroma_weight_l1_flag);
    assert(q.delta_luma_weight_l1 =~= p.delta_luma_weight_l1);
    assert(q.luma_offset_l1 =~= p.luma_offset_l1);
    assert(q.delta_chroma_weight_l1 =~= p.delta_chroma_weight_l1);
    assert(q.delta_chroma_offset_l1 =~= p.delta_chroma_offset_l1);
}

/// `pred_weight_table()` (7.3.6.3).
pub(crate) fn parse_pred_weight_table(
    r: &mut BitReader,
    slice_type: SliceType,
    chroma_array_type: u8,
    l0_minus1: u8,
    l1_minus1: u8,
) -> (p: PredWeightTable)
    requires
        old(r).inv(),
        l0_minus1 < 15,
        l1_minus1 < 15,
    ensures
        final(r).inv(),
        decodes(
            old(r)@,
            pwt_syntax(p, slice_type, chroma_array_type as int, l0_minus1 as int, l1_minus1 as int),
            final(r)@,
        ),
        chroma_array_type == 0 ==> no_chroma_weights(p.l0(), l0_minus1 + 1) && no_chroma_weights(
            p.l1(),
            l1_minus1 + 1,
        ),
        forall|v: PredWeightTable, rest: Seq<bool>|
            old(r)@ == Some(
                #[trigger] pwt_syntax(
                    v,
                    slice_type,
                    chroma_array_type as int,
                    l0_minus1 as int,
                    l1_minus1 as int,
                ).onto(rest),
            )
                && pwt_syntax(
                    v,
                    slice_type,
                    chroma_array_type as int,
                    l0_minus1 as int,
                    l1_minus1 as int,
                ).fits()
                && (
            chroma_array_type == 0
                ==> no_chroma_weights(v.l0(), l0_minus1 + 1) && (slice_type == SliceType::B
                ==> no_chroma_weights(v.l1(), l1_minus1 + 1)))
                    ==> final(r)@ == Some(rest) && pwt_same(
                p,
                v,
                slice_type,
                chroma_array_type as int,
                l0_minus1 as int,
                l1_minus1 as int,
            ),
        pwt_settled(
            p,
            slice_type,
            chroma_array_type as int,
            l0_minus1 as int,
            l1_minus1 as int,
        ),
{
    proof {
        reveal(pwt_syntax);
    }
    let luma_log2_weight_denom: u8 = r.ue(0xff) as u8;
    let mut delta_chroma_log2_weight_denom: i8 = 0;
    if chroma_array_type != 0 {
        delta_chroma_log2_weight_denom = r.se(-0x80, 0x7f) as i8;
    }
    let l0 = parse_weight_list(r, chroma_array_type, l0_minus1 as usize + 1);
    let l1 = if slice_type.is_b() {
        parse_weight_list(r, chroma_array_type, l1_minus1 as usize + 1)
    } else {
        no_weights()
    };
    assemble_pwt(luma_log2_weight_denom, delta_chroma_log2_weight_denom, l0, l1)
}

/// The weights where none are coded.
fn no_weights() -> (a: WeightList)
    ensures
        forall|n: int| 0 <= n <= 15 ==> #[trigger] no_chroma_weights(a.weights(), n),
        weight_list_settled(a.weights(), 0),
{
    WeightList {
        luma_flag: [false; 15],
        chroma_flag: [false; 15],
        luma_weight: [0; 15],
        luma_offset: [0; 15],
        chroma_weight: [[0; 2]; 15],
        chroma_offset: [[0; 2]; 15],
    }
}

} // verus!
