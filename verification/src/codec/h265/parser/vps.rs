//! The reader of `video_parameter_set_rbsp()`.

use crate::bits::lemma_pow2_values;
use crate::codec::bit_reader::BitReader;
use crate::codec::h265::parser::common::{
    agree, agree_from, decodes, outside_is, parse_u_max, MAX_UE,
};
use crate::codec::h265::parser::hrd::{
    hrd_same, hrd_settled, lemma_hrd_equal, parse_hrd_parameters, HrdCommon,
};
use crate::codec::h265::parser::ptl::{
    lemma_ptl_equal, parse_profile_tier_level, ptl_same, ptl_settled,
};
use crate::codec::h265::tables::{
    hrd_syntax, layer_sets_from, ptl_syntax, vps_cprms_present, vps_has_hrd, vps_head_syntax,
    vps_hrds_from, vps_layers_syntax, vps_ordering_from, vps_syntax, vps_timing_syntax, zero_flags,
};
use crate::codec::h265::types::{HrdParams, ProfileTierLevel, Vps};
use crate::syntax::{group_onto, group_read, syntax, Syntax};
use vstd::prelude::*;

verus! {

broadcast use {group_onto, group_read};

/// What stands in front of the profile.
pub struct VpsHead {
    pub video_parameter_set_id: u8,
    pub base_layer_internal_flag: bool,
    pub base_layer_available_flag: bool,
    pub max_layers_minus1: u8,
    pub max_sub_layers_minus1: u8,
    pub temporal_id_nesting_flag: bool,
}

impl VpsHead {
    /// The fields of `s`.
    #[verifier::opaque]
    pub open spec fn of(s: Vps) -> Self {
        VpsHead {
            video_parameter_set_id: s.video_parameter_set_id,
            base_layer_internal_flag: s.base_layer_internal_flag,
            base_layer_available_flag: s.base_layer_available_flag,
            max_layers_minus1: s.max_layers_minus1,
            max_sub_layers_minus1: s.max_sub_layers_minus1,
            temporal_id_nesting_flag: s.temporal_id_nesting_flag,
        }
    }

    /// Whether `s` holds these fields.
    pub open spec fn fills(self, s: Vps) -> bool {
        Self::of(s) == self
    }

    /// Whether the fields that are coded of `v` are these.
    #[verifier::opaque]
    pub open spec fn same(self, v: Vps) -> bool {
        &&& self.video_parameter_set_id == v.video_parameter_set_id
        &&& self.base_layer_internal_flag == v.base_layer_internal_flag
        &&& self.base_layer_available_flag == v.base_layer_available_flag
        &&& self.max_layers_minus1 == v.max_layers_minus1
        &&& self.max_sub_layers_minus1 == v.max_sub_layers_minus1
        &&& self.temporal_id_nesting_flag == v.temporal_id_nesting_flag
    }
}

/// What stands in front of the profile.
pub(crate) fn parse_vps_head(r: &mut BitReader) -> (f: VpsHead)
    requires
        old(r).inv(),
    ensures
        final(r).inv(),
        final(r)@ is Some ==> old(r)@ is Some,
        forall|s: Vps| f.fills(s) ==> decodes(old(r)@, #[trigger] vps_head_syntax(s), final(r)@),
        forall|v: Vps, rest: Seq<bool>|
            old(r)@ == Some(#[trigger] vps_head_syntax(v).onto(rest)) && vps_head_syntax(v).fits()
                && v.max_sub_layers_minus1 <= 6
                ==> final(r)@ == Some(
                rest,
            ) && f.same(v),
        f.max_sub_layers_minus1 <= 6,
{
    proof {
        lemma_pow2_values();
        reveal(vps_head_syntax);
        reveal(VpsHead::of);
        reveal(VpsHead::same);
    }
    let video_parameter_set_id: u8 = r.u(4) as u8;
    let base_layer_internal_flag: bool = r.flag();
    let base_layer_available_flag: bool = r.flag();
    let max_layers_minus1: u8 = r.u(6) as u8;
    let max_sub_layers_minus1: u8 = parse_u_max(r, 3, 6) as u8;
    let temporal_id_nesting_flag: bool = r.flag();
    let reserved: u32 = r.u(16);
    r.require(reserved == 0xffff);
    VpsHead {
        video_parameter_set_id,
        base_layer_internal_flag,
        base_layer_available_flag,
        max_layers_minus1,
        max_sub_layers_minus1,
        temporal_id_nesting_flag,
    }
}

/// The sub-layer ordering information.
fn parse_vps_ordering(
    r: &mut BitReader,
    first: usize,
    n: usize,
) -> (a: ([u32; 7], [u32; 7], [u32; 7]))
    requires
        old(r).inv(),
        first <= n <= 7,
    ensures
        final(r).inv(),
        final(r)@ is Some ==> old(r)@ is Some,
        forall|s: Vps|
            (agree_from(a.0@, s.max_dec_pic_buffering_minus1@, first as int, n as int)
                && agree_from(a.1@, s.max_num_reorder_pics@, first as int, n as int)
                && agree_from(a.2@, s.max_latency_increase_plus1@, first as int, n as int))
                ==> decodes(
                    old(r)@,
                    #[trigger] vps_ordering_from(s, first as int, n as int),
                    final(r)@,
                ),
        forall|v: Vps, rest: Seq<bool>|
            old(r)@ == Some(#[trigger] vps_ordering_from(v, first as int, n as int).onto(rest))
                && vps_ordering_from(v, first as int, n as int).fits()
                ==> final(r)@ == Some(rest)
                    && (agree_from(a.0@, v.max_dec_pic_buffering_minus1@, first as int, n as int)
                        && agree_from(a.1@, v.max_num_reorder_pics@, first as int, n as int)
                        && agree_from(a.2@, v.max_latency_increase_plus1@, first as int, n as int)),
        outside_is(a.0@, first as int, n as int, 0u32),
        outside_is(a.1@, first as int, n as int, 0u32),
        outside_is(a.2@, first as int, n as int, 0u32),
{
    let mut max_dec_pic_buffering_minus1: [u32; 7] = [0; 7];
    let mut max_num_reorder_pics: [u32; 7] = [0; 7];
    let mut max_latency_increase_plus1: [u32; 7] = [0; 7];
    let mut i: usize = first;
    while i < n
        invariant
            first <= i <= n <= 7,
            outside_is(max_dec_pic_buffering_minus1@, first as int, i as int, 0u32),
            outside_is(max_num_reorder_pics@, first as int, i as int, 0u32),
            outside_is(max_latency_increase_plus1@, first as int, i as int, 0u32),
            r.inv(),
            r@ is Some ==> old(r)@ is Some,
            forall|s: Vps, rest: Seq<bool>|
                (agree_from(
                    max_dec_pic_buffering_minus1@,
                    s.max_dec_pic_buffering_minus1@,
                    first as int,
                    i as int,
                )
                    && agree_from(
                        max_num_reorder_pics@,
                        s.max_num_reorder_pics@,
                        first as int,
                        i as int,
                    )
                    && agree_from(
                        max_latency_increase_plus1@,
                        s.max_latency_increase_plus1@,
                        first as int,
                        i as int,
                    ))
                    && r@ == Some(vps_ordering_from(s, i as int, n as int).onto(rest))
                    ==> old(r)@
                    == Some(#[trigger] vps_ordering_from(s, first as int, n as int).onto(rest)),
            forall|s: Vps|
                (agree_from(
                    max_dec_pic_buffering_minus1@,
                    s.max_dec_pic_buffering_minus1@,
                    first as int,
                    i as int,
                )
                    && agree_from(
                        max_num_reorder_pics@,
                        s.max_num_reorder_pics@,
                        first as int,
                        i as int,
                    )
                    && agree_from(
                        max_latency_increase_plus1@,
                        s.max_latency_increase_plus1@,
                        first as int,
                        i as int,
                    ))
                    && r@ is Some && vps_ordering_from(s, i as int, n as int).fits()
                    ==> #[trigger] vps_ordering_from(s, first as int, n as int).fits(),
            forall|v: Vps, rest: Seq<bool>|
                old(r)@ == Some(#[trigger] vps_ordering_from(v, first as int, n as int).onto(rest))
                    && vps_ordering_from(v, first as int, n as int).fits()
                    ==> r@ == Some(vps_ordering_from(v, i as int, n as int).onto(rest))
                        && vps_ordering_from(v, i as int, n as int).fits()
                        && (agree_from(
                            max_dec_pic_buffering_minus1@,
                            v.max_dec_pic_buffering_minus1@,
                            first as int,
                            i as int,
                        )
                            && agree_from(
                                max_num_reorder_pics@,
                                v.max_num_reorder_pics@,
                                first as int,
                                i as int,
                            )
                            && agree_from(
                                max_latency_increase_plus1@,
                                v.max_latency_increase_plus1@,
                                first as int,
                                i as int,
                            )),
        decreases n - i,
    {
        max_dec_pic_buffering_minus1[i] = r.ue(MAX_UE);
        max_num_reorder_pics[i] = r.ue(MAX_UE);
        max_latency_increase_plus1[i] = r.ue(MAX_UE);
        i = i + 1;
    }
    (max_dec_pic_buffering_minus1, max_num_reorder_pics, max_latency_increase_plus1)
}

/// Reads `n` flags, which must be zero.
fn parse_zero_flags(r: &mut BitReader, n: usize)
    requires
        old(r).inv(),
    ensures
        final(r).inv(),
        decodes(old(r)@, zero_flags(n as int), final(r)@),
        forall|rest: Seq<bool>|
            old(r)@ == Some(#[trigger] zero_flags(n as int).onto(rest)) ==> final(r)@ == Some(rest),
{
    let mut left: usize = n;
    while left > 0
        invariant
            left <= n,
            r.inv(),
            forall|rest: Seq<bool>|
                r@ == Some(zero_flags(left as int).onto(rest)) ==> old(r)@ == Some(
                    #[trigger] zero_flags(n as int).onto(rest),
                ),
            r@ is Some && zero_flags(left as int).fits() ==> zero_flags(n as int).fits(),
            forall|rest: Seq<bool>|
                old(r)@ == Some(#[trigger] zero_flags(n as int).onto(rest)) ==> r@ == Some(
                    zero_flags(left as int).onto(rest),
                ),
        decreases left,
    {
        let included: bool = r.flag();
        r.require(!included);
        left = left - 1;
    }
}

/// `layer_id_included_flag` of `n` layer sets of `m` layers each.
fn parse_layer_sets(r: &mut BitReader, n: u32, m: usize)
    requires
        old(r).inv(),
    ensures
        final(r).inv(),
        decodes(old(r)@, layer_sets_from(n as int, m as int), final(r)@),
        forall|rest: Seq<bool>|
            old(r)@ == Some(#[trigger] layer_sets_from(n as int, m as int).onto(rest))
                ==> final(r)@ == Some(rest),
{
    let mut left: u32 = n;
    while left > 0 && !r.failed()
        invariant
            left <= n,
            r.inv(),
            forall|rest: Seq<bool>|
                r@ == Some(layer_sets_from(left as int, m as int).onto(rest)) ==> old(r)@ == Some(
                    #[trigger] layer_sets_from(n as int, m as int).onto(rest),
                ),
            r@ is Some && layer_sets_from(left as int, m as int).fits() ==> layer_sets_from(
                n as int,
                m as int,
            ).fits(),
            forall|rest: Seq<bool>|
                old(r)@ == Some(#[trigger] layer_sets_from(n as int, m as int).onto(rest))
                    ==> r@ == Some(
                    layer_sets_from(left as int, m as int).onto(rest),
                ),
        decreases left,
    {
        parse_zero_flags(r, m);
        left = left - 1;
    }
}

/// The sub-layer ordering information and the layer sets.
pub struct VpsLayers {
    pub sub_layer_ordering_info_present_flag: bool,
    pub max_dec_pic_buffering_minus1: [u32; 7],
    pub max_num_reorder_pics: [u32; 7],
    pub max_latency_increase_plus1: [u32; 7],
    pub max_layer_id: u8,
    pub num_layer_sets_minus1: u32,
}

impl VpsLayers {
    /// The fields of `s`.
    #[verifier::opaque]
    pub open spec fn of(s: Vps) -> Self {
        VpsLayers {
            sub_layer_ordering_info_present_flag: s.sub_layer_ordering_info_present_flag,
            max_dec_pic_buffering_minus1: s.max_dec_pic_buffering_minus1,
            max_num_reorder_pics: s.max_num_reorder_pics,
            max_latency_increase_plus1: s.max_latency_increase_plus1,
            max_layer_id: s.max_layer_id,
            num_layer_sets_minus1: s.num_layer_sets_minus1,
        }
    }

    /// Whether `s` holds these fields.
    pub open spec fn fills(self, s: Vps) -> bool {
        Self::of(s) == self
    }

    /// Whether what is not coded has its initial value.
    #[verifier::opaque]
    pub open spec fn settled(self, max_sub_layers_minus1: u8) -> bool {
        let first = if self.sub_layer_ordering_info_present_flag {
            0
        } else {
            max_sub_layers_minus1 as int
        };
        let n = max_sub_layers_minus1 + 1;
        &&& outside_is(self.max_dec_pic_buffering_minus1@, first, n, 0u32)
        &&& outside_is(self.max_num_reorder_pics@, first, n, 0u32)
        &&& outside_is(self.max_latency_increase_plus1@, first, n, 0u32)
    }

    /// Whether the fields that are coded of `v` are these.
    #[verifier::opaque]
    pub open spec fn same(self, v: Vps, max_sub_layers_minus1: u8) -> bool {
        &&& self.sub_layer_ordering_info_present_flag == v.sub_layer_ordering_info_present_flag
        &&& agree_from(
            self.max_dec_pic_buffering_minus1@,
            v.max_dec_pic_buffering_minus1@,
            (if v.sub_layer_ordering_info_present_flag { 0 } else { max_sub_layers_minus1 as int }),
            max_sub_layers_minus1 + 1,
        )
        &&& agree_from(
            self.max_num_reorder_pics@,
            v.max_num_reorder_pics@,
            (if v.sub_layer_ordering_info_present_flag { 0 } else { max_sub_layers_minus1 as int }),
            max_sub_layers_minus1 + 1,
        )
        &&& agree_from(
            self.max_latency_increase_plus1@,
            v.max_latency_increase_plus1@,
            (if v.sub_layer_ordering_info_present_flag { 0 } else { max_sub_layers_minus1 as int }),
            max_sub_layers_minus1 + 1,
        )
        &&& self.max_layer_id == v.max_layer_id
        &&& self.num_layer_sets_minus1 == v.num_layer_sets_minus1
    }
}

/// The sub-layer ordering information and the layer sets.
pub(crate) fn parse_vps_layers(r: &mut BitReader, max_sub_layers_minus1: u8) -> (f: VpsLayers)
    requires
        old(r).inv(),
        max_sub_layers_minus1 <= 6,
    ensures
        final(r).inv(),
        final(r)@ is Some ==> old(r)@ is Some,
        forall|s: Vps| s.max_sub_layers_minus1 == max_sub_layers_minus1 && f.fills(s)
            ==> decodes(old(r)@, #[trigger] vps_layers_syntax(s), final(r)@),
        forall|v: Vps, rest: Seq<bool>|
            v.max_sub_layers_minus1 == max_sub_layers_minus1
                && old(r)@ == Some(#[trigger] vps_layers_syntax(v).onto(rest))
                && vps_layers_syntax(v).fits()
                ==> final(r)@ == Some(
                rest,
            ) && f.same(v, max_sub_layers_minus1),
        f.settled(max_sub_layers_minus1),
{
    proof {
        lemma_pow2_values();
        reveal(VpsLayers::settled);
        reveal(vps_layers_syntax);
        reveal(VpsLayers::of);
        reveal(VpsLayers::same);
    }
    let sub_layer_ordering_info_present_flag: bool = r.flag();
    let first: usize = if sub_layer_ordering_info_present_flag {
        0
    } else {
        max_sub_layers_minus1 as usize
    };
    let ordering = parse_vps_ordering(r, first, max_sub_layers_minus1 as usize + 1);
    let max_dec_pic_buffering_minus1: [u32; 7] = ordering.0;
    let max_num_reorder_pics: [u32; 7] = ordering.1;
    let max_latency_increase_plus1: [u32; 7] = ordering.2;
    let max_layer_id: u8 = r.u(6) as u8;
    let num_layer_sets_minus1: u32 = r.ue(MAX_UE);
    parse_layer_sets(r, num_layer_sets_minus1, max_layer_id as usize + 1);
    VpsLayers {
        sub_layer_ordering_info_present_flag,
        max_dec_pic_buffering_minus1,
        max_num_reorder_pics,
        max_latency_increase_plus1,
        max_layer_id,
        num_layer_sets_minus1,
    }
}

/// The hypothetical reference decoder parameters.
pub struct VpsHrds {
    pub hrd_layer_set_idx: Vec<u16>,
    pub cprms_present_flag: Vec<bool>,
    pub hrd_parameters: Vec<HrdParams>,
}

impl VpsHrds {
    /// Whether the first `n` entries of `s` are these.
    pub open spec fn fills_to(self, s: Vps, n: int) -> bool {
        &&& n <= s.hrd_layer_set_idx@.len()
        &&& n <= s.cprms_present_flag@.len()
        &&& n <= s.hrd_parameters@.len()
        &&& agree(self.hrd_layer_set_idx@, s.hrd_layer_set_idx@, n)
        &&& agree(self.cprms_present_flag@, s.cprms_present_flag@, n)
        &&& agree(self.hrd_parameters@, s.hrd_parameters@, n)
    }

    /// Whether what is coded or inferred of the first `n` entries of `v` is in these.
    pub open spec fn same_to(self, v: Vps, n: int) -> bool {
        &&& agree(self.hrd_layer_set_idx@, v.hrd_layer_set_idx@, n)
        &&& agree_from(self.cprms_present_flag@, v.cprms_present_flag@, 1, n)
        &&& forall|k: int|
            #![trigger self.hrd_parameters@[k]]
            #![trigger v.hrd_parameters@[k]]
            0 <= k < n ==> {
                &&& hrd_same(
                    self.hrd_parameters@[k],
                    v.hrd_parameters@[k],
                    v.max_sub_layers_minus1 as int,
                )
                &&& vps_cprms_present(v, k)
                    ==> self.hrd_parameters@[k].common().same(v.hrd_parameters@[k])
            }
    }

    /// Whether what is not coded of the first `n` entries has its inferred or initial value:
    /// the common information of the entry before, where there is none.
    pub open spec fn settled(self, n: int, max_sub_layers_minus1: int) -> bool {
        &&& n > 0 ==> self.cprms_present_flag@[0]
        &&& forall|k: int|
            0 <= k < n ==> hrd_settled(
                #[trigger] self.hrd_parameters@[k],
                max_sub_layers_minus1,
            )
        &&& forall|k: int|
            0 <= k < n ==> if self.cprms_present_flag@[k] {
                (#[trigger] self.hrd_parameters@[k]).common().settled()
            } else {
                self.hrd_parameters@[k].common() == self.hrd_parameters@[k - 1].common()
            }
    }

    /// The number of entries, and their consistency.
    pub open spec fn valid(self, n: int, max_sub_layers_minus1: int) -> bool {
        &&& self.hrd_layer_set_idx@.len() == n
        &&& self.cprms_present_flag@.len() == n
        &&& self.hrd_parameters@.len() == n
        &&& forall|k: int|
            0 <= k < n ==> (#[trigger] self.hrd_parameters@[k]).inferred(max_sub_layers_minus1)
        &&& forall|k: int|
            0 < k < n && !self.cprms_present_flag@[k]
                ==> (#[trigger] self.hrd_parameters@[k]).same_common(
                self.hrd_parameters@[k - 1],
            )
    }
}

/// Whether what is not coded of the first `n` entries has its inferred value.
pub open spec fn hrds_inferred(v: Vps, n: int) -> bool {
    &&& forall|i: int|
        0 <= i < n ==> (#[trigger] v.hrd_parameters@[i]).inferred(v.max_sub_layers_minus1 as int)
    &&& forall|i: int|
        0 < i < n && !v.cprms_present_flag@[i] ==> (#[trigger] v.hrd_parameters@[i]).same_common(
            v.hrd_parameters@[i - 1],
        )
}

/// The common information of `h`.
fn hrd_common_of(h: &HrdParams) -> (c: HrdCommon)
    ensures
        c == h.common(),
{
    HrdCommon {
        nal_hrd_parameters_present_flag: h.nal_hrd_parameters_present_flag,
        vcl_hrd_parameters_present_flag: h.vcl_hrd_parameters_present_flag,
        sub_pic_hrd_params_present_flag: h.sub_pic_hrd_params_present_flag,
        tick_divisor_minus2: h.tick_divisor_minus2,
        du_cpb_removal_delay_increment_length_minus1: h.du_cpb_removal_delay_increment_length_minus1,
        sub_pic_cpb_params_in_pic_timing_sei_flag: h.sub_pic_cpb_params_in_pic_timing_sei_flag,
        dpb_output_delay_du_length_minus1: h.dpb_output_delay_du_length_minus1,
        bit_rate_scale: h.bit_rate_scale,
        cpb_size_scale: h.cpb_size_scale,
        cpb_size_du_scale: h.cpb_size_du_scale,
        initial_cpb_removal_delay_length_minus1: h.initial_cpb_removal_delay_length_minus1,
        au_cpb_removal_delay_length_minus1: h.au_cpb_removal_delay_length_minus1,
        dpb_output_delay_length_minus1: h.dpb_output_delay_length_minus1,
    }
}

/// One entry.
pub struct VpsHrdRow {
    pub hrd_layer_set_idx: u16,
    pub cprms_present_flag: bool,
    pub hrd: HrdParams,
}

/// The table of entry `i`.
#[verifier::opaque]
pub open spec fn vps_hrd_row_syntax(v: Vps, i: int) -> Syntax {
    syntax()
        .ue(v.hrd_layer_set_idx[i] as int)
        .when(i > 0, syntax().flag(v.cprms_present_flag[i]))
        .part(
            hrd_syntax(
                v.hrd_parameters[i],
                vps_cprms_present(v, i),
                v.max_sub_layers_minus1 as int,
            ),
        )
}

/// One entry of the hypothetical reference decoder parameters.
fn parse_vps_hrd(
    r: &mut BitReader,
    first: bool,
    previous: &HrdCommon,
    max_sub_layers_minus1: u8,
) -> (f: VpsHrdRow)
    requires
        old(r).inv(),
        max_sub_layers_minus1 <= 6,
    ensures
        final(r).inv(),
        f.hrd.inferred(max_sub_layers_minus1 as int),
        first ==> f.cprms_present_flag,
        !f.cprms_present_flag ==> f.hrd.common() == *previous,
        hrd_settled(f.hrd, max_sub_layers_minus1 as int),
        f.cprms_present_flag ==> f.hrd.common().settled(),
        forall|s: Vps, i: int|
            i >= 0 && first == (i == 0) && s.max_sub_layers_minus1 == max_sub_layers_minus1
                && s.hrd_layer_set_idx@[i]
                == f.hrd_layer_set_idx && s.cprms_present_flag@[i] == f.cprms_present_flag
                    && s.hrd_parameters@[i]
                == f.hrd ==> decodes(old(r)@, #[trigger] vps_hrd_row_syntax(s, i), final(r)@),
        forall|v: Vps, i: int, rest: Seq<bool>|
            i >= 0 && first == (i == 0) && v.max_sub_layers_minus1 == max_sub_layers_minus1
                && old(r)@ == Some(
                #[trigger] vps_hrd_row_syntax(v, i).onto(rest),
            ) && vps_hrd_row_syntax(v, i).fits()
                && v.hrd_parameters@[i].inferred(max_sub_layers_minus1 as int) && (
            vps_cprms_present(v, i) || previous.flags_of(v.hrd_parameters@[i])) ==> {
                &&& final(r)@ == Some(rest)
                &&& f.hrd_layer_set_idx == v.hrd_layer_set_idx@[i]
                &&& f.cprms_present_flag == vps_cprms_present(v, i)
                &&& hrd_same(f.hrd, v.hrd_parameters@[i], max_sub_layers_minus1 as int)
                &&& vps_cprms_present(v, i) ==> f.hrd.common().same(v.hrd_parameters@[i])
            },
{
    proof {
        reveal(vps_hrd_row_syntax);
    }
    let hrd_layer_set_idx: u16 = r.ue(0xffff) as u16;
    let mut cprms_present_flag: bool = true;
    if !first {
        cprms_present_flag = r.flag();
    }
    let hrd = parse_hrd_parameters(r, cprms_present_flag, previous, max_sub_layers_minus1);
    VpsHrdRow { hrd_layer_set_idx, cprms_present_flag, hrd }
}

proof fn lemma_vps_hrds_step(v: Vps, i: int, n: int)
    requires
        0 <= i < n,
        vps_has_hrd(v, i) || vps_hrds_from(v, i, n).fits(),
    ensures
        forall|rest: Seq<bool>|
            #[trigger] vps_hrds_from(v, i, n).onto(rest) == vps_hrd_row_syntax(v, i).onto(
                vps_hrds_from(v, i + 1, n).onto(rest),
            ),
        vps_hrds_from(v, i, n).fits()
            <==> vps_hrd_row_syntax(v, i).fits() && vps_hrds_from(v, i + 1, n).fits(),
{
    reveal(vps_hrd_row_syntax);
}

/// The hypothetical reference decoder parameters.
fn parse_vps_hrds(r: &mut BitReader, n: u32, max_sub_layers_minus1: u8) -> (f: VpsHrds)
    requires
        old(r).inv(),
        max_sub_layers_minus1 <= 6,
    ensures
        final(r).inv(),
        final(r)@ is Some ==> f.valid(n as int, max_sub_layers_minus1 as int),
        final(r)@ is Some ==> f.settled(n as int, max_sub_layers_minus1 as int),
        final(r)@ is Some ==> old(r)@ is Some,
        forall|s: Vps|
            s.max_sub_layers_minus1 == max_sub_layers_minus1 && f.fills_to(s, n as int)
                ==> decodes(old(r)@, #[trigger] vps_hrds_from(s, 0, n as int), final(r)@),
        forall|v: Vps, rest: Seq<bool>|
            old(r)@ == Some(#[trigger] vps_hrds_from(v, 0, n as int).onto(rest))
                && vps_hrds_from(v, 0, n as int).fits()
                && v.max_sub_layers_minus1 == max_sub_layers_minus1 && hrds_inferred(v, n as int)
                ==> final(r)@ == Some(rest) && f.same_to(v, n as int),
{
    let mut f = VpsHrds {
        hrd_layer_set_idx: Vec::new(),
        cprms_present_flag: Vec::new(),
        hrd_parameters: Vec::new(),
    };
    let mut previous = HrdCommon::default();
    let mut i: u32 = 0;
    while i < n && !r.failed()
        invariant
            i <= n,
            max_sub_layers_minus1 <= 6,
            f.valid(i as int, max_sub_layers_minus1 as int),
            f.settled(i as int, max_sub_layers_minus1 as int),
            i > 0 ==> previous == f.hrd_parameters@[i - 1].common(),
            r.inv(),
            r@ is Some ==> old(r)@ is Some,
            forall|s: Vps, rest: Seq<bool>|
                s.max_sub_layers_minus1 == max_sub_layers_minus1 && f.fills_to(s, i as int)
                    && r@ == Some(vps_hrds_from(s, i as int, n as int).onto(rest))
                    ==> old(r)@
                    == Some(#[trigger] vps_hrds_from(s, 0, n as int).onto(rest)),
            forall|s: Vps|
                s.max_sub_layers_minus1 == max_sub_layers_minus1 && f.fills_to(s, i as int)
                    && r@ is Some && vps_hrds_from(s, i as int, n as int).fits()
                    ==> #[trigger] vps_hrds_from(s, 0, n as int).fits(),
            forall|v: Vps, rest: Seq<bool>|
                old(r)@ == Some(#[trigger] vps_hrds_from(v, 0, n as int).onto(rest))
                    && vps_hrds_from(v, 0, n as int).fits()
                    && v.max_sub_layers_minus1 == max_sub_layers_minus1
                    && hrds_inferred(v, n as int)
                    ==> r@ == Some(vps_hrds_from(v, i as int, n as int).onto(rest))
                        && vps_hrds_from(v, i as int, n as int).fits() && f.same_to(v, i as int),
        decreases n - i,
    {
        let ghost start = r@;
        let ghost before = f;
        let row = parse_vps_hrd(r, i == 0, &previous, max_sub_layers_minus1);
        previous = hrd_common_of(&row.hrd);
        f.hrd_layer_set_idx.push(row.hrd_layer_set_idx);
        f.cprms_present_flag.push(row.cprms_present_flag);
        f.hrd_parameters.push(row.hrd);
        proof {
            assert(f.settled(i + 1, max_sub_layers_minus1 as int)) by {
                assert forall|k: int| 0 <= k < i + 1 implies {
                    &&& hrd_settled(
                        #[trigger] f.hrd_parameters@[k],
                        max_sub_layers_minus1 as int,
                    )
                    &&& if f.cprms_present_flag@[k] {
                        f.hrd_parameters@[k].common().settled()
                    } else {
                        f.hrd_parameters@[k].common() == f.hrd_parameters@[k - 1].common()
                    }
                } by {
                    if k < i {
                        assert(f.hrd_parameters@[k] == before.hrd_parameters@[k]);
                        assert(f.cprms_present_flag@[k] == before.cprms_present_flag@[k]);
                        if k > 0 {
                            assert(f.hrd_parameters@[k - 1] == before.hrd_parameters@[k - 1]);
                        }
                    } else if k > 0 {
                        assert(f.hrd_parameters@[k - 1] == before.hrd_parameters@[k - 1]);
                    }
                }
            }
            assert forall|s: Vps|
                s.max_sub_layers_minus1 == max_sub_layers_minus1 && #[trigger] f.fills_to(s, i + 1)
                    implies before.fills_to(
                s,
                i as int,
            ) && decodes(start, vps_hrd_row_syntax(s, i as int), r@) by {
                assert(f.hrd_layer_set_idx@[i as int] == row.hrd_layer_set_idx);
                assert(f.cprms_present_flag@[i as int] == row.cprms_present_flag);
                assert(f.hrd_parameters@[i as int] == row.hrd);
                assert(before.fills_to(s, i as int)) by {
                    assert forall|k: int| 0 <= k < i
                        implies before.hrd_layer_set_idx@[k] == s.hrd_layer_set_idx@[k]
                        && before.cprms_present_flag@[k] == s.cprms_present_flag@[k]
                            && before.hrd_parameters@[k]
                        == s.hrd_parameters@[k] by {
                        assert(f.hrd_layer_set_idx@[k] == before.hrd_layer_set_idx@[k]);
                        assert(f.cprms_present_flag@[k] == before.cprms_present_flag@[k]);
                        assert(f.hrd_parameters@[k] == before.hrd_parameters@[k]);
                    }
                }
            }
            assert forall|s: Vps, rest: Seq<bool>|
                s.max_sub_layers_minus1 == max_sub_layers_minus1 && f.fills_to(s, i + 1)
                    && r@ == Some(
                    vps_hrds_from(s, i + 1, n as int).onto(rest),
                ) implies old(r)@ == Some(#[trigger] vps_hrds_from(s, 0, n as int).onto(rest)) by {
                lemma_vps_hrds_step(s, i as int, n as int);
                assert(start == Some(vps_hrds_from(s, i as int, n as int).onto(rest)));
            }
            assert forall|s: Vps|
                s.max_sub_layers_minus1 == max_sub_layers_minus1 && f.fills_to(s, i + 1)
                    && r@ is Some && vps_hrds_from(
                    s,
                    i + 1,
                    n as int,
                ).fits() implies #[trigger] vps_hrds_from(s, 0, n as int).fits() by {
                lemma_vps_hrds_step(s, i as int, n as int);
            }
            assert forall|v: Vps, rest: Seq<bool>|
                old(r)@ == Some(#[trigger] vps_hrds_from(v, 0, n as int).onto(rest))
                    && vps_hrds_from(
                    v,
                    0,
                    n as int,
                ).fits() && v.max_sub_layers_minus1 == max_sub_layers_minus1
                    && hrds_inferred(v, n as int)
                    implies r@
                == Some(vps_hrds_from(v, i + 1, n as int).onto(rest))
                    && vps_hrds_from(v, i + 1, n as int).fits()
                && f.same_to(v, i + 1) by {
                lemma_vps_hrds_step(v, i as int, n as int);
                assert(start == Some(vps_hrds_from(v, i as int, n as int).onto(rest)));
                assert(v.hrd_parameters@[i as int].inferred(max_sub_layers_minus1 as int));
                if i > 0 && !v.cprms_present_flag@[i as int] {
                    assert(v.hrd_parameters@[i as int].same_common(v.hrd_parameters@[i - 1]));
                    assert(before.hrd_parameters@[i - 1].same_common(v.hrd_parameters@[i - 1]));
                }
                assert(start == Some(
                    vps_hrd_row_syntax(v, i as int).onto(vps_hrds_from(v, i + 1, n as int).onto(rest)),
                ));
                assert forall|k: int| 0 <= k < i + 1 implies {
                    &&& hrd_same(
                        #[trigger] f.hrd_parameters@[k],
                        v.hrd_parameters@[k],
                        v.max_sub_layers_minus1 as int,
                    )
                    &&& vps_cprms_present(v, k)
                        ==> f.hrd_parameters@[k].common().same(v.hrd_parameters@[k])
                } by {
                    if k < i {
                        assert(f.hrd_parameters@[k] == before.hrd_parameters@[k]);
                    }
                }
            }
        }
        i = i + 1;
    }
    f
}

/// The timing information.
pub struct VpsTiming {
    pub timing_info_present_flag: bool,
    pub num_units_in_tick: u32,
    pub time_scale: u32,
    pub poc_proportional_to_timing_flag: bool,
    pub num_ticks_poc_diff_one_minus1: u32,
    pub num_hrd_parameters: u32,
    pub hrds: VpsHrds,
}

impl VpsTiming {
    /// The fields of `s`.
    #[verifier::opaque]
    pub open spec fn of(s: Vps) -> Self {
        VpsTiming {
            timing_info_present_flag: s.timing_info_present_flag,
            num_units_in_tick: s.num_units_in_tick,
            time_scale: s.time_scale,
            poc_proportional_to_timing_flag: s.poc_proportional_to_timing_flag,
            num_ticks_poc_diff_one_minus1: s.num_ticks_poc_diff_one_minus1,
            num_hrd_parameters: s.num_hrd_parameters,
            hrds: VpsHrds {
                hrd_layer_set_idx: s.hrd_layer_set_idx,
                cprms_present_flag: s.cprms_present_flag,
                hrd_parameters: s.hrd_parameters,
            },
        }
    }

    /// Whether `s` holds these fields.
    pub open spec fn fills(self, s: Vps) -> bool {
        Self::of(s) == self
    }

    /// Whether what is not coded has its inferred or initial value.
    #[verifier::opaque]
    pub open spec fn settled(self, max_sub_layers_minus1: u8) -> bool {
        &&& !self.timing_info_present_flag ==> {
            &&& self.num_units_in_tick == 0
            &&& self.time_scale == 0
            &&& !self.poc_proportional_to_timing_flag
            &&& self.num_hrd_parameters == 0
        }
        &&& !self.poc_proportional_to_timing_flag ==> self.num_ticks_poc_diff_one_minus1 == 0
        &&& self.hrds.hrd_layer_set_idx@.len() == self.num_hrd_parameters
        &&& self.hrds.cprms_present_flag@.len() == self.num_hrd_parameters
        &&& self.hrds.hrd_parameters@.len() == self.num_hrd_parameters
        &&& self.hrds.settled(self.num_hrd_parameters as int, max_sub_layers_minus1 as int)
    }

    /// Whether the fields that are coded of `v` are these.
    #[verifier::opaque]
    pub open spec fn same(self, v: Vps) -> bool {
        &&& self.timing_info_present_flag == v.timing_info_present_flag
        &&& v.timing_info_present_flag ==> self.num_units_in_tick == v.num_units_in_tick
        &&& v.timing_info_present_flag ==> self.time_scale == v.time_scale
        &&& v.timing_info_present_flag
            ==> self.poc_proportional_to_timing_flag == v.poc_proportional_to_timing_flag
        &&& v.timing_info_present_flag && v.poc_proportional_to_timing_flag
            ==> self.num_ticks_poc_diff_one_minus1 == v.num_ticks_poc_diff_one_minus1
        &&& v.timing_info_present_flag ==> self.num_hrd_parameters == v.num_hrd_parameters
        &&& v.timing_info_present_flag ==> self.hrds.same_to(v, v.num_hrd_parameters as int)
    }
}

/// The timing information.
pub(crate) fn parse_vps_timing(r: &mut BitReader, max_sub_layers_minus1: u8) -> (f: VpsTiming)
    requires
        old(r).inv(),
        max_sub_layers_minus1 <= 6,
    ensures
        final(r).inv(),
        final(r)@ is Some ==> old(r)@ is Some,
        forall|s: Vps| s.max_sub_layers_minus1 == max_sub_layers_minus1 && f.fills(s)
            ==> decodes(old(r)@, #[trigger] vps_timing_syntax(s), final(r)@),
        forall|v: Vps, rest: Seq<bool>|
            v.max_sub_layers_minus1 == max_sub_layers_minus1
                && old(r)@ == Some(#[trigger] vps_timing_syntax(v).onto(rest))
                && vps_timing_syntax(v).fits() && v.inferred()
                ==> final(r)@ == Some(
                rest,
            ) && f.same(v),
        final(r)@ is Some && f.timing_info_present_flag
            ==> f.hrds.valid(f.num_hrd_parameters as int, max_sub_layers_minus1 as int),
        final(r)@ is Some ==> f.settled(max_sub_layers_minus1),
{
    proof {
        reveal(VpsTiming::settled);
        lemma_pow2_values();
        reveal(vps_timing_syntax);
        reveal(VpsTiming::of);
        reveal(VpsTiming::same);
    }
    let timing_info_present_flag: bool = r.flag();
    let mut num_units_in_tick: u32 = 0;
    let mut time_scale: u32 = 0;
    let mut poc_proportional_to_timing_flag: bool = false;
    let mut num_ticks_poc_diff_one_minus1: u32 = 0;
    let mut num_hrd_parameters: u32 = 0;
    let mut hrds: VpsHrds = VpsHrds {
        hrd_layer_set_idx: Vec::new(),
        cprms_present_flag: Vec::new(),
        hrd_parameters: Vec::new(),
    };
    if timing_info_present_flag {
        num_units_in_tick = r.u(32);
        time_scale = r.u(32);
        poc_proportional_to_timing_flag = r.flag();
        if poc_proportional_to_timing_flag {
            num_ticks_poc_diff_one_minus1 = r.ue(MAX_UE);
        }
        num_hrd_parameters = r.ue(MAX_UE);
        hrds = parse_vps_hrds(r, num_hrd_parameters, max_sub_layers_minus1);
    }
    VpsTiming {
        timing_info_present_flag,
        num_units_in_tick,
        time_scale,
        poc_proportional_to_timing_flag,
        num_ticks_poc_diff_one_minus1,
        num_hrd_parameters,
        hrds,
    }
}

/// Whether the fields that are coded of `v` are those of `p`.
pub open spec fn vps_same(p: Vps, v: Vps) -> bool {
    &&& VpsHead::of(p).same(v)
    &&& ptl_same(p.profile_tier_level, v.profile_tier_level, true, v.max_sub_layers_minus1 as int)
    &&& VpsLayers::of(p).same(v, p.max_sub_layers_minus1)
    &&& VpsTiming::of(p).same(v)
    &&& p.extension_flag == v.extension_flag
}

/// Whether what is not coded has its inferred or initial value.
pub open spec fn vps_settled(p: Vps) -> bool {
    &&& ptl_settled(p.profile_tier_level, true, p.max_sub_layers_minus1 as int)
    &&& VpsLayers::of(p).settled(p.max_sub_layers_minus1)
    &&& VpsTiming::of(p).settled(p.max_sub_layers_minus1)
}

/// Whether all fields of `p` and `q` are equal.
pub open spec fn vps_equal(p: Vps, q: Vps) -> bool {
    &&& q == (Vps {
        hrd_layer_set_idx: q.hrd_layer_set_idx,
        cprms_present_flag: q.cprms_present_flag,
        hrd_parameters: q.hrd_parameters,
        ..p
    })
    &&& q.hrd_layer_set_idx@ == p.hrd_layer_set_idx@
    &&& q.cprms_present_flag@ == p.cprms_present_flag@
    &&& q.hrd_parameters@ == p.hrd_parameters@
}

/// Settled entries that are the same as far as they are coded are equal.
proof fn lemma_hrds_equal(p: Vps, q: Vps, n: int, k: int)
    requires
        p.max_sub_layers_minus1 <= 6,
        VpsTiming::of(p).hrds.settled(n, p.max_sub_layers_minus1 as int),
        VpsTiming::of(q).hrds.settled(n, p.max_sub_layers_minus1 as int),
        VpsTiming::of(q).hrds.same_to(p, n),
        0 <= k < n,
    ensures
        q.cprms_present_flag@[k] == p.cprms_present_flag@[k],
        q.hrd_parameters@[k] == p.hrd_parameters@[k],
    decreases k,
{
    reveal(VpsTiming::of);
    reveal(HrdCommon::same);
    reveal(HrdCommon::settled);
    let a = VpsTiming::of(p).hrds;
    let b = VpsTiming::of(q).hrds;
    let x = a.hrd_parameters@[k];
    let y = b.hrd_parameters@[k];
    assert(hrd_same(y, x, p.max_sub_layers_minus1 as int));
    assert(b.cprms_present_flag@[k] == a.cprms_present_flag@[k]);
    if a.cprms_present_flag@[k] {
        assert(y.common().same(x));
        assert(x.common().settled() && y.common().settled());
    } else {
        lemma_hrds_equal(p, q, n, k - 1);
        assert(a.hrd_parameters@[k - 1] == b.hrd_parameters@[k - 1]);
    }
    assert(x.common() == y.common());
    lemma_hrd_equal(x, y, p.max_sub_layers_minus1 as int);
}

/// Settled sets that are the same as far as they are coded are equal.
pub proof fn lemma_vps_equal(p: Vps, q: Vps)
    requires
        p.max_sub_layers_minus1 <= 6,
        vps_same(q, p),
        vps_settled(p),
        vps_settled(q),
    ensures
        vps_equal(p, q),
{
    reveal(VpsHead::of);
    reveal(VpsHead::same);
    reveal(VpsLayers::of);
    reveal(VpsLayers::same);
    reveal(VpsLayers::settled);
    reveal(VpsTiming::of);
    reveal(VpsTiming::same);
    reveal(VpsTiming::settled);
    lemma_ptl_equal(
        p.profile_tier_level,
        q.profile_tier_level,
        p.max_sub_layers_minus1 as int,
    );
    assert(q.max_dec_pic_buffering_minus1 =~= p.max_dec_pic_buffering_minus1);
    assert(q.max_num_reorder_pics =~= p.max_num_reorder_pics);
    assert(q.max_latency_increase_plus1 =~= p.max_latency_increase_plus1);
    let n = p.num_hrd_parameters as int;
    assert forall|k: int| 0 <= k < n implies {
        &&& q.cprms_present_flag@[k] == p.cprms_present_flag@[k]
        &&& q.hrd_parameters@[k] == p.hrd_parameters@[k]
    } by {
        lemma_hrds_equal(p, q, n, k);
    }
    assert(q.hrd_layer_set_idx@ =~= p.hrd_layer_set_idx@);
    assert(q.cprms_present_flag@ =~= p.cprms_present_flag@);
    assert(q.hrd_parameters@ =~= p.hrd_parameters@);
}

/// The structure that holds these fields.
fn assemble_vps(
    head: VpsHead,
    profile_tier_level: ProfileTierLevel,
    layers: VpsLayers,
    timing: VpsTiming,
    extension_flag: bool,
) -> (p: Vps)
    ensures
        head.fills(p),
        p.profile_tier_level == profile_tier_level,
        layers.fills(p),
        timing.fills(p),
        p.extension_flag == extension_flag,
{
    proof {
        reveal(VpsHead::of);
        reveal(VpsLayers::of);
        reveal(VpsTiming::of);
    }
    Vps {
        video_parameter_set_id: head.video_parameter_set_id,
        base_layer_internal_flag: head.base_layer_internal_flag,
        base_layer_available_flag: head.base_layer_available_flag,
        max_layers_minus1: head.max_layers_minus1,
        max_sub_layers_minus1: head.max_sub_layers_minus1,
        temporal_id_nesting_flag: head.temporal_id_nesting_flag,
        profile_tier_level,
        sub_layer_ordering_info_present_flag: layers.sub_layer_ordering_info_present_flag,
        max_dec_pic_buffering_minus1: layers.max_dec_pic_buffering_minus1,
        max_num_reorder_pics: layers.max_num_reorder_pics,
        max_latency_increase_plus1: layers.max_latency_increase_plus1,
        max_layer_id: layers.max_layer_id,
        num_layer_sets_minus1: layers.num_layer_sets_minus1,
        timing_info_present_flag: timing.timing_info_present_flag,
        num_units_in_tick: timing.num_units_in_tick,
        time_scale: timing.time_scale,
        poc_proportional_to_timing_flag: timing.poc_proportional_to_timing_flag,
        num_ticks_poc_diff_one_minus1: timing.num_ticks_poc_diff_one_minus1,
        num_hrd_parameters: timing.num_hrd_parameters,
        hrd_layer_set_idx: timing.hrds.hrd_layer_set_idx,
        cprms_present_flag: timing.hrds.cprms_present_flag,
        hrd_parameters: timing.hrds.hrd_parameters,
        extension_flag,
    }
}

/// A set whose table can be written in full has at most seven sub-layers.
pub proof fn lemma_vps_sub_layers(v: Vps)
    requires
        vps_syntax(v).fits(),
    ensures
        v.max_sub_layers_minus1 <= 6,
{
    reveal(vps_syntax);
    reveal(ptl_syntax);
}

/// `video_parameter_set_rbsp()` (7.3.2.1), without the trailing bits.
pub(crate) fn parse_vps(r: &mut BitReader) -> (p: Vps)
    requires
        old(r).inv(),
    ensures
        final(r).inv(),
        decodes(old(r)@, vps_syntax(p), final(r)@),
        final(r)@ is Some ==> p.inferred() && vps_settled(p),
        forall|v: Vps, rest: Seq<bool>|
            old(r)@ == Some(#[trigger] vps_syntax(v).onto(rest)) && vps_syntax(v).fits()
                && v.inferred()
                ==> final(r)@ == Some(
                rest,
            ) && vps_same(p, v),
{
    proof {
        assert forall|v: Vps| #[trigger] vps_syntax(v).fits() implies v.max_sub_layers_minus1 <= 6
            by {
            lemma_vps_sub_layers(v);
        }
        reveal(vps_syntax);
        reveal(VpsHead::of);
        reveal(VpsHead::same);
        reveal(VpsTiming::of);
        reveal(VpsTiming::same);
    }
    let head = parse_vps_head(r);
    let profile_tier_level: ProfileTierLevel = parse_profile_tier_level(
        r,
        true,
        head.max_sub_layers_minus1,
    );
    let layers = parse_vps_layers(r, head.max_sub_layers_minus1);
    let timing = parse_vps_timing(r, head.max_sub_layers_minus1);
    let extension_flag: bool = r.flag();
    let p = assemble_vps(head, profile_tier_level, layers, timing, extension_flag);
    proof {
        if r@ is Some && p.timing_info_present_flag {
            let n = p.max_sub_layers_minus1 as int;
            assert(timing.hrds.valid(p.num_hrd_parameters as int, n));
            assert forall|i: int| 0 <= i < p.num_hrd_parameters
                implies (#[trigger] p.hrd_parameters[i]).inferred(n) by {
                assert(timing.hrds.hrd_parameters@[i].inferred(n));
            }
            assert forall|i: int| 0 < i < p.num_hrd_parameters && !p.cprms_present_flag[i] implies (
            #[trigger] p.hrd_parameters[i]).same_common(p.hrd_parameters[i - 1]) by {
                assert(timing.hrds.hrd_parameters@[i].same_common(timing.hrds.hrd_parameters@[i - 1]));
            }
        }
    }
    p
}

} // verus!
