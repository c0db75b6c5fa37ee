//! The reader of `seq_parameter_set_rbsp()`.

use crate::bits::{lemma_pow2_monotone, lemma_pow2_pos, lemma_pow2_values, pow2};
use crate::codec::bit_reader::BitReader;
use crate::codec::h265::parser::common::{
    agree, agree_from, decodes, outside_is, parse_u_max, tail_is, MAX_UE,
};
use crate::codec::h265::parser::ptl::{
    lemma_ptl_equal, parse_profile_tier_level, ptl_same, ptl_settled,
};
use crate::codec::h265::parser::rps::{lemma_rps_equal, parse_st_ref_pic_set, rps_same, rps_settled};
use crate::codec::h265::parser::scaling::{
    lemma_scaling_equal, parse_scaling_list_data, scaling_lists_same, scaling_settled,
};
use crate::codec::h265::parser::vui::{lemma_vui_equal, parse_vui, vui_blank, vui_same, vui_settled};
use crate::codec::h265::tables::{
    ptl_syntax, sps_blocks_syntax, sps_extension_syntax, sps_format_syntax, sps_head_syntax,
    sps_long_term_syntax, sps_lt_from, sps_ordering_from, sps_ordering_syntax,
    sps_range_extension_syntax, sps_scaling_syntax, sps_short_term_syntax, sps_st_rps_from,
    sps_syntax, sps_tail_syntax, sps_tools_syntax, sps_vui_syntax, st_ref_pic_set_syntax,
};
use crate::codec::h265::types::{
    ProfileTierLevel, ScalingLists, ShortTermRefPicSet, Sps, SpsRangeExtension, SpsSccExtension,
    Vps, VuiParams,
};
use crate::syntax::{group_onto, group_read};
use std::rc::Rc;
use vstd::prelude::*;

verus! {

broadcast use {group_onto, group_read};

/// What stands in front of the profile.
pub struct SpsHead {
    pub video_parameter_set_id: u8,
    pub max_sub_layers_minus1: u8,
    pub temporal_id_nesting_flag: bool,
}

impl SpsHead {
    /// The fields of `s`.
    #[verifier::opaque]
    pub open spec fn of(s: Sps) -> Self {
        SpsHead {
            video_parameter_set_id: s.video_parameter_set_id,
            max_sub_layers_minus1: s.max_sub_layers_minus1,
            temporal_id_nesting_flag: s.temporal_id_nesting_flag,
        }
    }

    /// Whether `s` holds these fields.
    pub open spec fn fills(self, s: Sps) -> bool {
        Self::of(s) == self
    }

    /// Whether the fields that are coded of `v` are these.
    #[verifier::opaque]
    pub open spec fn same(self, v: Sps) -> bool {
        &&& self.video_parameter_set_id == v.video_parameter_set_id
        &&& self.max_sub_layers_minus1 == v.max_sub_layers_minus1
        &&& self.temporal_id_nesting_flag == v.temporal_id_nesting_flag
    }
}

/// What stands in front of the profile.
pub(crate) fn parse_sps_head(r: &mut BitReader) -> (f: SpsHead)
    requires
        old(r).inv(),
    ensures
        final(r).inv(),
        final(r)@ is Some ==> old(r)@ is Some,
        forall|s: Sps| f.fills(s) ==> decodes(old(r)@, #[trigger] sps_head_syntax(s), final(r)@),
        forall|v: Sps, rest: Seq<bool>|
            old(r)@ == Some(#[trigger] sps_head_syntax(v).onto(rest)) && sps_head_syntax(v).fits()
                && v.max_sub_layers_minus1 <= 6
                ==> final(r)@ == Some(
                rest,
            ) && f.same(v),
        f.max_sub_layers_minus1 <= 6,
{
    proof {
        lemma_pow2_values();
        reveal(sps_head_syntax);
        reveal(SpsHead::of);
        reveal(SpsHead::same);
    }
    let video_parameter_set_id: u8 = r.u(4) as u8;
    let max_sub_layers_minus1: u8 = parse_u_max(r, 3, 6) as u8;
    let temporal_id_nesting_flag: bool = r.flag();
    SpsHead {
        video_parameter_set_id,
        max_sub_layers_minus1,
        temporal_id_nesting_flag,
    }
}

/// The picture format.
pub struct SpsFormat {
    pub seq_parameter_set_id: u8,
    pub chroma_format_idc: u8,
    pub separate_colour_plane_flag: bool,
    pub pic_width_in_luma_samples: u16,
    pub pic_height_in_luma_samples: u16,
    pub conformance_window_flag: bool,
    pub conf_win_left_offset: u32,
    pub conf_win_right_offset: u32,
    pub conf_win_top_offset: u32,
    pub conf_win_bottom_offset: u32,
    pub bit_depth_luma_minus8: u8,
    pub bit_depth_chroma_minus8: u8,
    pub log2_max_pic_order_cnt_lsb_minus4: u8,
}

impl SpsFormat {
    /// The fields of `s`.
    #[verifier::opaque]
    pub open spec fn of(s: Sps) -> Self {
        SpsFormat {
            seq_parameter_set_id: s.seq_parameter_set_id,
            chroma_format_idc: s.chroma_format_idc,
            separate_colour_plane_flag: s.separate_colour_plane_flag,
            pic_width_in_luma_samples: s.pic_width_in_luma_samples,
            pic_height_in_luma_samples: s.pic_height_in_luma_samples,
            conformance_window_flag: s.conformance_window_flag,
            conf_win_left_offset: s.conf_win_left_offset,
            conf_win_right_offset: s.conf_win_right_offset,
            conf_win_top_offset: s.conf_win_top_offset,
            conf_win_bottom_offset: s.conf_win_bottom_offset,
            bit_depth_luma_minus8: s.bit_depth_luma_minus8,
            bit_depth_chroma_minus8: s.bit_depth_chroma_minus8,
            log2_max_pic_order_cnt_lsb_minus4: s.log2_max_pic_order_cnt_lsb_minus4,
        }
    }

    /// Whether `s` holds these fields.
    pub open spec fn fills(self, s: Sps) -> bool {
        Self::of(s) == self
    }

    /// Whether what is not coded has its inferred or initial value.
    #[verifier::opaque]
    pub open spec fn settled(self) -> bool {
        &&& !(self.chroma_format_idc == 3) ==> !self.separate_colour_plane_flag
        &&& !self.conformance_window_flag ==> {
            &&& self.conf_win_left_offset == 0
            &&& self.conf_win_right_offset == 0
            &&& self.conf_win_top_offset == 0
            &&& self.conf_win_bottom_offset == 0
        }
    }

    /// Whether the fields that are coded of `v` are these.
    #[verifier::opaque]
    pub open spec fn same(self, v: Sps) -> bool {
        &&& self.seq_parameter_set_id == v.seq_parameter_set_id
        &&& self.chroma_format_idc == v.chroma_format_idc
        &&& v.chroma_format_idc == 3
            ==> self.separate_colour_plane_flag == v.separate_colour_plane_flag
        &&& self.pic_width_in_luma_samples == v.pic_width_in_luma_samples
        &&& self.pic_height_in_luma_samples == v.pic_height_in_luma_samples
        &&& self.conformance_window_flag == v.conformance_window_flag
        &&& v.conformance_window_flag ==> self.conf_win_left_offset == v.conf_win_left_offset
        &&& v.conformance_window_flag ==> self.conf_win_right_offset == v.conf_win_right_offset
        &&& v.conformance_window_flag ==> self.conf_win_top_offset == v.conf_win_top_offset
        &&& v.conformance_window_flag ==> self.conf_win_bottom_offset == v.conf_win_bottom_offset
        &&& self.bit_depth_luma_minus8 == v.bit_depth_luma_minus8
        &&& self.bit_depth_chroma_minus8 == v.bit_depth_chroma_minus8
        &&& self.log2_max_pic_order_cnt_lsb_minus4 == v.log2_max_pic_order_cnt_lsb_minus4
    }
}

/// The picture format.
#[verifier::rlimit(40)]
pub(crate) fn parse_sps_format(r: &mut BitReader) -> (f: SpsFormat)
    requires
        old(r).inv(),
    ensures
        final(r).inv(),
        final(r)@ is Some ==> old(r)@ is Some,
        forall|s: Sps| f.fills(s) ==> decodes(old(r)@, #[trigger] sps_format_syntax(s), final(r)@),
        forall|v: Sps, rest: Seq<bool>|
            old(r)@ == Some(#[trigger] sps_format_syntax(v).onto(rest))
                && sps_format_syntax(v).fits()
                ==> final(r)@ == Some(
                rest,
            ) && f.same(v),
        f.settled(),
{
    proof {
        reveal(sps_format_syntax);
        reveal(SpsFormat::settled);
        reveal(SpsFormat::of);
        reveal(SpsFormat::same);
    }
    let seq_parameter_set_id: u8 = r.ue(0xff) as u8;
    let chroma_format_idc: u8 = r.ue(0xff) as u8;
    let mut separate_colour_plane_flag: bool = false;
    if chroma_format_idc == 3 {
        separate_colour_plane_flag = r.flag();
    }
    let pic_width_in_luma_samples: u16 = r.ue(0xffff) as u16;
    let pic_height_in_luma_samples: u16 = r.ue(0xffff) as u16;
    let conformance_window_flag: bool = r.flag();
    let mut conf_win_left_offset: u32 = 0;
    let mut conf_win_right_offset: u32 = 0;
    let mut conf_win_top_offset: u32 = 0;
    let mut conf_win_bottom_offset: u32 = 0;
    if conformance_window_flag {
        conf_win_left_offset = r.ue(MAX_UE);
        conf_win_right_offset = r.ue(MAX_UE);
        conf_win_top_offset = r.ue(MAX_UE);
        conf_win_bottom_offset = r.ue(MAX_UE);
    }
    let bit_depth_luma_minus8: u8 = r.ue(0xff) as u8;
    let bit_depth_chroma_minus8: u8 = r.ue(0xff) as u8;
    let log2_max_pic_order_cnt_lsb_minus4: u8 = r.ue(0xff) as u8;
    SpsFormat {
        seq_parameter_set_id,
        chroma_format_idc,
        separate_colour_plane_flag,
        pic_width_in_luma_samples,
        pic_height_in_luma_samples,
        conformance_window_flag,
        conf_win_left_offset,
        conf_win_right_offset,
        conf_win_top_offset,
        conf_win_bottom_offset,
        bit_depth_luma_minus8,
        bit_depth_chroma_minus8,
        log2_max_pic_order_cnt_lsb_minus4,
    }
}

/// The sub-layer ordering information of each sub-layer.
fn parse_sps_ordering(r: &mut BitReader, first: usize, n: usize) -> (a: ([u8; 7], [u8; 7], [u8; 7]))
    requires
        old(r).inv(),
        first <= n <= 7,
    ensures
        final(r).inv(),
        final(r)@ is Some ==> old(r)@ is Some,
        forall|s: Sps|
            (agree_from(a.0@, s.max_dec_pic_buffering_minus1@, first as int, n as int)
                && agree_from(a.1@, s.max_num_reorder_pics@, first as int, n as int)
                && agree_from(a.2@, s.max_latency_increase_plus1@, first as int, n as int))
                ==> decodes(
                    old(r)@,
                    #[trigger] sps_ordering_from(s, first as int, n as int),
                    final(r)@,
                ),
        forall|v: Sps, rest: Seq<bool>|
            old(r)@ == Some(#[trigger] sps_ordering_from(v, first as int, n as int).onto(rest))
                && sps_ordering_from(v, first as int, n as int).fits()
                ==> final(r)@ == Some(rest)
                    && (agree_from(a.0@, v.max_dec_pic_buffering_minus1@, first as int, n as int)
                        && agree_from(a.1@, v.max_num_reorder_pics@, first as int, n as int)
                        && agree_from(a.2@, v.max_latency_increase_plus1@, first as int, n as int)),
        outside_is(a.0@, first as int, n as int, 0u8),
        outside_is(a.1@, first as int, n as int, 0u8),
        outside_is(a.2@, first as int, n as int, 0u8),
{
    let mut max_dec_pic_buffering_minus1: [u8; 7] = [0; 7];
    let mut max_num_reorder_pics: [u8; 7] = [0; 7];
    let mut max_latency_increase_plus1: [u8; 7] = [0; 7];
    let mut i: usize = first;
    while i < n
        invariant
            first <= i <= n <= 7,
            outside_is(max_dec_pic_buffering_minus1@, first as int, i as int, 0u8),
            outside_is(max_num_reorder_pics@, first as int, i as int, 0u8),
            outside_is(max_latency_increase_plus1@, first as int, i as int, 0u8),
            r.inv(),
            r@ is Some ==> old(r)@ is Some,
            forall|s: Sps, rest: Seq<bool>|
                (agree_from(
                    max_dec_pic_buffering_minus1@,
                    s.max_dec_pic_buffering_minus1@,
                    first as int,
                    i as int,
                )
                    && agree_from(
                        max_num_reorder_pics@,
                        s.max_num_reorder_pics@,
                        first as int,
                        i as int,
                    )
                    && agree_from(
                        max_latency_increase_plus1@,
                        s.max_latency_increase_plus1@,
                        first as int,
                        i as int,
                    ))
                    && r@ == Some(sps_ordering_from(s, i as int, n as int).onto(rest))
                    ==> old(r)@
                    == Some(#[trigger] sps_ordering_from(s, first as int, n as int).onto(rest)),
            forall|s: Sps|
                (agree_from(
                    max_dec_pic_buffering_minus1@,
                    s.max_dec_pic_buffering_minus1@,
                    first as int,
                    i as int,
                )
                    && agree_from(
                        max_num_reorder_pics@,
                        s.max_num_reorder_pics@,
                        first as int,
                        i as int,
                    )
                    && agree_from(
                        max_latency_increase_plus1@,
                        s.max_latency_increase_plus1@,
                        first as int,
                        i as int,
                    ))
                    && r@ is Some && sps_ordering_from(s, i as int, n as int).fits()
                    ==> #[trigger] sps_ordering_from(s, first as int, n as int).fits(),
            forall|v: Sps, rest: Seq<bool>|
                old(r)@ == Some(#[trigger] sps_ordering_from(v, first as int, n as int).onto(rest))
                    && sps_ordering_from(v, first as int, n as int).fits()
                    ==> r@ == Some(sps_ordering_from(v, i as int, n as int).onto(rest))
                        && sps_ordering_from(v, i as int, n as int).fits()
                        && (agree_from(
                            max_dec_pic_buffering_minus1@,
                            v.max_dec_pic_buffering_minus1@,
                            first as int,
                            i as int,
                        )
                            && agree_from(
                                max_num_reorder_pics@,
                                v.max_num_reorder_pics@,
                                first as int,
                                i as int,
                            )
                            && agree_from(
                                max_latency_increase_plus1@,
                                v.max_latency_increase_plus1@,
                                first as int,
                                i as int,
                            )),
        decreases n - i,
    {
        max_dec_pic_buffering_minus1[i] = r.ue(0xff) as u8;
        max_num_reorder_pics[i] = r.ue(0xff) as u8;
        max_latency_increase_plus1[i] = r.ue(0xff) as u8;
        i = i + 1;
    }
    (max_dec_pic_buffering_minus1, max_num_reorder_pics, max_latency_increase_plus1)
}

/// The sub-layer ordering information.
pub struct SpsOrdering {
    pub sub_layer_ordering_info_present_flag: bool,
    pub max_dec_pic_buffering_minus1: [u8; 7],
    pub max_num_reorder_pics: [u8; 7],
    pub max_latency_increase_plus1: [u8; 7],
}

impl SpsOrdering {
    /// The fields of `s`.
    #[verifier::opaque]
    pub open spec fn of(s: Sps) -> Self {
        SpsOrdering {
            sub_layer_ordering_info_present_flag: s.sub_layer_ordering_info_present_flag,
            max_dec_pic_buffering_minus1: s.max_dec_pic_buffering_minus1,
            max_num_reorder_pics: s.max_num_reorder_pics,
            max_latency_increase_plus1: s.max_latency_increase_plus1,
        }
    }

    /// Whether `s` holds these fields.
    pub open spec fn fills(self, s: Sps) -> bool {
        Self::of(s) == self
    }

    /// Whether what is not coded has its initial value.
    #[verifier::opaque]
    pub open spec fn settled(self, max_sub_layers_minus1: u8) -> bool {
        let first = if self.sub_layer_ordering_info_present_flag {
            0
        } else {
            max_sub_layers_minus1 as int
        };
        let n = max_sub_layers_minus1 + 1;
        &&& outside_is(self.max_dec_pic_buffering_minus1@, first, n, 0u8)
        &&& outside_is(self.max_num_reorder_pics@, first, n, 0u8)
        &&& outside_is(self.max_latency_increase_plus1@, first, n, 0u8)
    }

    /// Whether the fields that are coded of `v` are these.
    #[verifier::opaque]
    pub open spec fn same(self, v: Sps, max_sub_layers_minus1: u8) -> bool {
        &&& self.sub_layer_ordering_info_present_flag == v.sub_layer_ordering_info_present_flag
        &&& agree_from(
            self.max_dec_pic_buffering_minus1@,
            v.max_dec_pic_buffering_minus1@,
            (if v.sub_layer_ordering_info_present_flag { 0 } else { max_sub_layers_minus1 as int }),
            max_sub_layers_minus1 + 1,
        )
        &&& agree_from(
            self.max_num_reorder_pics@,
            v.max_num_reorder_pics@,
            (if v.sub_layer_ordering_info_present_flag { 0 } else { max_sub_layers_minus1 as int }),
            max_sub_layers_minus1 + 1,
        )
        &&& agree_from(
            self.max_latency_increase_plus1@,
            v.max_latency_increase_plus1@,
            (if v.sub_layer_ordering_info_present_flag { 0 } else { max_sub_layers_minus1 as int }),
            max_sub_layers_minus1 + 1,
        )
    }
}

/// The sub-layer ordering information.
pub(crate) fn parse_sps_ordering_info(
    r: &mut BitReader,
    max_sub_layers_minus1: u8,
) -> (f: SpsOrdering)
    requires
        old(r).inv(),
        max_sub_layers_minus1 <= 6,
    ensures
        final(r).inv(),
        final(r)@ is Some ==> old(r)@ is Some,
        forall|s: Sps| s.max_sub_layers_minus1 == max_sub_layers_minus1 && f.fills(s)
            ==> decodes(old(r)@, #[trigger] sps_ordering_syntax(s), final(r)@),
        forall|v: Sps, rest: Seq<bool>|
            v.max_sub_layers_minus1 == max_sub_layers_minus1
                && old(r)@ == Some(#[trigger] sps_ordering_syntax(v).onto(rest))
                && sps_ordering_syntax(v).fits()
                ==> final(r)@ == Some(
                rest,
            ) && f.same(v, max_sub_layers_minus1),
        f.settled(max_sub_layers_minus1),
{
    proof {
        reveal(sps_ordering_syntax);
        reveal(SpsOrdering::settled);
        reveal(SpsOrdering::of);
        reveal(SpsOrdering::same);
    }
    let sub_layer_ordering_info_present_flag: bool = r.flag();
    let first: usize = if sub_layer_ordering_info_present_flag {
        0
    } else {
        max_sub_layers_minus1 as usize
    };
    let ordering = parse_sps_ordering(r, first, max_sub_layers_minus1 as usize + 1);
    let max_dec_pic_buffering_minus1: [u8; 7] = ordering.0;
    let max_num_reorder_pics: [u8; 7] = ordering.1;
    let max_latency_increase_plus1: [u8; 7] = ordering.2;
    SpsOrdering {
        sub_layer_ordering_info_present_flag,
        max_dec_pic_buffering_minus1,
        max_num_reorder_pics,
        max_latency_increase_plus1,
    }
}

/// The block sizes.
pub struct SpsBlocks {
    pub log2_min_luma_coding_block_size_minus3: u8,
    pub log2_diff_max_min_luma_coding_block_size: u8,
    pub log2_min_luma_transform_block_size_minus2: u8,
    pub log2_diff_max_min_luma_transform_block_size: u8,
    pub max_transform_hierarchy_depth_inter: u8,
    pub max_transform_hierarchy_depth_intra: u8,
}

impl SpsBlocks {
    /// The fields of `s`.
    #[verifier::opaque]
    pub open spec fn of(s: Sps) -> Self {
        SpsBlocks {
            log2_min_luma_coding_block_size_minus3: s.log2_min_luma_coding_block_size_minus3,
            log2_diff_max_min_luma_coding_block_size: s.log2_diff_max_min_luma_coding_block_size,
            log2_min_luma_transform_block_size_minus2: s.log2_min_luma_transform_block_size_minus2,
            log2_diff_max_min_luma_transform_block_size: s.log2_diff_max_min_luma_transform_block_size,
            max_transform_hierarchy_depth_inter: s.max_transform_hierarchy_depth_inter,
            max_transform_hierarchy_depth_intra: s.max_transform_hierarchy_depth_intra,
        }
    }

    /// Whether `s` holds these fields.
    pub open spec fn fills(self, s: Sps) -> bool {
        Self::of(s) == self
    }

    /// Whether the fields that are coded of `v` are these.
    #[verifier::opaque]
    pub open spec fn same(self, v: Sps) -> bool {
        &&& self.log2_min_luma_coding_block_size_minus3 == v.log2_min_luma_coding_block_size_minus3
        &&& self.log2_diff_max_min_luma_coding_block_size == v.log2_diff_max_min_luma_coding_block_size
        &&& self.log2_min_luma_transform_block_size_minus2 == v.log2_min_luma_transform_block_size_minus2
        &&& self.log2_diff_max_min_luma_transform_block_size == v.log2_diff_max_min_luma_transform_block_size
        &&& self.max_transform_hierarchy_depth_inter == v.max_transform_hierarchy_depth_inter
        &&& self.max_transform_hierarchy_depth_intra == v.max_transform_hierarchy_depth_intra
    }
}

/// The block sizes.
pub(crate) fn parse_sps_blocks(r: &mut BitReader) -> (f: SpsBlocks)
    requires
        old(r).inv(),
    ensures
        final(r).inv(),
        final(r)@ is Some ==> old(r)@ is Some,
        forall|s: Sps| f.fills(s) ==> decodes(old(r)@, #[trigger] sps_blocks_syntax(s), final(r)@),
        forall|v: Sps, rest: Seq<bool>|
            old(r)@ == Some(#[trigger] sps_blocks_syntax(v).onto(rest))
                && sps_blocks_syntax(v).fits() && v.ctb_log2() <= 31
                ==> final(r)@ == Some(
                rest,
            ) && f.same(v),
        final(r)@ is Some
            ==> f.log2_min_luma_coding_block_size_minus3 + f.log2_diff_max_min_luma_coding_block_size <= 28,
{
    proof {
        reveal(sps_blocks_syntax);
        reveal(SpsBlocks::of);
        reveal(SpsBlocks::same);
    }
    let log2_min_luma_coding_block_size_minus3: u8 = r.ue(0xff) as u8;
    let log2_diff_max_min_luma_coding_block_size: u8 = r.ue(0xff) as u8;
    r.require(
        log2_min_luma_coding_block_size_minus3 as u32
            + log2_diff_max_min_luma_coding_block_size as u32 <= 28,
    );
    let log2_min_luma_transform_block_size_minus2: u8 = r.ue(0xff) as u8;
    let log2_diff_max_min_luma_transform_block_size: u8 = r.ue(0xff) as u8;
    let max_transform_hierarchy_depth_inter: u8 = r.ue(0xff) as u8;
    let max_transform_hierarchy_depth_intra: u8 = r.ue(0xff) as u8;
    SpsBlocks {
        log2_min_luma_coding_block_size_minus3,
        log2_diff_max_min_luma_coding_block_size,
        log2_min_luma_transform_block_size_minus2,
        log2_diff_max_min_luma_transform_block_size,
        max_transform_hierarchy_depth_inter,
        max_transform_hierarchy_depth_intra,
    }
}

/// The scaling lists.
pub struct SpsScaling {
    pub scaling_list_enabled_flag: bool,
    pub scaling_list_data_present_flag: bool,
    pub scaling_list: ScalingLists,
}

impl SpsScaling {
    /// The fields of `s`.
    #[verifier::opaque]
    pub open spec fn of(s: Sps) -> Self {
        SpsScaling {
            scaling_list_enabled_flag: s.scaling_list_enabled_flag,
            scaling_list_data_present_flag: s.scaling_list_data_present_flag,
            scaling_list: s.scaling_list,
        }
    }

    /// Whether `s` holds these fields.
    pub open spec fn fills(self, s: Sps) -> bool {
        Self::of(s) == self
    }

    /// Whether what is not coded has its inferred or initial value.
    #[verifier::opaque]
    pub open spec fn settled(self) -> bool {
        &&& !self.scaling_list_enabled_flag ==> !self.scaling_list_data_present_flag
        &&& if self.scaling_list_data_present_flag {
            scaling_settled(self.scaling_list)
        } else {
            self.scaling_list == ScalingLists::initial()
        }
    }

    /// Whether the fields that are coded of `v` are these.
    #[verifier::opaque]
    pub open spec fn same(self, v: Sps) -> bool {
        &&& self.scaling_list_enabled_flag == v.scaling_list_enabled_flag
        &&& v.scaling_list_enabled_flag
            ==> self.scaling_list_data_present_flag == v.scaling_list_data_present_flag
        &&& v.scaling_list_enabled_flag && v.scaling_list_data_present_flag
            ==> scaling_lists_same(self.scaling_list, v.scaling_list)
    }
}

/// The scaling lists.
pub(crate) fn parse_sps_scaling(r: &mut BitReader) -> (f: SpsScaling)
    requires
        old(r).inv(),
    ensures
        final(r).inv(),
        final(r)@ is Some ==> old(r)@ is Some,
        forall|s: Sps| f.fills(s) ==> decodes(old(r)@, #[trigger] sps_scaling_syntax(s), final(r)@),
        forall|v: Sps, rest: Seq<bool>|
            old(r)@ == Some(#[trigger] sps_scaling_syntax(v).onto(rest))
                && sps_scaling_syntax(v).fits()
                ==> final(r)@ == Some(
                rest,
            ) && f.same(v),
        f.settled(),
{
    proof {
        reveal(sps_scaling_syntax);
        reveal(SpsScaling::settled);
        reveal(SpsScaling::of);
        reveal(SpsScaling::same);
    }
    let scaling_list_enabled_flag: bool = r.flag();
    let mut scaling_list_data_present_flag: bool = false;
    let mut scaling_list: ScalingLists = ScalingLists::default();
    if scaling_list_enabled_flag {
        scaling_list_data_present_flag = r.flag();
        if scaling_list_data_present_flag {
            scaling_list = parse_scaling_list_data(r);
        }
    }
    SpsScaling {
        scaling_list_enabled_flag,
        scaling_list_data_present_flag,
        scaling_list,
    }
}

/// The coding tools.
pub struct SpsTools {
    pub amp_enabled_flag: bool,
    pub sample_adaptive_offset_enabled_flag: bool,
    pub pcm_enabled_flag: bool,
    pub pcm_sample_bit_depth_luma_minus1: u8,
    pub pcm_sample_bit_depth_chroma_minus1: u8,
    pub log2_min_pcm_luma_coding_block_size_minus3: u8,
    pub log2_diff_max_min_pcm_luma_coding_block_size: u8,
    pub pcm_loop_filter_disabled_flag: bool,
}

impl SpsTools {
    /// The fields of `s`.
    #[verifier::opaque]
    pub open spec fn of(s: Sps) -> Self {
        SpsTools {
            amp_enabled_flag: s.amp_enabled_flag,
            sample_adaptive_offset_enabled_flag: s.sample_adaptive_offset_enabled_flag,
            pcm_enabled_flag: s.pcm_enabled_flag,
            pcm_sample_bit_depth_luma_minus1: s.pcm_sample_bit_depth_luma_minus1,
            pcm_sample_bit_depth_chroma_minus1: s.pcm_sample_bit_depth_chroma_minus1,
            log2_min_pcm_luma_coding_block_size_minus3: s.log2_min_pcm_luma_coding_block_size_minus3,
            log2_diff_max_min_pcm_luma_coding_block_size: s.log2_diff_max_min_pcm_luma_coding_block_size,
            pcm_loop_filter_disabled_flag: s.pcm_loop_filter_disabled_flag,
        }
    }

    /// Whether `s` holds these fields.
    pub open spec fn fills(self, s: Sps) -> bool {
        Self::of(s) == self
    }

    /// Whether what is not coded has its inferred or initial value.
    #[verifier::opaque]
    pub open spec fn settled(self) -> bool {
        &&& !self.pcm_enabled_flag ==> {
            &&& self.pcm_sample_bit_depth_luma_minus1 == 0
            &&& self.pcm_sample_bit_depth_chroma_minus1 == 0
            &&& self.log2_min_pcm_luma_coding_block_size_minus3 == 0
            &&& self.log2_diff_max_min_pcm_luma_coding_block_size == 0
            &&& !self.pcm_loop_filter_disabled_flag
        }
    }

    /// Whether the fields that are coded of `v` are these.
    #[verifier::opaque]
    pub open spec fn same(self, v: Sps) -> bool {
        &&& self.amp_enabled_flag == v.amp_enabled_flag
        &&& self.sample_adaptive_offset_enabled_flag == v.sample_adaptive_offset_enabled_flag
        &&& self.pcm_enabled_flag == v.pcm_enabled_flag
        &&& v.pcm_enabled_flag
            ==> self.pcm_sample_bit_depth_luma_minus1 == v.pcm_sample_bit_depth_luma_minus1
        &&& v.pcm_enabled_flag
            ==> self.pcm_sample_bit_depth_chroma_minus1 == v.pcm_sample_bit_depth_chroma_minus1
        &&& v.pcm_enabled_flag
            ==> self.log2_min_pcm_luma_coding_block_size_minus3 == v.log2_min_pcm_luma_coding_block_size_minus3
        &&& v.pcm_enabled_flag
            ==> self.log2_diff_max_min_pcm_luma_coding_block_size == v.log2_diff_max_min_pcm_luma_coding_block_size
        &&& v.pcm_enabled_flag
            ==> self.pcm_loop_filter_disabled_flag == v.pcm_loop_filter_disabled_flag
    }
}

/// The coding tools.
pub(crate) fn parse_sps_tools(r: &mut BitReader) -> (f: SpsTools)
    requires
        old(r).inv(),
    ensures
        final(r).inv(),
        final(r)@ is Some ==> old(r)@ is Some,
        forall|s: Sps| f.fills(s) ==> decodes(old(r)@, #[trigger] sps_tools_syntax(s), final(r)@),
        forall|v: Sps, rest: Seq<bool>|
            old(r)@ == Some(#[trigger] sps_tools_syntax(v).onto(rest)) && sps_tools_syntax(v).fits()
                ==> final(r)@ == Some(
                rest,
            ) && f.same(v),
        f.settled(),
{
    proof {
        lemma_pow2_values();
        reveal(sps_tools_syntax);
        reveal(SpsTools::settled);
        reveal(SpsTools::of);
        reveal(SpsTools::same);
    }
    let amp_enabled_flag: bool = r.flag();
    let sample_adaptive_offset_enabled_flag: bool = r.flag();
    let pcm_enabled_flag: bool = r.flag();
    let mut pcm_sample_bit_depth_luma_minus1: u8 = 0;
    let mut pcm_sample_bit_depth_chroma_minus1: u8 = 0;
    let mut log2_min_pcm_luma_coding_block_size_minus3: u8 = 0;
    let mut log2_diff_max_min_pcm_luma_coding_block_size: u8 = 0;
    let mut pcm_loop_filter_disabled_flag: bool = false;
    if pcm_enabled_flag {
        pcm_sample_bit_depth_luma_minus1 = r.u(4) as u8;
        pcm_sample_bit_depth_chroma_minus1 = r.u(4) as u8;
        log2_min_pcm_luma_coding_block_size_minus3 = r.ue(0xff) as u8;
        log2_diff_max_min_pcm_luma_coding_block_size = r.ue(0xff) as u8;
        pcm_loop_filter_disabled_flag = r.flag();
    }
    SpsTools {
        amp_enabled_flag,
        sample_adaptive_offset_enabled_flag,
        pcm_enabled_flag,
        pcm_sample_bit_depth_luma_minus1,
        pcm_sample_bit_depth_chroma_minus1,
        log2_min_pcm_luma_coding_block_size_minus3,
        log2_diff_max_min_pcm_luma_coding_block_size,
        pcm_loop_filter_disabled_flag,
    }
}

/// Whether the first `n` sets of `v` are valid.
pub open spec fn rps_seq_valid(v: Sps, n: int) -> bool {
    forall|i: int| 0 <= i < n ==> (#[trigger] v.short_term_ref_pic_set[i]).valid()
}

/// Whether what is coded of the first `n` sets of `v` is in these.
pub open spec fn rps_seq_same(a: Seq<ShortTermRefPicSet>, v: Sps, n: int) -> bool {
    forall|k: int|
        #![trigger a[k]]
        #![trigger v.short_term_ref_pic_set[k]]
        0 <= k < n ==> rps_same(a[k], v.short_term_ref_pic_set[k])
}

/// The sets.
fn parse_short_term_sets(r: &mut BitReader, n: u8) -> (a: Vec<ShortTermRefPicSet>)
    requires
        old(r).inv(),
    ensures
        final(r).inv(),
        a@.len() == n,
        forall|k: int| 0 <= k < n ==> rps_settled(#[trigger] a@[k]),
        forall|k: int|
            0 <= k < n
                ==> !(#[trigger] a@[k]).inter_ref_pic_set_prediction_flag && (final(r)@ is Some
                ==> a@[k].valid()),
        final(r)@ is Some ==> old(r)@ is Some,
        forall|s: Sps|
            n <= s.short_term_ref_pic_set@.len() && agree(a@, s.short_term_ref_pic_set@, n as int)
                ==> decodes(old(r)@, #[trigger] sps_st_rps_from(s, 0, n as int), final(r)@),
        forall|v: Sps, rest: Seq<bool>|
            old(r)@ == Some(#[trigger] sps_st_rps_from(v, 0, n as int).onto(rest))
                && sps_st_rps_from(v, 0, n as int).fits() && rps_seq_valid(v, n as int)
                ==> final(r)@ == Some(rest) && rps_seq_same(a@, v, n as int),
{
    let mut a: Vec<ShortTermRefPicSet> = Vec::new();
    let mut i: u8 = 0;
    while i < n
        invariant
            i <= n,
            a@.len() == i,
            forall|k: int| 0 <= k < i ==> rps_settled(#[trigger] a@[k]),
            r.inv(),
            forall|k: int|
                0 <= k < i ==> !(#[trigger] a@[k]).inter_ref_pic_set_prediction_flag && (r@ is Some
                    ==> a@[k].valid()),
            r@ is Some ==> old(r)@ is Some,
            forall|s: Sps, rest: Seq<bool>|
                n <= s.short_term_ref_pic_set@.len()
                    && agree(a@, s.short_term_ref_pic_set@, i as int)
                    && r@ == Some(sps_st_rps_from(s, i as int, n as int).onto(rest))
                    ==> old(r)@
                    == Some(#[trigger] sps_st_rps_from(s, 0, n as int).onto(rest)),
            forall|s: Sps|
                n <= s.short_term_ref_pic_set@.len()
                    && agree(a@, s.short_term_ref_pic_set@, i as int) && r@ is Some
                    && sps_st_rps_from(s, i as int, n as int).fits()
                    ==> #[trigger] sps_st_rps_from(s, 0, n as int).fits(),
            forall|v: Sps, rest: Seq<bool>|
                old(r)@ == Some(#[trigger] sps_st_rps_from(v, 0, n as int).onto(rest))
                    && sps_st_rps_from(v, 0, n as int).fits() && rps_seq_valid(v, n as int)
                    ==> r@ == Some(sps_st_rps_from(v, i as int, n as int).onto(rest))
                        && sps_st_rps_from(v, i as int, n as int).fits()
                        && rps_seq_same(a@, v, i as int),
        decreases n - i,
    {
        let ghost start = r@;
        let ghost before = a@;
        let set = parse_st_ref_pic_set(r, i);
        a.push(set);
        proof {
            assert(r@ is Some ==> start is Some);
            assert forall|s: Sps| n <= s.short_term_ref_pic_set@.len()
                && #[trigger] agree(a@, s.short_term_ref_pic_set@, i + 1)
                implies agree(
                before,
                s.short_term_ref_pic_set@,
                i as int,
            ) && s.short_term_ref_pic_set@[i as int] == set by {
                assert(a@[i as int] == set);
                assert forall|k: int| 0 <= k < i
                    implies before[k] == s.short_term_ref_pic_set@[k] by {
                    assert(a@[k] == before[k]);
                }
            }
            assert forall|s: Sps|
                n <= s.short_term_ref_pic_set@.len()
                    && agree(a@, s.short_term_ref_pic_set@, i + 1) && r@ is Some && sps_st_rps_from(
                    s,
                    i + 1,
                    n as int,
                ).fits() implies #[trigger] sps_st_rps_from(s, 0, n as int).fits() by {
                assert(decodes(start, st_ref_pic_set_syntax(s.short_term_ref_pic_set[i as int], i as int), r@));
                assert(sps_st_rps_from(s, i as int, n as int).fits());
            }
            assert forall|v: Sps, rest: Seq<bool>|
                old(r)@ == Some(#[trigger] sps_st_rps_from(v, 0, n as int).onto(rest))
                    && sps_st_rps_from(
                    v,
                    0,
                    n as int,
                ).fits() && rps_seq_valid(v, n as int) implies r@ == Some(
                sps_st_rps_from(v, i + 1, n as int).onto(rest),
            ) && sps_st_rps_from(v, i + 1, n as int).fits() && rps_seq_same(a@, v, i + 1) by {
                assert(v.short_term_ref_pic_set[i as int].valid());
                assert forall|k: int| 0 <= k < i + 1 implies rps_same(
                    #[trigger] a@[k],
                    v.short_term_ref_pic_set[k],
                ) by {
                    if k < i {
                        assert(a@[k] == before[k]);
                    }
                }
            }
        }
        i = i + 1;
    }
    a
}

/// The short-term reference picture sets.
pub struct SpsShortTerm {
    pub num_short_term_ref_pic_sets: u8,
    pub short_term_ref_pic_set: Vec<ShortTermRefPicSet>,
}

impl SpsShortTerm {
    /// The fields of `s`.
    #[verifier::opaque]
    pub open spec fn of(s: Sps) -> Self {
        SpsShortTerm {
            num_short_term_ref_pic_sets: s.num_short_term_ref_pic_sets,
            short_term_ref_pic_set: s.short_term_ref_pic_set,
        }
    }

    /// Whether `s` holds these fields.
    pub open spec fn fills(self, s: Sps) -> bool {
        Self::of(s) == self
    }

    /// Whether what is not coded has its inferred or initial value.
    #[verifier::opaque]
    pub open spec fn settled(self) -> bool {
        &&& self.short_term_ref_pic_set@.len() == self.num_short_term_ref_pic_sets
        &&& forall|k: int|
            0 <= k < self.num_short_term_ref_pic_sets
                ==> rps_settled(#[trigger] self.short_term_ref_pic_set@[k])
    }

    /// Whether the fields that are coded of `v` are these.
    #[verifier::opaque]
    pub open spec fn same(self, v: Sps) -> bool {
        &&& self.num_short_term_ref_pic_sets == v.num_short_term_ref_pic_sets
        &&& rps_seq_same(self.short_term_ref_pic_set@, v, v.num_short_term_ref_pic_sets as int)
    }
}

/// The short-term reference picture sets.
pub(crate) fn parse_sps_short_term(r: &mut BitReader) -> (f: SpsShortTerm)
    requires
        old(r).inv(),
    ensures
        final(r).inv(),
        final(r)@ is Some ==> old(r)@ is Some,
        forall|s: Sps| f.fills(s)
            ==> decodes(old(r)@, #[trigger] sps_short_term_syntax(s), final(r)@),
        forall|v: Sps, rest: Seq<bool>|
            old(r)@ == Some(#[trigger] sps_short_term_syntax(v).onto(rest))
                && sps_short_term_syntax(v).fits()
                && rps_seq_valid(v, v.num_short_term_ref_pic_sets as int)
                ==> final(r)@ == Some(
                rest,
            ) && f.same(v),
        f.short_term_ref_pic_set@.len() == f.num_short_term_ref_pic_sets,
        forall|k: int|
            0 <= k < f.num_short_term_ref_pic_sets ==> !(
            #[trigger] f.short_term_ref_pic_set@[k]).inter_ref_pic_set_prediction_flag
                && (final(r)@ is Some
                ==> f.short_term_ref_pic_set@[k].valid()),
        f.settled(),
{
    proof {
        reveal(sps_short_term_syntax);
        reveal(SpsShortTerm::settled);
        reveal(SpsShortTerm::of);
        reveal(SpsShortTerm::same);
    }
    let num_short_term_ref_pic_sets: u8 = r.ue(0xff) as u8;
    let short_term_ref_pic_set: Vec<ShortTermRefPicSet> = parse_short_term_sets(
        r,
        num_short_term_ref_pic_sets,
    );
    SpsShortTerm {
        num_short_term_ref_pic_sets,
        short_term_ref_pic_set,
    }
}

/// The long-term reference pictures.
fn parse_long_term_pics(
    r: &mut BitReader,
    log2_lsb_minus4: u8,
    n: usize,
) -> (a: ([u32; 32], [bool; 32]))
    requires
        old(r).inv(),
        n <= 32,
    ensures
        final(r).inv(),
        final(r)@ is Some ==> old(r)@ is Some,
        forall|s: Sps|
            s.log2_max_pic_order_cnt_lsb_minus4 == log2_lsb_minus4
                && agree(a.0@, s.lt_ref_pic_poc_lsb_sps@, n as int)
                && agree(a.1@, s.used_by_curr_pic_lt_sps_flag@, n as int)
                ==> decodes(old(r)@, #[trigger] sps_lt_from(s, 0, n as int), final(r)@),
        forall|v: Sps, rest: Seq<bool>|
            old(r)@ == Some(#[trigger] sps_lt_from(v, 0, n as int).onto(rest))
                && sps_lt_from(v, 0, n as int).fits()
                && v.log2_max_pic_order_cnt_lsb_minus4 == log2_lsb_minus4
                ==> final(r)@ == Some(rest) && agree(a.0@, v.lt_ref_pic_poc_lsb_sps@, n as int)
                    && agree(a.1@, v.used_by_curr_pic_lt_sps_flag@, n as int),
        tail_is(a.0@, n as int, 0u32),
        tail_is(a.1@, n as int, false),
{
    let mut a: ([u32; 32], [bool; 32]) = ([0; 32], [false; 32]);
    let mut i: usize = 0;
    while i < n
        invariant
            i <= n <= 32,
            tail_is(a.0@, i as int, 0u32),
            tail_is(a.1@, i as int, false),
            r.inv(),
            r@ is Some ==> old(r)@ is Some,
            forall|s: Sps, rest: Seq<bool>|
                s.log2_max_pic_order_cnt_lsb_minus4 == log2_lsb_minus4
                    && agree(a.0@, s.lt_ref_pic_poc_lsb_sps@, i as int)
                    && agree(a.1@, s.used_by_curr_pic_lt_sps_flag@, i as int)
                    && r@ == Some(sps_lt_from(s, i as int, n as int).onto(rest))
                    ==> old(r)@
                    == Some(#[trigger] sps_lt_from(s, 0, n as int).onto(rest)),
            forall|s: Sps|
                s.log2_max_pic_order_cnt_lsb_minus4 == log2_lsb_minus4
                    && agree(a.0@, s.lt_ref_pic_poc_lsb_sps@, i as int)
                    && agree(a.1@, s.used_by_curr_pic_lt_sps_flag@, i as int) && r@ is Some
                    && sps_lt_from(s, i as int, n as int).fits()
                    ==> #[trigger] sps_lt_from(s, 0, n as int).fits(),
            forall|v: Sps, rest: Seq<bool>|
                old(r)@ == Some(#[trigger] sps_lt_from(v, 0, n as int).onto(rest))
                    && sps_lt_from(v, 0, n as int).fits()
                    && v.log2_max_pic_order_cnt_lsb_minus4 == log2_lsb_minus4
                    ==> r@ == Some(sps_lt_from(v, i as int, n as int).onto(rest))
                        && sps_lt_from(v, i as int, n as int).fits()
                        && agree(a.0@, v.lt_ref_pic_poc_lsb_sps@, i as int)
                        && agree(a.1@, v.used_by_curr_pic_lt_sps_flag@, i as int),
        decreases n - i,
    {
        let lsb: u32 = r.u(log2_lsb_minus4 as usize + 4);
        let used: bool = r.flag();
        a.0[i] = lsb;
        a.1[i] = used;
        i = i + 1;
    }
    a
}

/// The long-term reference pictures.
pub struct SpsLongTerm {
    pub long_term_ref_pics_present_flag: bool,
    pub num_long_term_ref_pics_sps: u8,
    pub lt_ref_pic_poc_lsb_sps: [u32; 32],
    pub used_by_curr_pic_lt_sps_flag: [bool; 32],
}

impl SpsLongTerm {
    /// The fields of `s`.
    #[verifier::opaque]
    pub open spec fn of(s: Sps) -> Self {
        SpsLongTerm {
            long_term_ref_pics_present_flag: s.long_term_ref_pics_present_flag,
            num_long_term_ref_pics_sps: s.num_long_term_ref_pics_sps,
            lt_ref_pic_poc_lsb_sps: s.lt_ref_pic_poc_lsb_sps,
            used_by_curr_pic_lt_sps_flag: s.used_by_curr_pic_lt_sps_flag,
        }
    }

    /// Whether `s` holds these fields.
    pub open spec fn fills(self, s: Sps) -> bool {
        Self::of(s) == self
    }

    /// Whether what is not coded has its inferred or initial value.
    #[verifier::opaque]
    pub open spec fn settled(self) -> bool {
        &&& !self.long_term_ref_pics_present_flag ==> self.num_long_term_ref_pics_sps == 0
        &&& tail_is(self.lt_ref_pic_poc_lsb_sps@, self.num_long_term_ref_pics_sps as int, 0u32)
        &&& tail_is(
            self.used_by_curr_pic_lt_sps_flag@,
            self.num_long_term_ref_pics_sps as int,
            false,
        )
    }

    /// Whether the fields that are coded of `v` are these.
    #[verifier::opaque]
    pub open spec fn same(self, v: Sps) -> bool {
        &&& self.long_term_ref_pics_present_flag == v.long_term_ref_pics_present_flag
        &&& v.long_term_ref_pics_present_flag
            ==> self.num_long_term_ref_pics_sps == v.num_long_term_ref_pics_sps
        &&& v.long_term_ref_pics_present_flag
            ==> agree(
                self.lt_ref_pic_poc_lsb_sps@,
                v.lt_ref_pic_poc_lsb_sps@,
                v.num_long_term_ref_pics_sps as int,
            )
        &&& v.long_term_ref_pics_present_flag
            ==> agree(
                self.used_by_curr_pic_lt_sps_flag@,
                v.used_by_curr_pic_lt_sps_flag@,
                v.num_long_term_ref_pics_sps as int,
            )
    }
}

/// The long-term reference pictures.
pub(crate) fn parse_sps_long_term(r: &mut BitReader, log2_lsb_minus4: u8) -> (f: SpsLongTerm)
    requires
        old(r).inv(),
    ensures
        final(r).inv(),
        final(r)@ is Some ==> old(r)@ is Some,
        forall|s: Sps| s.log2_max_pic_order_cnt_lsb_minus4 == log2_lsb_minus4 && f.fills(s)
            ==> decodes(old(r)@, #[trigger] sps_long_term_syntax(s), final(r)@),
        forall|v: Sps, rest: Seq<bool>|
            v.log2_max_pic_order_cnt_lsb_minus4 == log2_lsb_minus4
                && old(r)@ == Some(#[trigger] sps_long_term_syntax(v).onto(rest))
                && sps_long_term_syntax(v).fits()
                ==> final(r)@ == Some(
                rest,
            ) && f.same(v),
        f.num_long_term_ref_pics_sps <= 32,
        f.settled(),
{
    proof {
        reveal(sps_long_term_syntax);
        reveal(SpsLongTerm::settled);
        reveal(SpsLongTerm::of);
        reveal(SpsLongTerm::same);
    }
    let long_term_ref_pics_present_flag: bool = r.flag();
    let mut pics: ([u32; 32], [bool; 32]) = ([0; 32], [false; 32]);
    let mut num_long_term_ref_pics_sps: u8 = 0;
    if long_term_ref_pics_present_flag {
        num_long_term_ref_pics_sps = r.ue(32) as u8;
        pics = parse_long_term_pics(r, log2_lsb_minus4, num_long_term_ref_pics_sps as usize);
    }
    let lt_ref_pic_poc_lsb_sps: [u32; 32] = pics.0;
    let used_by_curr_pic_lt_sps_flag: [bool; 32] = pics.1;
    SpsLongTerm {
        long_term_ref_pics_present_flag,
        num_long_term_ref_pics_sps,
        lt_ref_pic_poc_lsb_sps,
        used_by_curr_pic_lt_sps_flag,
    }
}

/// The last flags and the video usability information.
pub struct SpsVui {
    pub temporal_mvp_enabled_flag: bool,
    pub strong_intra_smoothing_enabled_flag: bool,
    pub vui_parameters_present_flag: bool,
    pub vui_parameters: VuiParams,
}

impl SpsVui {
    /// The fields of `s`.
    #[verifier::opaque]
    pub open spec fn of(s: Sps) -> Self {
        SpsVui {
            temporal_mvp_enabled_flag: s.temporal_mvp_enabled_flag,
            strong_intra_smoothing_enabled_flag: s.strong_intra_smoothing_enabled_flag,
            vui_parameters_present_flag: s.vui_parameters_present_flag,
            vui_parameters: s.vui_parameters,
        }
    }

    /// Whether `s` holds these fields.
    pub open spec fn fills(self, s: Sps) -> bool {
        Self::of(s) == self
    }

    /// Whether what is not coded has its inferred or initial value.
    #[verifier::opaque]
    pub open spec fn settled(self, max_sub_layers_minus1: u8) -> bool {
        if self.vui_parameters_present_flag {
            vui_settled(self.vui_parameters, max_sub_layers_minus1)
        } else {
            vui_blank(self.vui_parameters)
        }
    }

    /// Whether the fields that are coded of `v` are these.
    #[verifier::opaque]
    pub open spec fn same(self, v: Sps, max_sub_layers_minus1: u8) -> bool {
        &&& self.temporal_mvp_enabled_flag == v.temporal_mvp_enabled_flag
        &&& self.strong_intra_smoothing_enabled_flag == v.strong_intra_smoothing_enabled_flag
        &&& self.vui_parameters_present_flag == v.vui_parameters_present_flag
        &&& v.vui_parameters_present_flag
            ==> vui_same(self.vui_parameters, v.vui_parameters, max_sub_layers_minus1)
    }
}

/// The last flags and the video usability information.
pub(crate) fn parse_sps_vui(r: &mut BitReader, max_sub_layers_minus1: u8) -> (f: SpsVui)
    requires
        old(r).inv(),
        max_sub_layers_minus1 <= 6,
    ensures
        final(r).inv(),
        final(r)@ is Some ==> old(r)@ is Some,
        forall|s: Sps| s.max_sub_layers_minus1 == max_sub_layers_minus1 && f.fills(s)
            ==> decodes(old(r)@, #[trigger] sps_vui_syntax(s), final(r)@),
        forall|v: Sps, rest: Seq<bool>|
            v.max_sub_layers_minus1 == max_sub_layers_minus1
                && old(r)@ == Some(#[trigger] sps_vui_syntax(v).onto(rest))
                && sps_vui_syntax(v).fits()
                && (v.vui_parameters_present_flag
                    ==> v.vui_parameters.inferred(max_sub_layers_minus1 as int))
                ==> final(r)@ == Some(
                rest,
            ) && f.same(v, max_sub_layers_minus1),
        f.vui_parameters_present_flag ==> f.vui_parameters.inferred(max_sub_layers_minus1 as int),
        f.settled(max_sub_layers_minus1),
{
    proof {
        reveal(sps_vui_syntax);
        reveal(vui_blank);
        reveal(SpsVui::settled);
        reveal(SpsVui::of);
        reveal(SpsVui::same);
    }
    let temporal_mvp_enabled_flag: bool = r.flag();
    let strong_intra_smoothing_enabled_flag: bool = r.flag();
    let vui_parameters_present_flag: bool = r.flag();
    let mut vui_parameters: VuiParams = VuiParams::default();
    if vui_parameters_present_flag {
        vui_parameters = parse_vui(r, max_sub_layers_minus1);
    }
    SpsVui {
        temporal_mvp_enabled_flag,
        strong_intra_smoothing_enabled_flag,
        vui_parameters_present_flag,
        vui_parameters,
    }
}

/// The range extension with these flags.
fn assemble_range_extension(
    transform_skip_rotation_enabled_flag: bool,
    transform_skip_context_enabled_flag: bool,
    implicit_rdpcm_enabled_flag: bool,
    explicit_rdpcm_enabled_flag: bool,
    extended_precision_processing_flag: bool,
    intra_smoothing_disabled_flag: bool,
    high_precision_offsets_enabled_flag: bool,
    persistent_rice_adaptation_enabled_flag: bool,
    cabac_bypass_alignment_enabled_flag: bool,
) -> (f: SpsRangeExtension)
    ensures
        f.transform_skip_rotation_enabled_flag == transform_skip_rotation_enabled_flag,
        f.transform_skip_context_enabled_flag == transform_skip_context_enabled_flag,
        f.implicit_rdpcm_enabled_flag == implicit_rdpcm_enabled_flag,
        f.explicit_rdpcm_enabled_flag == explicit_rdpcm_enabled_flag,
        f.extended_precision_processing_flag == extended_precision_processing_flag,
        f.intra_smoothing_disabled_flag == intra_smoothing_disabled_flag,
        f.high_precision_offsets_enabled_flag == high_precision_offsets_enabled_flag,
        f.persistent_rice_adaptation_enabled_flag == persistent_rice_adaptation_enabled_flag,
        f.cabac_bypass_alignment_enabled_flag == cabac_bypass_alignment_enabled_flag,
{
    SpsRangeExtension {
        transform_skip_rotation_enabled_flag,
        transform_skip_context_enabled_flag,
        implicit_rdpcm_enabled_flag,
        explicit_rdpcm_enabled_flag,
        extended_precision_processing_flag,
        intra_smoothing_disabled_flag,
        high_precision_offsets_enabled_flag,
        persistent_rice_adaptation_enabled_flag,
        cabac_bypass_alignment_enabled_flag,
    }
}

/// `sps_range_extension()` (7.3.2.2.2).
fn parse_sps_range_extension(r: &mut BitReader) -> (f: SpsRangeExtension)
    requires
        old(r).inv(),
    ensures
        final(r).inv(),
        decodes(old(r)@, sps_range_extension_syntax(f), final(r)@),
        forall|v: SpsRangeExtension, rest: Seq<bool>|
            old(r)@ == Some(#[trigger] sps_range_extension_syntax(v).onto(rest))
                ==> final(r)@ == Some(rest) && f == v,
{
    let transform_skip_rotation_enabled_flag: bool = r.flag();
    let transform_skip_context_enabled_flag: bool = r.flag();
    let implicit_rdpcm_enabled_flag: bool = r.flag();
    let explicit_rdpcm_enabled_flag: bool = r.flag();
    let extended_precision_processing_flag: bool = r.flag();
    let intra_smoothing_disabled_flag: bool = r.flag();
    let high_precision_offsets_enabled_flag: bool = r.flag();
    let persistent_rice_adaptation_enabled_flag: bool = r.flag();
    let cabac_bypass_alignment_enabled_flag: bool = r.flag();
    let f = assemble_range_extension(
        transform_skip_rotation_enabled_flag,
        transform_skip_context_enabled_flag,
        implicit_rdpcm_enabled_flag,
        explicit_rdpcm_enabled_flag,
        extended_precision_processing_flag,
        intra_smoothing_disabled_flag,
        high_precision_offsets_enabled_flag,
        persistent_rice_adaptation_enabled_flag,
        cabac_bypass_alignment_enabled_flag,
    );
    assert(decodes(old(r)@, sps_range_extension_syntax(f), r@)) by {
        reveal(sps_range_extension_syntax);
    }
    assert forall|v: SpsRangeExtension, rest: Seq<bool>|
        old(r)@ == Some(#[trigger] sps_range_extension_syntax(v).onto(rest)) implies r@ == Some(rest)
        && f == v by {
        reveal(sps_range_extension_syntax);
    }
    f
}

/// The extensions.
pub struct SpsExtension {
    pub extension_present_flag: bool,
    pub range_extension_flag: bool,
    pub range_extension: SpsRangeExtension,
    pub scc_extension_flag: bool,
}

impl SpsExtension {
    /// The fields of `s`.
    #[verifier::opaque]
    pub open spec fn of(s: Sps) -> Self {
        SpsExtension {
            extension_present_flag: s.extension_present_flag,
            range_extension_flag: s.range_extension_flag,
            range_extension: s.range_extension,
            scc_extension_flag: s.scc_extension_flag,
        }
    }

    /// Whether `s` holds these fields.
    pub open spec fn fills(self, s: Sps) -> bool {
        Self::of(s) == self
    }

    /// Whether what is not coded has its inferred or initial value.
    #[verifier::opaque]
    pub open spec fn settled(self) -> bool {
        &&& !self.extension_present_flag ==> {
            &&& !self.range_extension_flag
            &&& !self.scc_extension_flag
        }
        &&& !(self.extension_present_flag && self.range_extension_flag)
            ==> self.range_extension == SpsRangeExtension::initial()
    }

    /// Whether the fields that are coded of `v` are these.
    #[verifier::opaque]
    pub open spec fn same(self, v: Sps) -> bool {
        &&& self.extension_present_flag == v.extension_present_flag
        &&& v.extension_present_flag ==> self.range_extension_flag == v.range_extension_flag
        &&& v.extension_present_flag && v.range_extension_flag
            ==> self.range_extension == v.range_extension
        &&& v.extension_present_flag ==> self.scc_extension_flag == v.scc_extension_flag
    }
}

/// The extensions. Only the range extension is read; any other is refused.
#[verifier::rlimit(40)]
pub(crate) fn parse_sps_extension(r: &mut BitReader) -> (f: SpsExtension)
    requires
        old(r).inv(),
    ensures
        final(r).inv(),
        final(r)@ is Some ==> old(r)@ is Some,
        forall|s: Sps| f.fills(s)
            ==> decodes(old(r)@, #[trigger] sps_extension_syntax(s), final(r)@),
        forall|v: Sps, rest: Seq<bool>|
            old(r)@ == Some(#[trigger] sps_extension_syntax(v).onto(rest))
                && sps_extension_syntax(v).fits()
                ==> final(r)@ == Some(
                rest,
            ) && f.same(v),
        f.settled(),
{
    proof {
        reveal(sps_extension_syntax);
        reveal(SpsExtension::settled);
        reveal(SpsExtension::of);
        reveal(SpsExtension::same);
    }
    let extension_present_flag: bool = r.flag();
    let mut range_extension_flag: bool = false;
    let mut range_extension: SpsRangeExtension = SpsRangeExtension::default();
    let mut scc_extension_flag: bool = false;
    if extension_present_flag {
        range_extension_flag = r.flag();
        if range_extension_flag {
            range_extension = parse_sps_range_extension(r);
        }
        let multilayer_extension_flag: bool = r.flag();
        r.require(!multilayer_extension_flag);
        let three_d_extension_flag: bool = r.flag();
        r.require(!three_d_extension_flag);
        scc_extension_flag = r.flag();
        r.require(!scc_extension_flag);
        let extension_4bits: u32 = r.u(4);
        r.require(extension_4bits == 0);
    }
    SpsExtension {
        extension_present_flag,
        range_extension_flag,
        range_extension,
        scc_extension_flag,
    }
}

/// The variables that are derived from what is coded.
pub struct SpsDerived {
    pub chroma_array_type: u8,
    pub min_cb_log2_size_y: u32,
    pub ctb_log2_size_y: u32,
    pub ctb_size_y: u32,
    pub pic_width_in_ctbs_y: u32,
    pub pic_height_in_ctbs_y: u32,
    pub pic_size_in_ctbs_y: u32,
    pub pic_size_in_samples_y: u32,
    pub max_tb_log2_size_y: u32,
}

impl SpsDerived {
    /// Whether `s` holds these variables.
    pub open spec fn fills(self, s: Sps) -> bool {
        &&& s.chroma_array_type == self.chroma_array_type
        &&& s.min_cb_log2_size_y == self.min_cb_log2_size_y
        &&& s.ctb_log2_size_y == self.ctb_log2_size_y
        &&& s.ctb_size_y == self.ctb_size_y
        &&& s.pic_width_in_ctbs_y == self.pic_width_in_ctbs_y
        &&& s.pic_height_in_ctbs_y == self.pic_height_in_ctbs_y
        &&& s.pic_size_in_ctbs_y == self.pic_size_in_ctbs_y
        &&& s.pic_size_in_samples_y == self.pic_size_in_samples_y
        &&& s.max_tb_log2_size_y == self.max_tb_log2_size_y
    }
}

/// The number of blocks of `size` samples that cover `length` samples.
fn blocks_for(length: u16, size: u32) -> (n: u32)
    requires
        size > 0,
    ensures
        n == (length + size - 1) / size as int,
        n <= length,
{
    let n: u64 = (length as u64 + size as u64 - 1) / size as u64;
    assert((length + size - 1) / size as int <= length) by (nonlinear_arith)
        requires
            size >= 1,
            length >= 0,
    ;
    n as u32
}

/// `2` to the power of `n`.
pub(crate) fn power_of_two(n: u32) -> (p: u32)
    requires
        n <= 31,
    ensures
        p == pow2(n as nat),
        p > 0,
{
    proof {
        lemma_pow2_values();
    }
    let mut p: u32 = 1;
    let mut i: u32 = 0;
    while i < n
        invariant
            i <= n <= 31,
            p == pow2(i as nat),
        decreases n - i,
    {
        proof {
            lemma_pow2_values();
            lemma_pow2_monotone((i + 1) as nat, 31);
        }
        p = p * 2;
        i = i + 1;
    }
    proof {
        lemma_pow2_pos(n as nat);
    }
    p
}

/// The variables that are derived from what is coded (7.4.3.2.1).
fn derive_sps(format: &SpsFormat, blocks: &SpsBlocks) -> (d: SpsDerived)
    ensures
        blocks.log2_min_luma_coding_block_size_minus3 + blocks.log2_diff_max_min_luma_coding_block_size <= 28
            ==> forall|s: Sps| format.fills(s) && blocks.fills(s) && #[trigger] d.fills(s)
                ==> s.derived(),
{
    proof {
        reveal(SpsFormat::of);
        reveal(SpsBlocks::of);
    }
    let min_cb_log2_size_y: u32 = blocks.log2_min_luma_coding_block_size_minus3 as u32 + 3;
    let ctb_log2_size_y: u32 = min_cb_log2_size_y + blocks.log2_diff_max_min_luma_coding_block_size as u32;
    let ctb_size_y: u32 = power_of_two(if ctb_log2_size_y <= 31 { ctb_log2_size_y } else { 31 });
    let pic_width_in_ctbs_y: u32 = blocks_for(format.pic_width_in_luma_samples, ctb_size_y);
    let pic_height_in_ctbs_y: u32 = blocks_for(format.pic_height_in_luma_samples, ctb_size_y);
    assert(pic_width_in_ctbs_y * pic_height_in_ctbs_y <= 0xffff * 0xffff) by (nonlinear_arith)
        requires
            pic_width_in_ctbs_y <= 0xffff,
            pic_height_in_ctbs_y <= 0xffff,
    ;
    let w: u32 = format.pic_width_in_luma_samples as u32;
    let h: u32 = format.pic_height_in_luma_samples as u32;
    assert(w * h <= 0xffff * 0xffff) by (nonlinear_arith)
        requires
            w <= 0xffff,
            h <= 0xffff,
    ;
    SpsDerived {
        chroma_array_type: if format.separate_colour_plane_flag {
            0
        } else {
            format.chroma_format_idc
        },
        min_cb_log2_size_y,
        ctb_log2_size_y,
        ctb_size_y,
        pic_width_in_ctbs_y,
        pic_height_in_ctbs_y,
        pic_size_in_ctbs_y: pic_width_in_ctbs_y * pic_height_in_ctbs_y,
        pic_size_in_samples_y: w * h,
        max_tb_log2_size_y: blocks.log2_min_luma_transform_block_size_minus2 as u32 + 2
            + blocks.log2_diff_max_min_luma_transform_block_size as u32,
    }
}

/// Whether the fields that are coded of `v` are those of `p`.
pub open spec fn sps_same(p: Sps, v: Sps) -> bool {
    &&& SpsHead::of(p).same(v)
    &&& ptl_same(p.profile_tier_level, v.profile_tier_level, true, v.max_sub_layers_minus1 as int)
    &&& SpsFormat::of(p).same(v)
    &&& SpsOrdering::of(p).same(v, p.max_sub_layers_minus1)
    &&& SpsBlocks::of(p).same(v)
    &&& SpsScaling::of(p).same(v)
    &&& SpsTools::of(p).same(v)
    &&& SpsShortTerm::of(p).same(v)
    &&& SpsLongTerm::of(p).same(v)
    &&& SpsVui::of(p).same(v, p.max_sub_layers_minus1)
    &&& SpsExtension::of(p).same(v)
}

/// Whether what is not coded has its inferred or initial value.
pub open spec fn sps_settled(p: Sps) -> bool {
    &&& ptl_settled(p.profile_tier_level, true, p.max_sub_layers_minus1 as int)
    &&& SpsFormat::of(p).settled()
    &&& SpsOrdering::of(p).settled(p.max_sub_layers_minus1)
    &&& SpsScaling::of(p).settled()
    &&& SpsTools::of(p).settled()
    &&& SpsShortTerm::of(p).settled()
    &&& SpsLongTerm::of(p).settled()
    &&& SpsVui::of(p).settled(p.max_sub_layers_minus1)
    &&& SpsExtension::of(p).settled()
    &&& p.scc_extension == SpsSccExtension::initial()
}

/// Whether all fields of `p` and `q` are equal, but for the video parameter set.
pub open spec fn sps_equal(p: Sps, q: Sps) -> bool {
    &&& q == (Sps { short_term_ref_pic_set: q.short_term_ref_pic_set, vps: q.vps, ..p })
    &&& q.short_term_ref_pic_set@ == p.short_term_ref_pic_set@
}

proof fn lemma_sps_head_equal(p: Sps, q: Sps)
    requires
        SpsHead::of(q).same(p),
    ensures
        SpsHead::of(q) == SpsHead::of(p),
{
    reveal(SpsHead::of);
    reveal(SpsHead::same);
}

proof fn lemma_sps_format_equal(p: Sps, q: Sps)
    requires
        SpsFormat::of(q).same(p),
        SpsFormat::of(p).settled(),
        SpsFormat::of(q).settled(),
    ensures
        SpsFormat::of(q) == SpsFormat::of(p),
{
    reveal(SpsFormat::of);
    reveal(SpsFormat::same);
    reveal(SpsFormat::settled);
}

proof fn lemma_sps_ordering_equal(p: Sps, q: Sps)
    requires
        p.max_sub_layers_minus1 <= 6,
        SpsOrdering::of(q).same(p, p.max_sub_layers_minus1),
        SpsOrdering::of(p).settled(p.max_sub_layers_minus1),
        SpsOrdering::of(q).settled(p.max_sub_layers_minus1),
    ensures
        SpsOrdering::of(q) == SpsOrdering::of(p),
{
    reveal(SpsOrdering::of);
    reveal(SpsOrdering::same);
    reveal(SpsOrdering::settled);
    assert(q.max_dec_pic_buffering_minus1 =~= p.max_dec_pic_buffering_minus1);
    assert(q.max_num_reorder_pics =~= p.max_num_reorder_pics);
    assert(q.max_latency_increase_plus1 =~= p.max_latency_increase_plus1);
}

proof fn lemma_sps_blocks_equal(p: Sps, q: Sps)
    requires
        SpsBlocks::of(q).same(p),
    ensures
        SpsBlocks::of(q) == SpsBlocks::of(p),
{
    reveal(SpsBlocks::of);
    reveal(SpsBlocks::same);
}

proof fn lemma_sps_scaling_equal(p: Sps, q: Sps)
    requires
        SpsScaling::of(q).same(p),
        SpsScaling::of(p).settled(),
        SpsScaling::of(q).settled(),
    ensures
        SpsScaling::of(q) == SpsScaling::of(p),
{
    reveal(SpsScaling::of);
    reveal(SpsScaling::same);
    reveal(SpsScaling::settled);
    if p.scaling_list_data_present_flag {
        lemma_scaling_equal(p.scaling_list, q.scaling_list);
    }
}

proof fn lemma_sps_tools_equal(p: Sps, q: Sps)
    requires
        SpsTools::of(q).same(p),
        SpsTools::of(p).settled(),
        SpsTools::of(q).settled(),
    ensures
        SpsTools::of(q) == SpsTools::of(p),
{
    reveal(SpsTools::of);
    reveal(SpsTools::same);
    reveal(SpsTools::settled);
}

proof fn lemma_sps_long_term_equal(p: Sps, q: Sps)
    requires
        SpsLongTerm::of(q).same(p),
        SpsLongTerm::of(p).settled(),
        SpsLongTerm::of(q).settled(),
    ensures
        SpsLongTerm::of(q) == SpsLongTerm::of(p),
{
    reveal(SpsLongTerm::of);
    reveal(SpsLongTerm::same);
    reveal(SpsLongTerm::settled);
    assert(q.lt_ref_pic_poc_lsb_sps =~= p.lt_ref_pic_poc_lsb_sps);
    assert(q.used_by_curr_pic_lt_sps_flag =~= p.used_by_curr_pic_lt_sps_flag);
}

proof fn lemma_vui_flags_equal(a: SpsVui, b: SpsVui, p: Sps)
    requires
        a == SpsVui::of(p),
        b.same(p, p.max_sub_layers_minus1),
    ensures
        b.temporal_mvp_enabled_flag == a.temporal_mvp_enabled_flag,
        b.strong_intra_smoothing_enabled_flag == a.strong_intra_smoothing_enabled_flag,
        b.vui_parameters_present_flag == a.vui_parameters_present_flag,
        a.vui_parameters_present_flag ==> vui_same(
            b.vui_parameters,
            a.vui_parameters,
            p.max_sub_layers_minus1,
        ),
{
    reveal(SpsVui::of);
    reveal(SpsVui::same);
}

proof fn lemma_some_vui_equal(a: SpsVui, b: SpsVui, max_sub_layers_minus1: u8)
    requires
        max_sub_layers_minus1 <= 6,
        a.vui_parameters_present_flag,
        b.vui_parameters_present_flag,
        vui_same(b.vui_parameters, a.vui_parameters, max_sub_layers_minus1),
        a.settled(max_sub_layers_minus1),
        b.settled(max_sub_layers_minus1),
    ensures
        b.vui_parameters == a.vui_parameters,
{
    lemma_vui_settled(a, max_sub_layers_minus1);
    lemma_vui_settled(b, max_sub_layers_minus1);
    lemma_vui_equal(a.vui_parameters, b.vui_parameters, max_sub_layers_minus1);
}

proof fn lemma_vui_settled(a: SpsVui, max_sub_layers_minus1: u8)
    requires
        a.vui_parameters_present_flag,
        a.settled(max_sub_layers_minus1),
    ensures
        vui_settled(a.vui_parameters, max_sub_layers_minus1),
{
    reveal(SpsVui::settled);
}

proof fn lemma_no_vui_equal(a: SpsVui, b: SpsVui, max_sub_layers_minus1: u8)
    requires
        !a.vui_parameters_present_flag,
        !b.vui_parameters_present_flag,
        a.settled(max_sub_layers_minus1),
        b.settled(max_sub_layers_minus1),
    ensures
        b.vui_parameters == a.vui_parameters,
{
    reveal(SpsVui::settled);
    reveal(vui_blank);
}

proof fn lemma_sps_vui_equal(p: Sps, q: Sps)
    requires
        p.max_sub_layers_minus1 <= 6,
        SpsVui::of(q).same(p, p.max_sub_layers_minus1),
        SpsVui::of(p).settled(p.max_sub_layers_minus1),
        SpsVui::of(q).settled(p.max_sub_layers_minus1),
    ensures
        SpsVui::of(q) == SpsVui::of(p),
{
    lemma_vui_flags_equal(SpsVui::of(p), SpsVui::of(q), p);
    if SpsVui::of(p).vui_parameters_present_flag {
        lemma_some_vui_equal(SpsVui::of(p), SpsVui::of(q), p.max_sub_layers_minus1);
    } else {
        lemma_no_vui_equal(SpsVui::of(p), SpsVui::of(q), p.max_sub_layers_minus1);
    }
}

proof fn lemma_sps_extension_equal(p: Sps, q: Sps)
    requires
        SpsExtension::of(q).same(p),
        SpsExtension::of(p).settled(),
        SpsExtension::of(q).settled(),
    ensures
        SpsExtension::of(q) == SpsExtension::of(p),
{
    reveal(SpsExtension::of);
    reveal(SpsExtension::same);
    reveal(SpsExtension::settled);
}

proof fn lemma_sps_short_term_equal(p: Sps, q: Sps)
    requires
        SpsShortTerm::of(q).same(p),
        SpsShortTerm::of(p).settled(),
        SpsShortTerm::of(q).settled(),
    ensures
        q.num_short_term_ref_pic_sets == p.num_short_term_ref_pic_sets,
        q.short_term_ref_pic_set@ == p.short_term_ref_pic_set@,
{
    reveal(SpsShortTerm::of);
    reveal(SpsShortTerm::same);
    reveal(SpsShortTerm::settled);
    assert forall|k: int| 0 <= k < p.num_short_term_ref_pic_sets
        implies q.short_term_ref_pic_set@[k] == p.short_term_ref_pic_set@[k] by {
        let a = SpsShortTerm::of(p).short_term_ref_pic_set@[k];
        let b = SpsShortTerm::of(q).short_term_ref_pic_set@[k];
        assert(rps_same(b, p.short_term_ref_pic_set[k]));
        lemma_rps_equal(a, b);
    }
    assert(q.short_term_ref_pic_set@ =~= p.short_term_ref_pic_set@);
}

/// Settled sets that are the same as far as they are coded are equal, section by section.
proof fn lemma_sps_sections_equal(p: Sps, q: Sps)
    requires
        p.max_sub_layers_minus1 <= 6,
        sps_same(q, p),
        sps_settled(p),
        sps_settled(q),
    ensures
        q.profile_tier_level == p.profile_tier_level,
        SpsHead::of(q) == SpsHead::of(p),
        SpsFormat::of(q) == SpsFormat::of(p),
        SpsOrdering::of(q) == SpsOrdering::of(p),
        SpsBlocks::of(q) == SpsBlocks::of(p),
        SpsScaling::of(q) == SpsScaling::of(p),
        SpsTools::of(q) == SpsTools::of(p),
        SpsLongTerm::of(q) == SpsLongTerm::of(p),
        SpsVui::of(q) == SpsVui::of(p),
        SpsExtension::of(q) == SpsExtension::of(p),
        q.num_short_term_ref_pic_sets == p.num_short_term_ref_pic_sets,
        q.short_term_ref_pic_set@ == p.short_term_ref_pic_set@,
{
    assert(q.max_sub_layers_minus1 == p.max_sub_layers_minus1) by {
        reveal(SpsHead::of);
        reveal(SpsHead::same);
    }
    assert(q.log2_max_pic_order_cnt_lsb_minus4 == p.log2_max_pic_order_cnt_lsb_minus4) by {
        reveal(SpsFormat::of);
        reveal(SpsFormat::same);
    }
    lemma_ptl_equal(
        p.profile_tier_level,
        q.profile_tier_level,
        p.max_sub_layers_minus1 as int,
    );
    lemma_sps_head_equal(p, q);
    lemma_sps_format_equal(p, q);
    lemma_sps_ordering_equal(p, q);
    lemma_sps_blocks_equal(p, q);
    lemma_sps_scaling_equal(p, q);
    lemma_sps_tools_equal(p, q);
    lemma_sps_long_term_equal(p, q);
    lemma_sps_vui_equal(p, q);
    lemma_sps_extension_equal(p, q);
    lemma_sps_short_term_equal(p, q);
}

/// The variables that follow from the same sections are equal.
proof fn lemma_derived_equal(p: Sps, q: Sps)
    requires
        SpsFormat::of(q) == SpsFormat::of(p),
        SpsBlocks::of(q) == SpsBlocks::of(p),
        p.derived(),
        q.derived(),
    ensures
        q.chroma_array_type == p.chroma_array_type,
        q.min_cb_log2_size_y == p.min_cb_log2_size_y,
        q.ctb_log2_size_y == p.ctb_log2_size_y,
        q.ctb_size_y == p.ctb_size_y,
        q.pic_width_in_ctbs_y == p.pic_width_in_ctbs_y,
        q.pic_height_in_ctbs_y == p.pic_height_in_ctbs_y,
        q.pic_size_in_ctbs_y == p.pic_size_in_ctbs_y,
        q.pic_size_in_samples_y == p.pic_size_in_samples_y,
        q.max_tb_log2_size_y == p.max_tb_log2_size_y,
{
    reveal(SpsFormat::of);
    reveal(SpsBlocks::of);
    assert(q.pic_width_in_luma_samples == p.pic_width_in_luma_samples);
    assert(q.pic_height_in_luma_samples == p.pic_height_in_luma_samples);
    assert(q.ctb_log2() == p.ctb_log2());
}

/// Sets with equal sections and variables are equal.
proof fn lemma_sps_from_sections(p: Sps, q: Sps)
    requires
        q.profile_tier_level == p.profile_tier_level,
        SpsHead::of(q) == SpsHead::of(p),
        SpsFormat::of(q) == SpsFormat::of(p),
        SpsOrdering::of(q) == SpsOrdering::of(p),
        SpsBlocks::of(q) == SpsBlocks::of(p),
        SpsScaling::of(q) == SpsScaling::of(p),
        SpsTools::of(q) == SpsTools::of(p),
        SpsLongTerm::of(q) == SpsLongTerm::of(p),
        SpsVui::of(q) == SpsVui::of(p),
        SpsExtension::of(q) == SpsExtension::of(p),
        q.num_short_term_ref_pic_sets == p.num_short_term_ref_pic_sets,
        q.chroma_array_type == p.chroma_array_type,
        q.min_cb_log2_size_y == p.min_cb_log2_size_y,
        q.ctb_log2_size_y == p.ctb_log2_size_y,
        q.ctb_size_y == p.ctb_size_y,
        q.pic_width_in_ctbs_y == p.pic_width_in_ctbs_y,
        q.pic_height_in_ctbs_y == p.pic_height_in_ctbs_y,
        q.pic_size_in_ctbs_y == p.pic_size_in_ctbs_y,
        q.pic_size_in_samples_y == p.pic_size_in_samples_y,
        q.max_tb_log2_size_y == p.max_tb_log2_size_y,
        q.scc_extension == p.scc_extension,
    ensures
        q == (Sps { short_term_ref_pic_set: q.short_term_ref_pic_set, vps: q.vps, ..p }),
{
    reveal(SpsHead::of);
    reveal(SpsFormat::of);
    reveal(SpsOrdering::of);
    reveal(SpsBlocks::of);
    reveal(SpsScaling::of);
    reveal(SpsTools::of);
    reveal(SpsLongTerm::of);
    reveal(SpsVui::of);
    reveal(SpsExtension::of);
}

/// Settled sets that are the same as far as they are coded are equal.
pub proof fn lemma_sps_equal(p: Sps, q: Sps)
    requires
        p.max_sub_layers_minus1 <= 6,
        sps_same(q, p),
        sps_settled(p),
        sps_settled(q),
        p.derived(),
        q.derived(),
    ensures
        sps_equal(p, q),
{
    lemma_sps_sections_equal(p, q);
    lemma_derived_equal(p, q);
    lemma_sps_from_sections(p, q);
}

/// The structure that holds these fields.
fn assemble_sps(
    head: SpsHead,
    profile_tier_level: ProfileTierLevel,
    format: SpsFormat,
    ordering: SpsOrdering,
    blocks: SpsBlocks,
    scaling: SpsScaling,
    tools: SpsTools,
    short_term: SpsShortTerm,
    long_term: SpsLongTerm,
    vui: SpsVui,
    extension: SpsExtension,
    derived: SpsDerived,
    vps: Option<Rc<Vps>>,
) -> (p: Sps)
    ensures
        head.fills(p),
        p.profile_tier_level == profile_tier_level,
        format.fills(p),
        ordering.fills(p),
        blocks.fills(p),
        scaling.fills(p),
        tools.fills(p),
        short_term.fills(p),
        long_term.fills(p),
        vui.fills(p),
        extension.fills(p),
        derived.fills(p),
        p.vps == vps,
        p.scc_extension == SpsSccExtension::initial(),
{
    proof {
        reveal(SpsHead::of);
        reveal(SpsFormat::of);
        reveal(SpsOrdering::of);
        reveal(SpsBlocks::of);
        reveal(SpsScaling::of);
        reveal(SpsTools::of);
        reveal(SpsShortTerm::of);
        reveal(SpsLongTerm::of);
        reveal(SpsVui::of);
        reveal(SpsExtension::of);
    }
    Sps {
        video_parameter_set_id: head.video_parameter_set_id,
        max_sub_layers_minus1: head.max_sub_layers_minus1,
        temporal_id_nesting_flag: head.temporal_id_nesting_flag,
        profile_tier_level,
        seq_parameter_set_id: format.seq_parameter_set_id,
        chroma_format_idc: format.chroma_format_idc,
        separate_colour_plane_flag: format.separate_colour_plane_flag,
        pic_width_in_luma_samples: format.pic_width_in_luma_samples,
        pic_height_in_luma_samples: format.pic_height_in_luma_samples,
        conformance_window_flag: format.conformance_window_flag,
        conf_win_left_offset: format.conf_win_left_offset,
        conf_win_right_offset: format.conf_win_right_offset,
        conf_win_top_offset: format.conf_win_top_offset,
        conf_win_bottom_offset: format.conf_win_bottom_offset,
        bit_depth_luma_minus8: format.bit_depth_luma_minus8,
        bit_depth_chroma_minus8: format.bit_depth_chroma_minus8,
        log2_max_pic_order_cnt_lsb_minus4: format.log2_max_pic_order_cnt_lsb_minus4,
        sub_layer_ordering_info_present_flag: ordering.sub_layer_ordering_info_present_flag,
        max_dec_pic_buffering_minus1: ordering.max_dec_pic_buffering_minus1,
        max_num_reorder_pics: ordering.max_num_reorder_pics,
        max_latency_increase_plus1: ordering.max_latency_increase_plus1,
        log2_min_luma_coding_block_size_minus3: blocks.log2_min_luma_coding_block_size_minus3,
        log2_diff_max_min_luma_coding_block_size: blocks.log2_diff_max_min_luma_coding_block_size,
        log2_min_luma_transform_block_size_minus2: blocks.log2_min_luma_transform_block_size_minus2,
        log2_diff_max_min_luma_transform_block_size: blocks.log2_diff_max_min_luma_transform_block_size,
        max_transform_hierarchy_depth_inter: blocks.max_transform_hierarchy_depth_inter,
        max_transform_hierarchy_depth_intra: blocks.max_transform_hierarchy_depth_intra,
        scaling_list_enabled_flag: scaling.scaling_list_enabled_flag,
        scaling_list_data_present_flag: scaling.scaling_list_data_present_flag,
        scaling_list: scaling.scaling_list,
        amp_enabled_flag: tools.amp_enabled_flag,
        sample_adaptive_offset_enabled_flag: tools.sample_adaptive_offset_enabled_flag,
        pcm_enabled_flag: tools.pcm_enabled_flag,
        pcm_sample_bit_depth_luma_minus1: tools.pcm_sample_bit_depth_luma_minus1,
        pcm_sample_bit_depth_chroma_minus1: tools.pcm_sample_bit_depth_chroma_minus1,
        log2_min_pcm_luma_coding_block_size_minus3: tools.log2_min_pcm_luma_coding_block_size_minus3,
        log2_diff_max_min_pcm_luma_coding_block_size: tools.log2_diff_max_min_pcm_luma_coding_block_size,
        pcm_loop_filter_disabled_flag: tools.pcm_loop_filter_disabled_flag,
        num_short_term_ref_pic_sets: short_term.num_short_term_ref_pic_sets,
        short_term_ref_pic_set: short_term.short_term_ref_pic_set,
        long_term_ref_pics_present_flag: long_term.long_term_ref_pics_present_flag,
        num_long_term_ref_pics_sps: long_term.num_long_term_ref_pics_sps,
        lt_ref_pic_poc_lsb_sps: long_term.lt_ref_pic_poc_lsb_sps,
        used_by_curr_pic_lt_sps_flag: long_term.used_by_curr_pic_lt_sps_flag,
        temporal_mvp_enabled_flag: vui.temporal_mvp_enabled_flag,
        strong_intra_smoothing_enabled_flag: vui.strong_intra_smoothing_enabled_flag,
        vui_parameters_present_flag: vui.vui_parameters_present_flag,
        vui_parameters: vui.vui_parameters,
        extension_present_flag: extension.extension_present_flag,
        range_extension_flag: extension.range_extension_flag,
        range_extension: extension.range_extension,
        scc_extension_flag: extension.scc_extension_flag,
        chroma_array_type: derived.chroma_array_type,
        min_cb_log2_size_y: derived.min_cb_log2_size_y,
        ctb_log2_size_y: derived.ctb_log2_size_y,
        ctb_size_y: derived.ctb_size_y,
        pic_width_in_ctbs_y: derived.pic_width_in_ctbs_y,
        pic_height_in_ctbs_y: derived.pic_height_in_ctbs_y,
        pic_size_in_ctbs_y: derived.pic_size_in_ctbs_y,
        pic_size_in_samples_y: derived.pic_size_in_samples_y,
        max_tb_log2_size_y: derived.max_tb_log2_size_y,
        vps,
        scc_extension: SpsSccExtension::default(),
    }
}

/// A set whose table can be written in full has at most seven sub-layers.
pub proof fn lemma_sps_sub_layers(v: Sps)
    requires
        sps_syntax(v).fits(),
    ensures
        v.max_sub_layers_minus1 <= 6,
{
    reveal(sps_syntax);
    reveal(ptl_syntax);
}

/// `seq_parameter_set_rbsp()` (7.3.2.2), without the trailing bits.
#[verifier::rlimit(60)]
pub(crate) fn parse_sps(r: &mut BitReader, vps: Option<Rc<Vps>>) -> (p: Sps)
    requires
        old(r).inv(),
    ensures
        final(r).inv(),
        decodes(old(r)@, sps_syntax(p), final(r)@),
        final(r)@ is Some
            ==> p.inferred() && p.derived() && p.ctb_log2() <= 31 && p.usable()
            && sps_settled(p),
        p.vps == vps,
        forall|v: Sps, rest: Seq<bool>|
            old(r)@ == Some(#[trigger] sps_syntax(v).onto(rest)) && sps_syntax(v).fits()
                && v.inferred() && v.ctb_log2() <= 31
                ==> final(r)@ == Some(
                rest,
            ) && sps_same(p, v),
{
    proof {
        assert forall|v: Sps| #[trigger] sps_syntax(v).fits() implies v.max_sub_layers_minus1 <= 6
            by {
            lemma_sps_sub_layers(v);
        }
        reveal(sps_syntax);
        reveal(sps_tail_syntax);
        reveal(SpsHead::of);
        reveal(SpsHead::same);
        reveal(SpsFormat::of);
        reveal(SpsFormat::same);
        reveal(SpsBlocks::of);
        reveal(SpsBlocks::same);
        reveal(SpsShortTerm::of);
        reveal(SpsShortTerm::same);
        reveal(SpsLongTerm::of);
        reveal(SpsLongTerm::same);
        reveal(SpsVui::of);
        reveal(SpsVui::same);
    }
    let head = parse_sps_head(r);
    let profile_tier_level: ProfileTierLevel = parse_profile_tier_level(
        r,
        true,
        head.max_sub_layers_minus1,
    );
    let format = parse_sps_format(r);
    let ordering = parse_sps_ordering_info(r, head.max_sub_layers_minus1);
    let blocks = parse_sps_blocks(r);
    let scaling = parse_sps_scaling(r);
    let tools = parse_sps_tools(r);
    let short_term = parse_sps_short_term(r);
    let long_term = parse_sps_long_term(r, format.log2_max_pic_order_cnt_lsb_minus4);
    let vui = parse_sps_vui(r, head.max_sub_layers_minus1);
    let extension = parse_sps_extension(r);
    let derived = derive_sps(&format, &blocks);
    let p = assemble_sps(
        head,
        profile_tier_level,
        format,
        ordering,
        blocks,
        scaling,
        tools,
        short_term,
        long_term,
        vui,
        extension,
        derived,
        vps,
    );
    proof {
        if r@ is Some {
            assert(short_term.short_term_ref_pic_set@ == p.short_term_ref_pic_set@);
            assert forall|k: int| 0 <= k < p.num_short_term_ref_pic_sets implies !(
            #[trigger] p.short_term_ref_pic_set[k]).inter_ref_pic_set_prediction_flag
                && p.short_term_ref_pic_set[k].valid() by {
                assert(short_term.short_term_ref_pic_set@[k].valid());
            }
            assert(derived.fills(p));
        }
    }
    p
}

} // verus!
