//! What the predictor and the synthesizer do together: every parameter set and every slice
//! segment header that the predictor builds can be synthesized, and is recovered by the
//! parser.

use crate::bits::{lemma_pow2_monotone, lemma_pow2_pos, lemma_pow2_values, pow2};
use crate::codec::h265::laws::{
    law_pps_round_trip, law_slice_header_round_trip, law_sps_round_trip, law_vps_round_trip,
    pps_round_trips, slice_round_trips, sps_round_trips, vps_round_trips,
};
use crate::codec::h265::tables::{
    constraint_syntax, count_true, flags_from, inbld_syntax, poc_lsb_syntax, pps_extension_syntax,
    pps_filters_syntax, pps_head_syntax, pps_lists_syntax, pps_syntax, pps_tiles_syntax,
    pps_tools_syntax, profile_head_syntax, profile_syntax, ptl_syntax, range_flags_syntax, s0_from,
    s1_from, slice_active_syntax, slice_address_syntax, slice_body_syntax, slice_end_syntax,
    slice_filters_syntax, slice_independent_syntax, slice_inter_syntax, slice_lists_syntax,
    slice_lt_mvp_syntax, slice_lt_syntax, slice_prediction_syntax, slice_qp_syntax,
    slice_references_syntax, slice_sao_syntax, slice_st_syntax, slice_syntax, slice_type_syntax,
    sps_blocks_syntax, sps_extension_syntax, sps_format_syntax, sps_head_syntax,
    sps_long_term_syntax, sps_ordering_from, sps_ordering_syntax, sps_scaling_syntax,
    sps_short_term_syntax, sps_syntax, sps_tail_syntax, sps_tools_syntax, sps_vui_syntax,
    st_ref_pic_set_syntax, vps_head_syntax, vps_layers_syntax, vps_ordering_from, vps_syntax,
    vps_timing_syntax, vui_display_syntax, vui_restriction_syntax, vui_signal_syntax, vui_syntax,
    vui_timing_syntax, vui_window_syntax, ProfileFields,
};
use crate::codec::h265::types::{
    Level, NaluType, Pps, Profile, ProfileTierLevel, SliceHeader, Sps, Vps,
};
use crate::encoder::{EncoderColorInfo, Tunings};
use crate::encoder::h265::EncoderConfig;
use crate::encoder::stateless::h265::BackendRequest;
use crate::encoder::stateless::h265::predictor::{
    is_inter_header, key_header, law_poc_does_not_wrap, lemma_align_up, lemma_least_poc_bits,
    low_bits_signed, pps_built, ptl_built, sets_built, spec_align_up, spec_sub_wh_c, spec_vui,
    sps_built, vps_built,
};
use crate::encoder::stateless::h265::vaapi::{packing_error, submittable};
use crate::syntax::{group_onto, lemma_flag_fits, reserved_zero};
use std::rc::Rc;
use vstd::prelude::*;

verus! {

broadcast use group_onto;

proof fn lemma_flags_fit(s: Seq<bool>, i: int, n: int)
    ensures
        flags_from(s, i, n).fits(),
    decreases n - i,
{
    if i < n {
        lemma_flag_fits(s[i]);
        lemma_flags_fit(s, i + 1, n);
    }
}

proof fn lemma_reserved_fits(n: int)
    ensures
        reserved_zero(n).fits(),
    decreases n,
{
    if n > 0 {
        lemma_pow2_pos(if n <= 32 { n as nat } else { 32 });
        if n > 32 {
            lemma_reserved_fits(n - 32);
        }
    }
}

proof fn lemma_profile_fits(p: ProfileFields)
    requires
        p.profile_space < 4,
        p.profile_idc < 32,
    ensures
        profile_syntax(p).fits(),
{
    lemma_pow2_values();
    reveal(profile_syntax);
    reveal(profile_head_syntax);
    reveal(constraint_syntax);
    reveal(range_flags_syntax);
    reveal(inbld_syntax);
    lemma_flags_fit(p.profile_compatibility_flag@, 0, 32);
    lemma_reserved_fits(33);
    lemma_reserved_fits(34);
    lemma_reserved_fits(7);
    lemma_reserved_fits(35);
    lemma_reserved_fits(43);
    lemma_reserved_fits(1);
}

proof fn lemma_ptl_fits(p: ProfileTierLevel, profile: Profile, level: Level)
    requires
        ptl_built(p, profile, level),
    ensures
        ptl_syntax(p, true, 0).fits(),
{
    lemma_pow2_values();
    reveal(ptl_syntax);
    lemma_profile_fits(p.general());
}

/// The video parameter set of every configuration can be written in full, and is
/// consistent; so it round-trips through the parser.
pub proof fn law_built_vps_round_trips(vps: Vps, config: EncoderConfig)
    requires
        vps_built(vps, config),
    ensures
        vps.writable(),
        vps.inferred(),
        vps_syntax(vps).fits(),
        vps_round_trips(vps),
{
    lemma_pow2_values();
    reveal(vps_syntax);
    reveal(vps_head_syntax);
    reveal(vps_layers_syntax);
    reveal(vps_timing_syntax);
    lemma_ptl_fits(vps.profile_tier_level, config.profile, config.level);
    reveal_with_fuel(vps_ordering_from, 2);
    assert(vps.max_dec_pic_buffering_minus1@[0] == 1);
    assert(vps.max_num_reorder_pics@[0] == 0);
    assert(vps.max_latency_increase_plus1@[0] == 0);
    law_vps_round_trip(vps);
}

proof fn lemma_vui_fits(color: Option<EncoderColorInfo>)
    ensures
        vui_syntax(spec_vui(color), 0).fits(),
{
    lemma_pow2_values();
    reveal(vui_syntax);
    reveal(vui_display_syntax);
    reveal(vui_signal_syntax);
    reveal(vui_window_syntax);
    reveal(vui_timing_syntax);
    reveal(vui_restriction_syntax);
}

/// The sequence parameter set of every configuration can be written in full, and is
/// consistent; so it round-trips through the parser.
pub proof fn law_built_sps_round_trips(sps: Sps, config: EncoderConfig, limit: u16)
    requires
        sps_built(sps, config, limit),
    ensures
        sps.writable(),
        sps.inferred(),
        sps.usable(),
        sps.ctb_log2() == 5,
        sps_syntax(sps).fits(),
        sps_round_trips(sps),
{
    lemma_pow2_values();
    reveal(sps_syntax);
    lemma_ptl_fits(sps.profile_tier_level, config.profile, config.level);
    lemma_vui_fits(config.color);
    assert(sps_head_syntax(sps).fits()) by {
        reveal(sps_head_syntax);
    }
    assert(sps_format_syntax(sps).fits()) by {
        reveal(sps_format_syntax);
        lemma_sizes(sps, config, limit);
    }
    assert(sps_ordering_syntax(sps).fits()) by {
        reveal(sps_ordering_syntax);
        reveal_with_fuel(sps_ordering_from, 2);
        assert(sps.max_dec_pic_buffering_minus1@[0] == 1);
        assert(sps.max_num_reorder_pics@[0] == 0);
        assert(sps.max_latency_increase_plus1@[0] == 0);
    }
    assert(sps_blocks_syntax(sps).fits()) by {
        reveal(sps_blocks_syntax);
    }
    assert(sps_scaling_syntax(sps).fits()) by {
        reveal(sps_scaling_syntax);
    }
    assert(sps_tools_syntax(sps).fits()) by {
        reveal(sps_tools_syntax);
    }
    assert(sps_short_term_syntax(sps).fits()) by {
        reveal(sps_short_term_syntax);
    }
    assert(sps_tail_syntax(sps).fits()) by {
        reveal(sps_tail_syntax);
        reveal(sps_long_term_syntax);
        reveal(sps_vui_syntax);
        reveal(sps_extension_syntax);
    }
    law_sps_round_trip(sps);
}

proof fn lemma_sizes(sps: Sps, config: EncoderConfig, limit: u16)
    requires
        sps_built(sps, config, limit),
    ensures
        sps.conf_win_right_offset < 8,
        sps.conf_win_bottom_offset < 8,
{
    lemma_align_up(config.resolution.width as int, 8);
    lemma_align_up(config.resolution.height as int, 8);
}

/// The picture parameter set of all tunings can be written in full; so it round-trips
/// through the parser.
pub proof fn law_built_pps_round_trips(pps: Pps, tunings: Tunings, sps: Sps)
    requires
        pps_built(pps, tunings, sps),
    ensures
        pps.writable(),
        pps_syntax(pps).fits(),
        pps_round_trips(pps),
{
    lemma_pow2_values();
    reveal(pps_syntax);
    reveal(pps_head_syntax);
    reveal(pps_tools_syntax);
    reveal(pps_tiles_syntax);
    reveal(pps_filters_syntax);
    reveal(pps_lists_syntax);
    reveal(pps_extension_syntax);
    law_pps_round_trip(pps);
}

/// The coded size, less what the conformance window crops, is the size of the frame,
/// wherever that is a multiple of the chroma sample spacing and fits in the parameter set.
/// The variables of the parameter set are those that follow from what is coded.
pub proof fn law_conformance_window_crops_to_the_frame(sps: Sps, config: EncoderConfig, limit: u16)
    requires
        sps_built(sps, config, limit),
        spec_align_up(config.resolution.width as int, 8) <= 0xffff,
        spec_align_up(config.resolution.height as int, 8) <= 0xffff,
    ensures
        sps.pic_width_in_luma_samples % 8 == 0,
        sps.pic_height_in_luma_samples % 8 == 0,
        config.resolution.width <= sps.pic_width_in_luma_samples < config.resolution.width + 8,
        config.resolution.height <= sps.pic_height_in_luma_samples < config.resolution.height + 8,
        config.resolution.width as int % spec_sub_wh_c(sps.chroma_format_idc).0 as int == 0
            ==> sps.pic_width_in_luma_samples - spec_sub_wh_c(sps.chroma_format_idc).0
            * sps.conf_win_right_offset == config.resolution.width,
        config.resolution.height as int % spec_sub_wh_c(sps.chroma_format_idc).1 as int == 0
            ==> sps.pic_height_in_luma_samples - spec_sub_wh_c(sps.chroma_format_idc).1
            * sps.conf_win_bottom_offset == config.resolution.height,
        !sps.conformance_window_flag <==> sps.pic_width_in_luma_samples == config.resolution.width
            && sps.pic_height_in_luma_samples == config.resolution.height,
        sps.derived(),
{
    lemma_align_up(config.resolution.width as int, 8);
    lemma_align_up(config.resolution.height as int, 8);
    lemma_pow2_values();
    let (sub_w, sub_h) = spec_sub_wh_c(sps.chroma_format_idc);
    let right = sps.pic_width_in_luma_samples - config.resolution.width;
    let bottom = sps.pic_height_in_luma_samples - config.resolution.height;
    assert(sub_w == 2 && sps.conf_win_right_offset == right / 2);
    if config.resolution.width as int % 2 == 0 {
        assert(right % 2 == 0);
    }
    if sub_h == 1 {
        assert(sps.conf_win_bottom_offset == bottom);
    } else {
        assert(sub_h == 2 && sps.conf_win_bottom_offset == bottom / 2);
        if config.resolution.height as int % 2 == 0 {
            assert(bottom % 2 == 0);
        }
    }
    assert(sub_w * sps.conf_win_right_offset == 2 * sps.conf_win_right_offset) by (nonlinear_arith)
        requires
            sub_w == 2,
    ;
    assert(sub_h * sps.conf_win_bottom_offset == if sub_h == 1 {
        sps.conf_win_bottom_offset as int
    } else {
        2 * sps.conf_win_bottom_offset
    }) by (nonlinear_arith)
        requires
            sub_h == 1 || sub_h == 2,
    ;
}

/// The header of a keyframe can be written in full under the parameter sets that were
/// built for it, and is consistent; so it round-trips through the parser.
pub proof fn law_key_header_round_trips(
    sps: Sps,
    pps: Pps,
    config: EncoderConfig,
    tunings: Tunings,
    limit: u16,
)
    requires
        sps_built(sps, config, limit),
        pps_built(pps, tunings, sps),
    ensures
        key_header().writable(NaluType::IdrWRadl, sps, pps),
        key_header().inferred(NaluType::IdrWRadl, sps, pps),
        slice_syntax(key_header(), NaluType::IdrWRadl, sps, pps).fits(),
        slice_round_trips(key_header(), NaluType::IdrWRadl, sps, pps),
{
    lemma_pow2_values();
    reveal(slice_syntax);
    reveal(slice_address_syntax);
    reveal(slice_independent_syntax);
    reveal(slice_type_syntax);
    reveal(slice_references_syntax);
    reveal(slice_body_syntax);
    reveal(slice_sao_syntax);
    reveal(slice_inter_syntax);
    reveal(slice_qp_syntax);
    reveal(slice_filters_syntax);
    reveal(slice_end_syntax);
    law_slice_header_round_trip(key_header(), NaluType::IdrWRadl, sps, pps);
}

/// The header of a frame that is predicted from an earlier one can be written in full
/// under the parameter sets that were built for it, and is consistent; so it round-trips
/// through the parser.
pub proof fn law_inter_header_round_trips(
    h: SliceHeader,
    sps: Sps,
    pps: Pps,
    config: EncoderConfig,
    tunings: Tunings,
    limit: u16,
    poc: int,
    ref_poc: int,
)
    requires
        sps_built(sps, config, limit),
        pps_built(pps, tunings, sps),
        0 < poc - ref_poc <= i32::MAX,
        is_inter_header(
            h,
            poc % pow2((sps.log2_max_pic_order_cnt_lsb_minus4 + 4) as nat) as int,
            poc,
            ref_poc,
            sps.num_short_term_ref_pic_sets,
        ),
    ensures
        h.writable(NaluType::TrailR, sps, pps),
        h.inferred(NaluType::TrailR, sps, pps),
        slice_syntax(h, NaluType::TrailR, sps, pps).fits(),
        slice_round_trips(h, NaluType::TrailR, sps, pps),
{
    lemma_pow2_values();
    let bits = (sps.log2_max_pic_order_cnt_lsb_minus4 + 4) as nat;
    lemma_least_poc_bits(2 * if limit == 0 { 1int } else { limit as int }, 0);
    lemma_pow2_monotone(bits, 16);
    lemma_pow2_pos(bits);
    vstd::arithmetic::div_mod::lemma_mod_bound(poc, pow2(bits) as int);
    let st = h.short_term_ref_pic_set;
    assert(st.s0_minus1(0) == poc - ref_poc - 1);
    assert(st.valid());
    reveal(slice_syntax);
    reveal(slice_independent_syntax);
    reveal(slice_references_syntax);
    assert(slice_address_syntax(h, NaluType::TrailR, sps, pps).fits()) by {
        reveal(slice_address_syntax);
    }
    assert(slice_type_syntax(h, sps, pps).fits()) by {
        reveal(slice_type_syntax);
    }
    assert(slice_st_syntax(h, sps).fits()) by {
        reveal(slice_st_syntax);
        reveal(poc_lsb_syntax);
        reveal(st_ref_pic_set_syntax);
        reveal_with_fuel(s0_from, 2);
        reveal_with_fuel(s1_from, 2);
    }
    assert(slice_lt_mvp_syntax(h, sps).fits()) by {
        reveal(slice_lt_mvp_syntax);
        reveal(slice_lt_syntax);
    }
    assert(slice_body_syntax(h, sps, pps).fits()) by {
        reveal(slice_body_syntax);
        reveal(slice_sao_syntax);
        reveal(slice_inter_syntax);
        reveal(slice_lists_syntax);
        reveal(slice_active_syntax);
        reveal(slice_prediction_syntax);
        reveal(slice_qp_syntax);
        reveal(slice_filters_syntax);
    }
    assert(slice_end_syntax(h, pps).fits()) by {
        reveal(slice_end_syntax);
    }
    reveal_with_fuel(count_true, 2);
    law_slice_header_round_trip(h, NaluType::TrailR, sps, pps);
}

/// The value that a pointer points to.
spec fn pointee<T>(rc: Rc<T>) -> T {
    *rc
}

/// The request for a keyframe can be handed to the driver, and none of its headers fails to
/// be packed.
pub proof fn law_key_request_is_submitted<P, R>(
    request: BackendRequest<P, R>,
    packed_headers: u32,
    config: EncoderConfig,
    tunings: Tunings,
    limit: u16,
)
    requires
        sets_built((request.vps, request.sps, request.pps), config, tunings, limit),
        request.header == key_header(),
        request.nalu_type == NaluType::IdrWRadl,
    ensures
        submittable(request, packed_headers),
        packing_error(request) is None,
{
    law_built_vps_round_trips(pointee(request.vps), config);
    law_built_sps_round_trips(pointee(request.sps), config, limit);
    law_built_pps_round_trips(pointee(request.pps), tunings, pointee(request.sps));
    law_key_header_round_trips(pointee(request.sps), pointee(request.pps), config, tunings, limit);
}

/// The request for a frame that is predicted from an earlier one can be handed to the
/// driver, and none of its headers fails to be packed.
pub proof fn law_inter_request_is_submitted<P, R>(
    request: BackendRequest<P, R>,
    packed_headers: u32,
    config: EncoderConfig,
    tunings: Tunings,
    limit: u16,
    poc: int,
    ref_poc: int,
)
    requires
        sets_built((request.vps, request.sps, request.pps), config, tunings, limit),
        0 < poc - ref_poc <= i32::MAX,
        is_inter_header(
            request.header,
            poc % pow2((request.sps.log2_max_pic_order_cnt_lsb_minus4 + 4) as nat) as int,
            poc,
            ref_poc,
            request.sps.num_short_term_ref_pic_sets,
        ),
        request.nalu_type == NaluType::TrailR,
    ensures
        submittable(request, packed_headers),
        packing_error(request) is None,
{
    law_built_vps_round_trips(pointee(request.vps), config);
    law_built_sps_round_trips(pointee(request.sps), config, limit);
    law_built_pps_round_trips(pointee(request.pps), tunings, pointee(request.sps));
    law_inter_header_round_trips(
        request.header,
        pointee(request.sps),
        pointee(request.pps),
        config,
        tunings,
        limit,
        poc,
        ref_poc,
    );
}

/// Picture order counts are counted from the last IDR picture. Between natural intra frames
/// that of a frame is its distance from that picture, and so are its low bits; a frame that
/// is predicted from the one before codes a distance of one, as zero.
pub proof fn law_poc_counts_from_the_last_idr(
    h: SliceHeader,
    sps: Sps,
    config: EncoderConfig,
    limit: u16,
    counter: usize,
    poc_base: usize,
    ref_poc: int,
)
    requires
        sps_built(sps, config, limit),
        poc_base < counter < poc_base + limit,
        is_inter_header(
            h,
            (counter - poc_base) % pow2((sps.log2_max_pic_order_cnt_lsb_minus4 + 4) as nat) as int,
            low_bits_signed(counter - poc_base),
            ref_poc,
            sps.num_short_term_ref_pic_sets,
        ),
    ensures
        low_bits_signed(counter - poc_base) == counter - poc_base,
        h.pic_order_cnt_lsb == counter - poc_base,
        counter - poc_base + h.short_term_ref_pic_set.delta_poc_s0@[0] == ref_poc,
        ref_poc == counter - poc_base - 1 ==> h.short_term_ref_pic_set.s0_minus1(0) == 0,
{
    law_poc_does_not_wrap(limit, counter - poc_base);
}

} // verus!
