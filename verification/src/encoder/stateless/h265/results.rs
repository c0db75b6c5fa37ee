//! What the predictor and the backend hand out, in terms of what they were given.

use crate::bits::{lemma_pow2_monotone, lemma_pow2_values, pow2};
use crate::codec::h265::defaults::{
    pps_range_extension_is_empty, pps_scc_extension_is_empty, scaling_lists_is_empty,
    sps_range_extension_is_empty, sps_scc_extension_is_empty, vui_params_is_empty,
};
use crate::codec::h265::synthesizer::{Synthesizer, SynthesizerResult};
use crate::codec::h265::types::{
    NaluType, Pps, Profile, ShortTermRefPicSet, SliceHeader, SliceType, Sps, Vps,
};
use crate::encoder::{
    BackendFailure, EncodeError, EncodeResult, PredictionStructure, RateControl,
    StatelessBackendError, StatelessBackendResult, Tunings,
};
use crate::encoder::h265::EncoderConfig;
use crate::encoder::stateless::{BackendPromise, FrameMetadata};
use crate::encoder::stateless::h265::{
    BackendRequest, DpbEntry, DpbEntryMeta, ReferencePromise, StatelessEncoder,
    StatelessH265EncoderBackend,
};
use crate::encoder::stateless::h265::predictor::{
    align_up, build_parameter_sets, is_buildable, least_poc_bits, lemma_align_up,
    lemma_least_poc_bits, log2_max_poc_lsb_minus4, low_bits_signed, low_delay_rps, pick_init_qp,
    profile_format, sets_built, spec_align_up, sub_wh_c, LowDelayH265,
};
use crate::encoder::stateless::h265::vaapi::{
    build_enc_pic_param, build_enc_slice_param, coding_type_for_slice, hevc_pic, invalid_hevc_pic,
    packed_headers_from_query, spec_flag, submissions, va_entrypoint, va_profile, EncPicParam,
    EncSliceParam, HevcPicture, PackedHeaderKind, ReferenceSurface, Submission, VaEntrypoint,
    VaProfile,
};
use crate::frame::BlockingMode;
use std::rc::Rc;
use vstd::arithmetic::div_mod::lemma_fundamental_div_mod;
use vstd::prelude::*;

verus! {

/// A flag as a number.
pub open spec fn one_if(set: bool) -> int {
    if set {
        1
    } else {
        0
    }
}

/// The colour description of a configuration is that of the sequence parameter set, code point
/// for code point; and without one there is none. Nothing else is signalled with it.
pub proof fn law_colours_are_signalled(
    config: &EncoderConfig,
    tunings: &Tunings,
    limit: u16,
    sets: (Rc<Vps>, Rc<Sps>, Rc<Pps>),
)
    requires
        call_ensures(build_parameter_sets, (config, tunings, limit), sets),
    ensures
        sets.1.vui_parameters_present_flag <==> config.color is Some,
        config.color matches Some(color) ==> {
            let vui = sets.1.vui_parameters;
            &&& vui.video_signal_type_present_flag
            &&& vui.colour_description_present_flag
            &&& vui.colour_primaries == color.primaries
            &&& vui.transfer_characteristics == color.transfer
            &&& vui.matrix_coeffs == color.matrix
            &&& vui.video_full_range_flag == color.full_range
            &&& vui.video_format == 5
            &&& !vui.aspect_ratio_info_present_flag
            &&& !vui.overscan_info_present_flag
            &&& !vui.chroma_loc_info_present_flag
            &&& !vui.neutral_chroma_indication_flag
            &&& !vui.field_seq_flag
            &&& !vui.frame_field_info_present_flag
            &&& !vui.default_display_window_flag
            &&& !vui.timing_info_present_flag
            &&& !vui.bitstream_restriction_flag
        },
{
}

/// The coded size is the least multiple of the smallest coding block that holds the frame, and
/// the conformance window takes off at the right and at the bottom what is more than the frame,
/// in units of chroma samples.
pub proof fn law_coded_size_holds_the_frame(
    config: &EncoderConfig,
    tunings: &Tunings,
    limit: u16,
    sets: (Rc<Vps>, Rc<Sps>, Rc<Pps>),
)
    requires
        call_ensures(build_parameter_sets, (config, tunings, limit), sets),
        config.resolution.width <= 0xfff8,
        config.resolution.height <= 0xfff8,
    ensures
        ({
            let sps = sets.1;
            let w = config.resolution.width;
            let h = config.resolution.height;
            let cols = sps.pic_width_in_ctbs_y as int;
            let lines = sps.pic_height_in_ctbs_y as int;
            &&& sps.pic_width_in_luma_samples % 8 == 0
            &&& sps.pic_height_in_luma_samples % 8 == 0
            &&& w <= sps.pic_width_in_luma_samples < w + 8
            &&& h <= sps.pic_height_in_luma_samples < h + 8
            &&& sps.conf_win_left_offset == 0
            &&& sps.conf_win_top_offset == 0
            &&& w % 2 == 0 ==> sps.pic_width_in_luma_samples == w + 2 * sps.conf_win_right_offset
            &&& h % 2 == 0 && config.profile != Profile::RangeExtensions
                ==> sps.pic_height_in_luma_samples == h + 2 * sps.conf_win_bottom_offset
            &&& config.profile == Profile::RangeExtensions ==> sps.pic_height_in_luma_samples == h
                + sps.conf_win_bottom_offset
            &&& w % 2 == 1 ==> sps.pic_width_in_luma_samples == w + 2 * sps.conf_win_right_offset
                + 1
            &&& h % 2 == 1 && config.profile != Profile::RangeExtensions
                ==> sps.pic_height_in_luma_samples == h + 2 * sps.conf_win_bottom_offset + 1
            &&& sps.conformance_window_flag <==> sps.pic_width_in_luma_samples > w
                || sps.pic_height_in_luma_samples > h
            &&& 32 * cols - 32 < sps.pic_width_in_luma_samples <= 32 * cols
            &&& 32 * lines - 32 < sps.pic_height_in_luma_samples <= 32 * lines
            &&& sps.pic_size_in_ctbs_y == cols * lines
            &&& sps.pic_size_in_samples_y == sps.pic_width_in_luma_samples
                * sps.pic_height_in_luma_samples
        }),
{
    lemma_align_up(config.resolution.width as int, 8);
    lemma_align_up(config.resolution.height as int, 8);
    let sps = sets.1;
    let w = spec_align_up(config.resolution.width as int, 8);
    let h = spec_align_up(config.resolution.height as int, 8);
    assert(sps.pic_width_in_luma_samples == w);
    assert(sps.pic_height_in_luma_samples == h);
    assert(sps.conf_win_right_offset == (w - config.resolution.width) / 2);
    if config.profile == Profile::RangeExtensions {
        assert(sps.conf_win_bottom_offset == (h - config.resolution.height) / 1);
    } else {
        assert(sps.conf_win_bottom_offset == (h - config.resolution.height) / 2);
    }
    assert(sps.pic_size_in_samples_y == w * h);
}

/// The format of the samples follows from the profile: ten bits for all but Main, 4:2:2 for the
/// range extensions, and 4:2:0 for all others.
pub proof fn law_format_follows_the_profile(
    config: &EncoderConfig,
    tunings: &Tunings,
    limit: u16,
    sets: (Rc<Vps>, Rc<Sps>, Rc<Pps>),
)
    requires
        call_ensures(build_parameter_sets, (config, tunings, limit), sets),
    ensures
        ({
            let sps = sets.1;
            let ten = config.profile == Profile::Main10 || config.profile
                == Profile::RangeExtensions;
            &&& sps.bit_depth_luma_minus8 == if ten {
                2
            } else {
                0int
            }
            &&& sps.bit_depth_chroma_minus8 == sps.bit_depth_luma_minus8
            &&& sps.chroma_format_idc == if config.profile == Profile::RangeExtensions {
                2
            } else {
                1int
            }
            &&& sps.chroma_array_type == sps.chroma_format_idc
            &&& !sps.separate_colour_plane_flag
        }),
{
}

/// The profile and the level of both parameter sets are those of the configuration. A stream is
/// compatible with its own profile alone, of the main tier, progressive and made of frames; the
/// range extensions come with the constraints of Main 4:2:2 10.
pub proof fn law_profile_and_level_are_those_of_the_configuration(
    config: &EncoderConfig,
    tunings: &Tunings,
    limit: u16,
    sets: (Rc<Vps>, Rc<Sps>, Rc<Pps>),
    i: int,
)
    requires
        call_ensures(build_parameter_sets, (config, tunings, limit), sets),
        0 <= i < 32,
    ensures
        ({
            let ptl = sets.1.profile_tier_level;
            let rext = config.profile == Profile::RangeExtensions;
            &&& ptl.general_profile_space == 0
            &&& !ptl.general_tier_flag
            &&& ptl.general_profile_idc == config.profile.code()
            &&& ptl.general_profile_compatibility_flag[i] <==> i == config.profile.code()
            &&& ptl.general_progressive_source_flag
            &&& !ptl.general_interlaced_source_flag
            &&& !ptl.general_non_packed_constraint_flag
            &&& ptl.general_frame_only_constraint_flag
            &&& ptl.general_max_12bit_constraint_flag == rext
            &&& ptl.general_max_10bit_constraint_flag == rext
            &&& !ptl.general_max_8bit_constraint_flag
            &&& ptl.general_max_422chroma_constraint_flag == rext
            &&& !ptl.general_max_420chroma_constraint_flag
            &&& !ptl.general_max_monochrome_constraint_flag
            &&& !ptl.general_intra_constraint_flag
            &&& !ptl.general_one_picture_only_constraint_flag
            &&& ptl.general_lower_bit_rate_constraint_flag == rext
            &&& !ptl.general_max_14bit_constraint_flag
            &&& !ptl.general_inbld_flag
            &&& ptl.general_level_idc == config.level
            &&& sets.0.profile_tier_level.general_profile_compatibility_flag[i]
                == ptl.general_profile_compatibility_flag[i]
            &&& sets.0.profile_tier_level.general_profile_idc == ptl.general_profile_idc
            &&& sets.0.profile_tier_level.general_level_idc == ptl.general_level_idc
            &&& sets.0.profile_tier_level.general_lower_bit_rate_constraint_flag == rext
            &&& sets.0.profile_tier_level.general_max_422chroma_constraint_flag == rext
            &&& sets.0.profile_tier_level.general_max_12bit_constraint_flag == rext
            &&& sets.0.profile_tier_level.general_max_10bit_constraint_flag == rext
            &&& sets.0.profile_tier_level.general_progressive_source_flag
            &&& sets.0.profile_tier_level.general_frame_only_constraint_flag
            &&& !sets.0.profile_tier_level.general_tier_flag
            &&& sets.0.profile_tier_level.general_profile_space == 0
        }),
{
}

/// There are as many bits for the picture order count as tell twice the frames between natural
/// intra frames apart, but at least 4 and at most 16, and no more.
pub proof fn law_poc_has_the_bits_it_needs(
    config: &EncoderConfig,
    tunings: &Tunings,
    limit: u16,
    sets: (Rc<Vps>, Rc<Sps>, Rc<Pps>),
)
    requires
        call_ensures(build_parameter_sets, (config, tunings, limit), sets),
    ensures
        ({
            let n = sets.1.log2_max_pic_order_cnt_lsb_minus4 + 4;
            &&& 4 <= n <= 16
            &&& n < 16 ==> 2 * limit <= pow2(n as nat)
            &&& n > 4 ==> pow2((n - 1) as nat) < 2 * limit
        }),
{
    let need = 2 * if limit == 0 {
        1int
    } else {
        limit as int
    };
    lemma_least_poc_bits(need, 0);
    lemma_least_is_least(need, 0);
    lemma_pow2_values();
}

proof fn lemma_least_is_least(need: int, v: int)
    requires
        0 <= v <= 12,
    ensures
        least_poc_bits(need, v) > v ==> pow2((least_poc_bits(need, v) + 3) as nat) < need,
    decreases 12 - v,
{
    if v < 12 && pow2((v + 4) as nat) < need {
        lemma_least_is_least(need, v + 1);
    }
}

/// The coding tools of the stream: blocks of 8 to 32 samples, transforms of 4 to 32, one decoded
/// picture beside the current one and no reordering, asymmetric partitions, and nothing else.
pub proof fn law_tools_of_the_sequence(
    config: &EncoderConfig,
    tunings: &Tunings,
    limit: u16,
    sets: (Rc<Vps>, Rc<Sps>, Rc<Pps>),
)
    requires
        call_ensures(build_parameter_sets, (config, tunings, limit), sets),
    ensures
        ({
            let sps = sets.1;
            &&& sps.video_parameter_set_id == 0
            &&& sps.seq_parameter_set_id == 0
            &&& sps.max_sub_layers_minus1 == 0
            &&& sps.temporal_id_nesting_flag
            &&& sps.sub_layer_ordering_info_present_flag
            &&& sps.max_dec_pic_buffering_minus1[0] == 1
            &&& sps.max_num_reorder_pics[0] == 0
            &&& sps.max_latency_increase_plus1[0] == 0
            &&& pow2((sps.log2_min_luma_coding_block_size_minus3 + 3) as nat) == 8
            &&& pow2(
                (sps.log2_min_luma_coding_block_size_minus3 + 3
                    + sps.log2_diff_max_min_luma_coding_block_size) as nat,
            ) == 32
            &&& pow2((sps.log2_min_luma_transform_block_size_minus2 + 2) as nat) == 4
            &&& pow2(
                (sps.log2_min_luma_transform_block_size_minus2 + 2
                    + sps.log2_diff_max_min_luma_transform_block_size) as nat,
            ) == 32
            &&& pow2(sps.min_cb_log2_size_y as nat) == 8
            &&& pow2(sps.ctb_log2_size_y as nat) == 32
            &&& sps.ctb_size_y == 32
            &&& pow2(sps.max_tb_log2_size_y as nat) == 32
            &&& sps.max_transform_hierarchy_depth_inter == 2
            &&& sps.max_transform_hierarchy_depth_intra == 2
            &&& sps.amp_enabled_flag
            &&& !sps.scaling_list_enabled_flag
            &&& !sps.sample_adaptive_offset_enabled_flag
            &&& !sps.pcm_enabled_flag
            &&& sps.num_short_term_ref_pic_sets == 0
            &&& !sps.long_term_ref_pics_present_flag
            &&& !sps.temporal_mvp_enabled_flag
            &&& !sps.strong_intra_smoothing_enabled_flag
            &&& !sps.extension_present_flag
            &&& sps.scc_extension.motion_vector_resolution_control_idc == 0
        }),
{
    lemma_pow2_values();
}

/// The video parameter set: one layer, one sub-layer, the same decoded picture buffer as that of
/// the sequence parameter set, and no timing.
pub proof fn law_video_parameter_set(
    config: &EncoderConfig,
    tunings: &Tunings,
    limit: u16,
    sets: (Rc<Vps>, Rc<Sps>, Rc<Pps>),
)
    requires
        call_ensures(build_parameter_sets, (config, tunings, limit), sets),
    ensures
        ({
            let vps = sets.0;
            &&& vps.video_parameter_set_id == sets.1.video_parameter_set_id
            &&& vps.base_layer_internal_flag
            &&& vps.base_layer_available_flag
            &&& vps.max_layers_minus1 == 0
            &&& vps.max_layer_id == 0
            &&& vps.num_layer_sets_minus1 == 0
            &&& vps.max_sub_layers_minus1 == sets.1.max_sub_layers_minus1
            &&& vps.temporal_id_nesting_flag
            &&& vps.sub_layer_ordering_info_present_flag
            &&& vps.max_dec_pic_buffering_minus1[0] == sets.1.max_dec_pic_buffering_minus1[0]
            &&& vps.max_num_reorder_pics[0] == sets.1.max_num_reorder_pics[0]
            &&& vps.max_latency_increase_plus1[0] == sets.1.max_latency_increase_plus1[0]
            &&& !vps.timing_info_present_flag
            &&& !vps.extension_flag
        }),
{
}

/// The picture parameter set: the quantizer starts at what the tunings ask for, the coding units
/// may differ from it, the loop filters cross slices, and no other tool is on.
pub proof fn law_picture_parameter_set(
    config: &EncoderConfig,
    tunings: &Tunings,
    limit: u16,
    sets: (Rc<Vps>, Rc<Sps>, Rc<Pps>),
)
    requires
        call_ensures(build_parameter_sets, (config, tunings, limit), sets),
    ensures
        ({
            let pps = sets.2;
            &&& pps.pic_parameter_set_id == 0
            &&& pps.seq_parameter_set_id == sets.1.seq_parameter_set_id
            &&& *pps.sps == *sets.1
            &&& starts_at(*tunings, pps.init_qp_minus26 + 26)
            &&& pps.cu_qp_delta_enabled_flag
            &&& pps.diff_cu_qp_delta_depth == 0
            &&& pps.loop_filter_across_slices_enabled_flag
            &&& pps.cb_qp_offset == 0
            &&& pps.cr_qp_offset == 0
            &&& pps.num_ref_idx_l0_default_active_minus1 == 0
            &&& pps.num_ref_idx_l1_default_active_minus1 == 0
            &&& pps.num_extra_slice_header_bits == 0
            &&& !pps.dependent_slice_segments_enabled_flag
            &&& !pps.output_flag_present_flag
            &&& !pps.sign_data_hiding_enabled_flag
            &&& !pps.cabac_init_present_flag
            &&& !pps.constrained_intra_pred_flag
            &&& !pps.transform_skip_enabled_flag
            &&& !pps.slice_chroma_qp_offsets_present_flag
            &&& !pps.weighted_pred_flag
            &&& !pps.weighted_bipred_flag
            &&& !pps.transquant_bypass_enabled_flag
            &&& !pps.tiles_enabled_flag
            &&& !pps.entropy_coding_sync_enabled_flag
            &&& !pps.deblocking_filter_control_present_flag
            &&& !pps.deblocking_filter_override_enabled_flag
            &&& !pps.deblocking_filter_disabled_flag
            &&& !pps.scaling_list_data_present_flag
            &&& !pps.lists_modification_present_flag
            &&& pps.log2_parallel_merge_level_minus2 == 0
            &&& !pps.slice_segment_header_extension_present_flag
            &&& !pps.extension_present_flag
            &&& !pps.range_extension.chroma_qp_offset_list_enabled_flag
            &&& !pps.scc_extension.curr_pic_ref_enabled_flag
            &&& !pps.scc_extension.slice_act_qp_offsets_present_flag
            &&& pps.qp_bd_offset_y == 0
        }),
{
}

/// Whether the quantizer may start at `qp`: it lies from 1 to 51. A constant quality within that
/// range and the bounds is taken as it is, and one beyond a bound gives way to the bound, which
/// is itself taken into the range, the lower one first. A bitrate starts in the middle.
pub open spec fn starts_at(tunings: Tunings, qp: int) -> bool {
    let into = |v: int| if v < 1 {
        1
    } else if v > 51 {
        51
    } else {
        v
    };
    let low = into(tunings.min_quality as int);
    let high = into(tunings.max_quality as int);
    &&& 1 <= qp <= 51
    &&& low <= qp
    &&& low <= high ==> qp <= high
    &&& low > high ==> qp == low
    &&& match tunings.rate_control {
        RateControl::ConstantQuality(q) => {
            &&& low <= q <= high ==> qp == q
            &&& q < low ==> qp == low
            &&& q > high && low <= high ==> qp == high
        },
        RateControl::ConstantBitrate(_) => low <= high ==> -1 <= (qp - low) - (high - qp) <= 0,
    }
}

/// The quantizer that a stream starts with.
pub proof fn law_initial_quantizer(tunings: &Tunings, q: u8)
    requires
        call_ensures(pick_init_qp, (tunings,), q),
    ensures
        starts_at(*tunings, q as int),
{
}

/// The reference picture set of a predicted frame: the picture at `ref_poc` alone, which the
/// current one uses.
pub proof fn law_reference_set_names_the_reference(
    curr_poc: i32,
    ref_poc: i32,
    rps: ShortTermRefPicSet,
)
    requires
        call_ensures(low_delay_rps, (curr_poc, ref_poc), rps),
    ensures
        rps.num_negative_pics == 1,
        rps.num_positive_pics == 0,
        rps.num_delta_pocs == 1,
        !rps.inter_ref_pic_set_prediction_flag,
        curr_poc + rps.delta_poc_s0[0] == ref_poc,
        rps.used_by_curr_pic_s0[0],
{
}

/// The number of luma samples for a chroma sample: two across, and two down unless the format is
/// 4:2:2.
pub proof fn law_chroma_subsampling(chroma_format_idc: u8, r: (u32, u32))
    requires
        call_ensures(sub_wh_c, (chroma_format_idc,), r),
    ensures
        r.0 == 2,
        chroma_format_idc == 2 ==> r.1 == 1,
        chroma_format_idc != 2 ==> r.1 == 2,
{
}

/// The bits beyond eight, and the chroma format, of a profile.
pub proof fn law_profile_format(profile: Profile, r: (u8, u8))
    requires
        call_ensures(profile_format, (profile,), r),
    ensures
        profile == Profile::RangeExtensions <==> r.1 == 2,
        profile != Profile::RangeExtensions <==> r.1 == 1,
        profile == Profile::Main10 || profile == Profile::RangeExtensions <==> r.0 == 2,
        r.0 == 0 || r.0 == 2,
{
}

/// What every slice of the stream has in common.
pub open spec fn is_plain(h: SliceHeader) -> bool {
    &&& h.first_slice_segment_in_pic_flag
    &&& !h.dependent_slice_segment_flag
    &&& !h.no_output_of_prior_pics_flag
    &&& h.pic_parameter_set_id == 0
    &&& h.segment_address == 0
    &&& h.pic_output_flag
    &&& h.colour_plane_id == 0
    &&& !h.short_term_ref_pic_set_sps_flag
    &&& h.num_long_term_sps == 0
    &&& h.num_long_term_pics == 0
    &&& !h.temporal_mvp_enabled_flag
    &&& !h.sao_luma_flag
    &&& !h.sao_chroma_flag
    &&& !h.num_ref_idx_active_override_flag
    &&& !h.mvd_l1_zero_flag
    &&& !h.cabac_init_flag
    &&& h.collocated_from_l0_flag
    &&& h.five_minus_max_num_merge_cand == 0
    &&& !h.use_integer_mv_flag
    &&& h.qp_delta == 0
    &&& h.cb_qp_offset == 0
    &&& h.cr_qp_offset == 0
    &&& !h.cu_chroma_qp_offset_enabled_flag
    &&& !h.deblocking_filter_override_flag
    &&& !h.deblocking_filter_disabled_flag
    &&& h.beta_offset_div2 == 0
    &&& h.tc_offset_div2 == 0
    &&& h.loop_filter_across_slices_enabled_flag
    &&& h.num_entry_point_offsets == 0
}

/// The request for a keyframe: an intra slice of an IDR picture, without references, from which
/// the picture order count starts anew.
pub proof fn law_keyframe_starts_anew<P, R>(
    input: P,
    meta: FrameMetadata,
    idr: bool,
    request: BackendRequest<P, R>,
)
    ensures
        forall|predictor: &mut LowDelayH265<P, R>|
            #[trigger] call_ensures(
                LowDelayH265::<P, R>::request_keyframe,
                (predictor, input, meta, idr),
                Ok::<BackendRequest<P, R>, EncodeError>(request),
            ) ==> {
                &&& is_plain(request.header)
                &&& request.header.type_ == SliceType::I
                &&& request.nalu_type == NaluType::IdrWRadl
                &&& request.is_idr
                &&& request.dpb_meta.poc == 0
                &&& request.dpb_meta.nalu_type == NaluType::IdrWRadl
                &&& request.ref_list_0@.len() == 0
                &&& request.input == input
                &&& request.input_meta == meta
                &&& request.intra_period == predictor.limit
                &&& request.ip_period == 1
                &&& request.num_ctu_in_slice == request.sps.pic_width_in_ctbs_y
                    * request.sps.pic_height_in_ctbs_y
                &&& request.tunings == predictor.tunings
                &&& request.coded_output@.len() == 0
                &&& final(predictor).poc_base() == predictor.counter
            },
{
}

/// The request for a frame that is predicted from the last reconstructed one: its picture order
/// count is its distance from the last IDR picture, of which the slice codes the low bits, and
/// the distance to its reference.
pub proof fn law_predicted_frame_refers_to_the_last<P, R>(
    input: P,
    meta: FrameMetadata,
    request: BackendRequest<P, R>,
)
    ensures
        forall|predictor: &mut LowDelayH265<P, R>|
            #[trigger] call_ensures(
                LowDelayH265::<P, R>::request_interframe,
                (predictor, input, meta),
                Ok::<BackendRequest<P, R>, EncodeError>(request),
            ) && predictor.counter >= predictor.poc_base() && predictor.counter
                - predictor.poc_base() <= i32::MAX ==> {
                let poc = predictor.counter - predictor.poc_base();
                let n = (request.sps.log2_max_pic_order_cnt_lsb_minus4 + 4) as nat;
                let rps = request.header.short_term_ref_pic_set;
                &&& is_plain(request.header)
                &&& request.header.type_ == SliceType::P
                &&& request.nalu_type == NaluType::TrailR
                &&& !request.is_idr
                &&& request.dpb_meta.poc == poc
                &&& request.dpb_meta.nalu_type == NaluType::TrailR
                &&& n <= 16 ==> request.header.pic_order_cnt_lsb == poc % pow2(n) as int
                &&& request.ref_list_0@.len() == 1
                &&& request.ref_list_0@[0] == predictor.references@.last()
                &&& rps.num_negative_pics == 1
                &&& rps.num_positive_pics == 0
                &&& !rps.inter_ref_pic_set_prediction_flag
                &&& poc + rps.delta_poc_s0[0] == request.ref_list_0@[0].meta.poc
                &&& rps.used_by_curr_pic_s0[0]
                &&& request.header.curr_rps_idx == request.sps.num_short_term_ref_pic_sets
                &&& request.input == input
                &&& request.input_meta == meta
                &&& request.intra_period == predictor.limit
                &&& request.ip_period == 1
                &&& request.num_ctu_in_slice == request.sps.pic_width_in_ctbs_y
                    * request.sps.pic_height_in_ctbs_y
                &&& request.tunings == predictor.tunings
                &&& request.coded_output@.len() == 0
                &&& final(predictor).references@.len() == 0
            },
{
    assert forall|predictor: &mut LowDelayH265<P, R>|
        #[trigger] call_ensures(
            LowDelayH265::<P, R>::request_interframe,
            (predictor, input, meta),
            Ok::<BackendRequest<P, R>, EncodeError>(request),
        ) && (request.sps.log2_max_pic_order_cnt_lsb_minus4 + 4) as nat <= 16
        implies request.header.pic_order_cnt_lsb == (predictor.counter - predictor.poc_base())
        % pow2((request.sps.log2_max_pic_order_cnt_lsb_minus4 + 4) as nat) as int by {
        let n = (request.sps.log2_max_pic_order_cnt_lsb_minus4 + 4) as nat;
        lemma_pow2_values();
        lemma_pow2_monotone(n, 16);
        lemma_pow2_monotone(0, n);
        vstd::arithmetic::div_mod::lemma_mod_bound(
            predictor.counter - predictor.poc_base(),
            pow2(n) as int,
        );
    }
}

/// The references that the driver is told of are those of the request, in the order of its list,
/// each with its own picture order count and the surface that holds it; and there are no others.
pub proof fn law_references_are_submitted<P, R>(
    request: &BackendRequest<P, R>,
    packed_headers: u32,
    coded_buf: u32,
    recon_surface: u32,
    surfaces: &[u32],
    plan: Vec<Submission>,
    j: int,
    i: int,
)
    requires
        surfaces@.len() == request.ref_list_0@.len(),
        call_ensures(
            submissions::<P, R>,
            (request, packed_headers, coded_buf, recon_surface, surfaces),
            Ok::<Vec<Submission>, StatelessBackendError>(plan),
        ),
        0 <= j < plan@.len(),
        0 <= i < 15,
    ensures
        plan@[j] matches Submission::Picture(p) ==> {
            &&& i < request.ref_list_0@.len() ==> {
                &&& p.reference_frames[i].picture_id == surfaces@[i]
                &&& p.reference_frames[i].pic_order_cnt == request.ref_list_0@[i].meta.poc
                &&& p.reference_frames[i].flags == 0
            }
            &&& i >= request.ref_list_0@.len() ==> is_nothing(p.reference_frames[i])
        },
        plan@[j] matches Submission::Slice(p) ==> {
            &&& i < request.ref_list_0@.len() ==> {
                &&& p.ref_pic_list0[i].picture_id == surfaces@[i]
                &&& p.ref_pic_list0[i].pic_order_cnt == request.ref_list_0@[i].meta.poc
                &&& p.ref_pic_list0[i].flags == 0
            }
            &&& i >= request.ref_list_0@.len() ==> is_nothing(p.ref_pic_list0[i])
            &&& is_nothing(p.ref_pic_list1[i])
        },
{
}

/// Whether a slot of a list holds no picture: its surface is that of no identifier, and it is
/// flagged invalid.
pub open spec fn is_nothing(p: HevcPicture) -> bool {
    p.picture_id == 0xffff_ffff && p.flags == 1 && p.pic_order_cnt == 0
}

/// What the driver is told of the sequence is what the sequence parameter set holds.
pub proof fn law_sequence_is_submitted<P, R>(
    request: &BackendRequest<P, R>,
    packed_headers: u32,
    coded_buf: u32,
    recon_surface: u32,
    surfaces: &[u32],
    plan: Vec<Submission>,
    j: int,
)
    requires
        surfaces@.len() == request.ref_list_0@.len(),
        call_ensures(
            submissions::<P, R>,
            (request, packed_headers, coded_buf, recon_surface, surfaces),
            Ok::<Vec<Submission>, StatelessBackendError>(plan),
        ),
        0 <= j < plan@.len(),
    ensures
        plan@[j] matches Submission::Sequence(p) ==> {
            let rate = match request.tunings.rate_control {
                RateControl::ConstantBitrate(target) => target as int % 0x1_0000_0000,
                RateControl::ConstantQuality(_) => 0,
            };
            &&& p.general_profile_idc == request.sps.profile_tier_level.general_profile_idc
            &&& p.general_level_idc == request.sps.profile_tier_level.general_level_idc.code()
            &&& p.general_tier_flag == one_if(request.sps.profile_tier_level.general_tier_flag)
            &&& p.intra_period == request.intra_period
            &&& p.intra_idr_period == request.intra_period
            &&& p.ip_period == request.ip_period
            &&& p.bits_per_second == rate
            &&& p.pic_width_in_luma_samples == request.sps.pic_width_in_luma_samples
            &&& p.pic_height_in_luma_samples == request.sps.pic_height_in_luma_samples
            &&& p.log2_min_luma_coding_block_size_minus3
                == request.sps.log2_min_luma_coding_block_size_minus3
            &&& p.log2_diff_max_min_luma_coding_block_size
                == request.sps.log2_diff_max_min_luma_coding_block_size
            &&& p.log2_min_luma_transform_block_size_minus2
                == request.sps.log2_min_luma_transform_block_size_minus2
            &&& p.log2_diff_max_min_luma_transform_block_size
                == request.sps.log2_diff_max_min_luma_transform_block_size
            &&& p.max_transform_hierarchy_depth_inter
                == request.sps.max_transform_hierarchy_depth_inter
            &&& p.max_transform_hierarchy_depth_intra
                == request.sps.max_transform_hierarchy_depth_intra
            &&& p.pcm_sample_bit_depth_luma_minus1 == 0
            &&& p.pcm_sample_bit_depth_chroma_minus1 == 0
            &&& p.log2_min_pcm_luma_coding_block_size_minus3 == 0
            &&& p.log2_max_pcm_luma_coding_block_size_minus3 == 0
            &&& p.vui_fields is None
            &&& p.aspect_ratio_idc == 0
            &&& p.sar_width == 0
            &&& p.sar_height == 0
            &&& p.vui_num_units_in_tick == 0
            &&& p.vui_time_scale == 0
            &&& p.min_spatial_segmentation_idc == 0
            &&& p.max_bytes_per_pic_denom == 0
            &&& p.max_bits_per_min_cu_denom == 0
            &&& p.palette_mode_enabled_flag == 0
            &&& p.seq_fields.chroma_format_idc == request.sps.chroma_format_idc as u32
            &&& p.seq_fields.separate_colour_plane_flag == one_if(
                request.sps.separate_colour_plane_flag,
            )
            &&& p.seq_fields.bit_depth_luma_minus8 == request.sps.bit_depth_luma_minus8 as u32
            &&& p.seq_fields.bit_depth_chroma_minus8 == request.sps.bit_depth_chroma_minus8 as u32
            &&& p.seq_fields.scaling_list_enabled_flag == one_if(
                request.sps.scaling_list_enabled_flag,
            )
            &&& p.seq_fields.strong_intra_smoothing_enabled_flag == one_if(
                request.sps.strong_intra_smoothing_enabled_flag,
            )
            &&& p.seq_fields.amp_enabled_flag == one_if(request.sps.amp_enabled_flag)
            &&& p.seq_fields.sample_adaptive_offset_enabled_flag == one_if(
                request.sps.sample_adaptive_offset_enabled_flag,
            )
            &&& p.seq_fields.pcm_enabled_flag == one_if(request.sps.pcm_enabled_flag)
            &&& p.seq_fields.pcm_loop_filter_disabled_flag == one_if(
                request.sps.pcm_loop_filter_disabled_flag,
            )
            &&& p.seq_fields.sps_temporal_mvp_enabled_flag == one_if(
                request.sps.temporal_mvp_enabled_flag,
            )
            &&& p.seq_fields.low_delay_seq == 1
            &&& p.seq_fields.hierachical_flag == 0
        },
{
}

/// What the driver is told of the picture is what the request, the picture parameter set and the
/// slice segment header hold.
pub proof fn law_picture_is_submitted<P, R>(
    request: &BackendRequest<P, R>,
    packed_headers: u32,
    coded_buf: u32,
    recon_surface: u32,
    surfaces: &[u32],
    plan: Vec<Submission>,
)
    requires
        surfaces@.len() == request.ref_list_0@.len(),
        call_ensures(
            submissions::<P, R>,
            (request, packed_headers, coded_buf, recon_surface, surfaces),
            Ok::<Vec<Submission>, StatelessBackendError>(plan),
        ),
    ensures
        plan@[plan@.len() - if packed_headers != 0 {
            3int
        } else {
            2int
        }] matches Submission::Picture(p) ==> {
            &&& p.decoded_curr_pic.picture_id == recon_surface
            &&& p.decoded_curr_pic.pic_order_cnt == request.dpb_meta.poc
            &&& p.decoded_curr_pic.flags == 0
            &&& request.pps.init_qp_minus26 >= -26 ==> p.pic_init_qp == 26
                + request.pps.init_qp_minus26
            &&& p.pic_fields.coding_type == if request.header.type_ == SliceType::I {
                1int
            } else {
                2int
            }
            &&& p.coded_buf == coded_buf
            &&& p.collocated_ref_pic_index == 0xff
            &&& p.last_picture == 0
            &&& p.diff_cu_qp_delta_depth == request.pps.diff_cu_qp_delta_depth
            &&& p.pps_cb_qp_offset == request.pps.cb_qp_offset
            &&& p.pps_cr_qp_offset == request.pps.cr_qp_offset
            &&& p.num_tile_columns_minus1 == request.pps.num_tile_columns_minus1
            &&& p.num_tile_rows_minus1 == request.pps.num_tile_rows_minus1
            &&& p.ctu_max_bitsize_allowed == 0
            &&& p.hierarchical_level_plus1 == 0
            &&& p.va_byte_reserved == 0
            &&& p.pps_curr_pic_ref_enabled_flag == 0
            &&& p.log2_parallel_merge_level_minus2 == request.pps.log2_parallel_merge_level_minus2
            &&& p.num_ref_idx_l0_default_active_minus1
                == request.pps.num_ref_idx_l0_default_active_minus1
            &&& p.num_ref_idx_l1_default_active_minus1
                == request.pps.num_ref_idx_l1_default_active_minus1
            &&& p.slice_pic_parameter_set_id == request.pps.pic_parameter_set_id
            &&& p.nal_unit_type == request.nalu_type.code()
        },
{
}

/// Whether a number is that of a flag.
#[verifier::opaque]
pub open spec fn flags(n: u32, set: bool) -> bool {
    n == if set {
        1int
    } else {
        0int
    }
}

proof fn lemma_flags()
    ensures
        forall|set: bool| #[trigger] flags(spec_flag(set), set),
{
    reveal(flags);
}

/// The flags of the picture are those of the request, the picture parameter set and the slice
/// segment header.
pub proof fn law_picture_flags_are_submitted<P, R>(
    request: &BackendRequest<P, R>,
    coded_buf: u32,
    recon_surface: u32,
    refs: &[ReferenceSurface],
    p: EncPicParam,
)
    requires
        call_ensures(
            build_enc_pic_param::<P, R>,
            (request, coded_buf, recon_surface, refs),
            p,
        ),
    ensures
        flags(p.pic_fields.idr_pic_flag, request.is_idr),
        p.pic_fields.reference_pic_flag == 1,
        flags(
            p.pic_fields.dependent_slice_segments_enabled_flag,
            request.pps.dependent_slice_segments_enabled_flag,
        ),
        flags(
            p.pic_fields.sign_data_hiding_enabled_flag,
            request.pps.sign_data_hiding_enabled_flag,
        ),
        flags(p.pic_fields.constrained_intra_pred_flag, request.pps.constrained_intra_pred_flag),
        flags(p.pic_fields.transform_skip_enabled_flag, request.pps.transform_skip_enabled_flag),
        flags(p.pic_fields.cu_qp_delta_enabled_flag, request.pps.cu_qp_delta_enabled_flag),
        flags(p.pic_fields.weighted_pred_flag, request.pps.weighted_pred_flag),
        flags(p.pic_fields.weighted_bipred_flag, request.pps.weighted_bipred_flag),
        flags(
            p.pic_fields.transquant_bypass_enabled_flag,
            request.pps.transquant_bypass_enabled_flag,
        ),
        flags(p.pic_fields.tiles_enabled_flag, request.pps.tiles_enabled_flag),
        flags(
            p.pic_fields.entropy_coding_sync_enabled_flag,
            request.pps.entropy_coding_sync_enabled_flag,
        ),
        flags(
            p.pic_fields.loop_filter_across_tiles_enabled_flag,
            request.pps.loop_filter_across_tiles_enabled_flag,
        ),
        flags(
            p.pic_fields.loop_filter_across_slices_enabled_flag,
            request.pps.loop_filter_across_slices_enabled_flag,
        ),
        flags(
            p.pic_fields.scaling_list_data_present_flag,
            request.pps.scaling_list_data_present_flag,
        ),
        p.pic_fields.screen_content_flag == 0,
        p.pic_fields.enable_gpu_weighted_prediction == 0,
        flags(
            p.pic_fields.no_output_of_prior_pics_flag,
            request.header.no_output_of_prior_pics_flag,
        ),
{
    lemma_flags();
}

/// No tile sizes are handed over with the picture.
pub proof fn law_no_tile_sizes_are_submitted<P, R>(
    request: &BackendRequest<P, R>,
    packed_headers: u32,
    coded_buf: u32,
    recon_surface: u32,
    surfaces: &[u32],
    plan: Vec<Submission>,
    i: int,
)
    requires
        surfaces@.len() == request.ref_list_0@.len(),
        call_ensures(
            submissions::<P, R>,
            (request, packed_headers, coded_buf, recon_surface, surfaces),
            Ok::<Vec<Submission>, StatelessBackendError>(plan),
        ),
    ensures
        plan@[plan@.len() - if packed_headers != 0 {
            3int
        } else {
            2int
        }] matches Submission::Picture(p) ==> {
            &&& 0 <= i < 19 ==> p.column_width_minus1[i] == 0
            &&& 0 <= i < 21 ==> p.row_height_minus1[i] == 0
        },
{
}

/// What the driver is told of the slice is what the slice segment header holds, and of the
/// picture parameter set where the header does not override it.
pub proof fn law_slice_is_submitted<P, R>(
    request: &BackendRequest<P, R>,
    packed_headers: u32,
    coded_buf: u32,
    recon_surface: u32,
    surfaces: &[u32],
    plan: Vec<Submission>,
)
    requires
        surfaces@.len() == request.ref_list_0@.len(),
        call_ensures(
            submissions::<P, R>,
            (request, packed_headers, coded_buf, recon_surface, surfaces),
            Ok::<Vec<Submission>, StatelessBackendError>(plan),
        ),
    ensures
        plan@.last() matches Submission::Slice(p) ==> {
            let own = request.header.num_ref_idx_active_override_flag;
            &&& own ==> p.num_ref_idx_l0_active_minus1
                == request.header.num_ref_idx_l0_active_minus1
            &&& own ==> p.num_ref_idx_l1_active_minus1
                == request.header.num_ref_idx_l1_active_minus1
            &&& !own ==> p.num_ref_idx_l0_active_minus1
                == request.pps.num_ref_idx_l0_default_active_minus1
            &&& !own ==> p.num_ref_idx_l1_active_minus1
                == request.pps.num_ref_idx_l1_default_active_minus1
            &&& forall|i: int| 0 <= i < 15 ==> #[trigger] p.delta_luma_weight_l0[i] == 0
            &&& forall|i: int| 0 <= i < 15 ==> #[trigger] p.luma_offset_l0[i] == 0
            &&& forall|i: int| 0 <= i < 15 ==> #[trigger] p.delta_luma_weight_l1[i] == 0
            &&& forall|i: int| 0 <= i < 15 ==> #[trigger] p.luma_offset_l1[i] == 0
            &&& p.slice_segment_address == 0
            &&& p.num_ctu_in_slice == request.num_ctu_in_slice
            &&& p.slice_type == request.header.type_.code()
            &&& p.slice_pic_parameter_set_id == request.pps.pic_parameter_set_id
            &&& p.luma_log2_weight_denom == request.header.pred_weight_table.luma_log2_weight_denom
            &&& p.delta_chroma_log2_weight_denom
                == request.header.pred_weight_table.delta_chroma_log2_weight_denom
            &&& p.pred_weight_table_bit_offset == 0
            &&& p.pred_weight_table_bit_length == 0
            &&& p.max_num_merge_cand == 5 - request.header.five_minus_max_num_merge_cand
            &&& p.slice_qp_delta == request.header.qp_delta
            &&& p.slice_cb_qp_offset == request.header.cb_qp_offset
            &&& p.slice_cr_qp_offset == request.header.cr_qp_offset
            &&& p.slice_beta_offset_div2 == request.header.beta_offset_div2
            &&& p.slice_tc_offset_div2 == request.header.tc_offset_div2
            &&& p.slice_fields.last_slice_of_pic_flag == 1
            &&& p.slice_fields.dependent_slice_segment_flag == one_if(
                request.header.dependent_slice_segment_flag,
            )
            &&& p.slice_fields.colour_plane_id == request.header.colour_plane_id as u32
            &&& p.slice_fields.slice_temporal_mvp_enabled_flag == one_if(
                request.header.temporal_mvp_enabled_flag,
            )
            &&& p.slice_fields.slice_sao_luma_flag == one_if(request.header.sao_luma_flag)
            &&& p.slice_fields.slice_sao_chroma_flag == one_if(request.header.sao_chroma_flag)
            &&& p.slice_fields.num_ref_idx_active_override_flag == one_if(
                request.header.num_ref_idx_active_override_flag,
            )
            &&& p.slice_fields.mvd_l1_zero_flag == one_if(request.header.mvd_l1_zero_flag)
            &&& p.slice_fields.cabac_init_flag == one_if(request.header.cabac_init_flag)
            &&& p.slice_fields.slice_deblocking_filter_disabled_flag == one_if(
                request.header.deblocking_filter_disabled_flag,
            )
            &&& p.slice_fields.slice_loop_filter_across_slices_enabled_flag == one_if(
                request.header.loop_filter_across_slices_enabled_flag,
            )
            &&& p.slice_fields.collocated_from_l0_flag == one_if(
                request.header.collocated_from_l0_flag,
            )
        },
{
}

/// What is handed to the driver, in order: the sequence with an IDR picture alone, the rate
/// control, the frame rate, the packed headers up to that of the picture, the picture, the packed
/// slice segment header, and the slice.
pub proof fn law_submission_order<P, R>(
    request: &BackendRequest<P, R>,
    packed_headers: u32,
    coded_buf: u32,
    recon_surface: u32,
    surfaces: &[u32],
    plan: Vec<Submission>,
)
    requires
        surfaces@.len() == request.ref_list_0@.len(),
        call_ensures(
            submissions::<P, R>,
            (request, packed_headers, coded_buf, recon_surface, surfaces),
            Ok::<Vec<Submission>, StatelessBackendError>(plan),
        ),
    ensures
        ({
            let s = plan@;
            let rate = Submission::RateControl(request.tunings);
            let frames = Submission::FrameRate(request.tunings.framerate);
            match (request.is_idr, packed_headers != 0) {
                (true, true) => {
                    &&& s.len() == 9
                    &&& s[0] is Sequence
                    &&& s[1] == rate
                    &&& s[2] == frames
                    &&& packs(s[3], PackedHeaderKind::Sequence)
                    &&& packs(s[4], PackedHeaderKind::Sequence)
                    &&& packs(s[5], PackedHeaderKind::Picture)
                    &&& s[6] is Picture
                    &&& packs(s[7], PackedHeaderKind::Slice)
                    &&& s[8] is Slice
                },
                (true, false) => {
                    &&& s.len() == 5
                    &&& s[0] is Sequence
                    &&& s[1] == rate
                    &&& s[2] == frames
                    &&& s[3] is Picture
                    &&& s[4] is Slice
                },
                (false, true) => {
                    &&& s.len() == 6
                    &&& s[0] == rate
                    &&& s[1] == frames
                    &&& packs(s[2], PackedHeaderKind::Picture)
                    &&& s[3] is Picture
                    &&& packs(s[4], PackedHeaderKind::Slice)
                    &&& s[5] is Slice
                },
                (false, false) => {
                    &&& s.len() == 4
                    &&& s[0] == rate
                    &&& s[1] == frames
                    &&& s[2] is Picture
                    &&& s[3] is Slice
                },
            }
        }),
{
}

/// Whether a packed header of this kind is handed over, with the number of its bits.
pub open spec fn packs(s: Submission, kind: PackedHeaderKind) -> bool {
    s matches Submission::Packed(p) && p.kind == kind && p.has_emulation && p.bit_length == (8
        * p.data@.len()) % 0x1_0000_0000
}

/// The bytes of a submission that is a packed header.
pub open spec fn packed_bytes(s: Submission) -> Seq<u8> {
    s->Packed_0.data@
}

/// The packed headers are what the synthesizer writes of the parameter sets and the slice segment
/// header of the request, with emulation prevention: of the video parameter set in front of the
/// sequence parameter set, both with an IDR picture alone.
pub proof fn law_packed_headers_are_synthesized<P, R>(
    request: &BackendRequest<P, R>,
    packed_headers: u32,
    coded_buf: u32,
    recon_surface: u32,
    surfaces: &[u32],
    plan: Vec<Submission>,
)
    requires
        surfaces@.len() == request.ref_list_0@.len(),
        call_ensures(
            submissions::<P, R>,
            (request, packed_headers, coded_buf, recon_surface, surfaces),
            Ok::<Vec<Submission>, StatelessBackendError>(plan),
        ),
        packed_headers != 0,
    ensures
        request.is_idr ==> forall|out: &mut Vec<u8>, r: SynthesizerResult<()>|
            #[trigger] call_ensures(
                Synthesizer::<'_,
                Vps>::synthesize,
                (&*request.vps, out, true),
                r,
            )
                && out@.len() == 0 ==> r is Ok && final(out)@ == packed_bytes(plan@[3]),
        request.is_idr ==> forall|out: &mut Vec<u8>, r: SynthesizerResult<()>|
            #[trigger] call_ensures(
                Synthesizer::<'_,
                Sps>::synthesize,
                (&*request.sps, out, true),
                r,
            )
                && out@.len() == 0 ==> r is Ok && final(out)@ == packed_bytes(plan@[4]),
        forall|out: &mut Vec<u8>, r: SynthesizerResult<()>|
            #[trigger] call_ensures(
                Synthesizer::<'_,
                Pps>::synthesize,
                (&*request.pps, out, true),
                r,
            )
                && out@.len() == 0 ==> r is Ok && final(out)@ == packed_bytes(
                plan@[if request.is_idr {
                    5int
                } else {
                    2int
                }],
            ),
        forall|out: &mut Vec<u8>, r: SynthesizerResult<()>|
            #[trigger] call_ensures(
                Synthesizer::<'_, SliceHeader>::synthesize,
                (request.nalu_type, &request.header, &*request.sps, &*request.pps, out, true),
                r,
            ) && out@.len() == 0 ==> r is Ok && final(out)@ == packed_bytes(
                plan@[if request.is_idr {
                    7int
                } else {
                    4int
                }],
            ),
{
    assert forall|a: Seq<u8>, b: Seq<u8>| a.len() == 0 implies #[trigger] (a + b) == b by {
        assert(a + b =~= b);
    }
}

/// The application supplies headers where the driver asks for the sequence, the picture and the
/// slice, and then all three.
pub proof fn law_packed_headers_are_all_or_none(attrib: Option<u32>, r: u32)
    requires
        call_ensures(packed_headers_from_query, (attrib,), r),
    ensures
        r == 0 || r == 7,
        r == 7 <==> (attrib matches Some(v) && v != 0x8000_0000 && v & 1 != 0 && v & 2 != 0 && v & 4
            != 0),
{
    if let Some(v) = attrib {
        assert(v & 7 == 7 <==> v & 1 != 0 && v & 2 != 0 && v & 4 != 0) by (bit_vector);
    }
}

/// The VA profile of a profile.
pub proof fn law_va_profile(profile: Profile, r: EncodeResult<VaProfile>)
    requires
        call_ensures(va_profile, (profile,), r),
    ensures
        profile == Profile::Main <==> r == Ok::<VaProfile, EncodeError>(VaProfile::HevcMain),
        profile == Profile::Main10 <==> r == Ok::<VaProfile, EncodeError>(VaProfile::HevcMain10),
        profile == Profile::RangeExtensions <==> r == Ok::<VaProfile, EncodeError>(
            VaProfile::HevcMain422_10,
        ),
        r matches Err(e) ==> e == EncodeError::Backend(StatelessBackendError::UnsupportedProfile),
{
}

/// The default of what is not used: no scaling lists, extensions, reference picture sets, tiles,
/// samples without prediction, or timing.
pub proof fn law_nothing_else_is_set(
    config: &EncoderConfig,
    tunings: &Tunings,
    limit: u16,
    sets: (Rc<Vps>, Rc<Sps>, Rc<Pps>),
)
    requires
        call_ensures(build_parameter_sets, (config, tunings, limit), sets),
    ensures
        ({
            let sps = sets.1;
            &&& scaling_lists_is_empty(sps.scaling_list)
            &&& !sps.scaling_list_data_present_flag
            &&& sps.pcm_sample_bit_depth_luma_minus1 == 0
            &&& sps.pcm_sample_bit_depth_chroma_minus1 == 0
            &&& sps.log2_min_pcm_luma_coding_block_size_minus3 == 0
            &&& sps.log2_diff_max_min_pcm_luma_coding_block_size == 0
            &&& !sps.pcm_loop_filter_disabled_flag
            &&& sps.short_term_ref_pic_set@.len() == 0
            &&& sps.num_long_term_ref_pics_sps == 0
            &&& forall|k: int| 0 <= k < 32 ==> #[trigger] sps.lt_ref_pic_poc_lsb_sps@[k] == 0
            &&& forall|k: int| 0 <= k < 32 ==> !#[trigger] sps.used_by_curr_pic_lt_sps_flag@[k]
            &&& forall|k: int| 1 <= k < 7 ==> #[trigger] sps.max_dec_pic_buffering_minus1@[k] == 0
            &&& forall|k: int| 0 <= k < 7 ==> #[trigger] sps.max_num_reorder_pics@[k] == 0
            &&& forall|k: int| 0 <= k < 7 ==> #[trigger] sps.max_latency_increase_plus1@[k] == 0
            &&& !sps.range_extension_flag
            &&& sps_range_extension_is_empty(sps.range_extension)
            &&& !sps.scc_extension_flag
            &&& sps_scc_extension_is_empty(sps.scc_extension)
            &&& config.color is None ==> vui_params_is_empty(sps.vui_parameters)
        }),
        ({
            let pps = sets.2;
            &&& scaling_lists_is_empty(pps.scaling_list)
            &&& pps.uniform_spacing_flag
            &&& !pps.range_extension_flag
            &&& pps_range_extension_is_empty(pps.range_extension)
            &&& !pps.scc_extension_flag
            &&& pps_scc_extension_is_empty(pps.scc_extension)
            &&& forall|k: int| 0 <= k < 19 ==> #[trigger] pps.column_width_minus1@[k] == 0
            &&& forall|k: int| 0 <= k < 21 ==> #[trigger] pps.row_height_minus1@[k] == 0
        }),
        ({
            let vps = sets.0;
            &&& vps.num_units_in_tick == 0
            &&& vps.time_scale == 0
            &&& !vps.poc_proportional_to_timing_flag
            &&& vps.num_ticks_poc_diff_one_minus1 == 0
            &&& vps.num_hrd_parameters == 0
            &&& vps.hrd_layer_set_idx@.len() == 0
            &&& vps.cprms_present_flag@.len() == 0
            &&& vps.hrd_parameters@.len() == 0
            &&& forall|k: int| 1 <= k < 7 ==> #[trigger] vps.max_dec_pic_buffering_minus1@[k] == 0
            &&& forall|k: int| 0 <= k < 7 ==> #[trigger] vps.max_num_reorder_pics@[k] == 0
            &&& forall|k: int| 0 <= k < 7 ==> #[trigger] vps.max_latency_increase_plus1@[k] == 0
        }),
{
}

/// Parameter sets can be built for a size whose least multiples of eight, and their product, fit
/// in 32 bits.
pub proof fn law_buildable_sizes(config: &EncoderConfig, r: bool, w: int, h: int)
    requires
        call_ensures(is_buildable, (config,), r),
        w % 8 == 0,
        h % 8 == 0,
        config.resolution.width <= w < config.resolution.width + 8,
        config.resolution.height <= h < config.resolution.height + 8,
    ensures
        r <==> w < 0x1_0000_0000 && h < 0x1_0000_0000 && w * h < 0x1_0000_0000,
{
    assert(spec_align_up(config.resolution.width as int, 8) == w);
    assert(spec_align_up(config.resolution.height as int, 8) == h);
}

/// Rounding up gives the least multiple that is not less.
pub proof fn law_rounding_up(x: u32, a: u32, r: u32, m: int)
    requires
        a > 0,
        call_ensures(align_up, (x, a), r),
    ensures
        r >= x,
        r as int % a as int == 0,
        m >= x && m % a as int == 0 ==> r <= m,
{
    if m >= x && m % a as int == 0 && r > m {
        lemma_fundamental_div_mod(m, a as int);
        lemma_fundamental_div_mod(r as int, a as int);
        let (k, n) = (m / a as int, r as int / a as int);
        assert(n >= k + 1) by (nonlinear_arith)
            requires
                a > 0,
                a as int * k == m,
                a as int * n == r,
                r > m,
        ;
        assert(a as int * n >= a as int * k + a) by (nonlinear_arith)
            requires
                n >= k + 1,
                a > 0,
        ;
    }
}

/// The low bits of the picture order count: the least number of them, from 4 to 16, that tells
/// twice as many pictures apart as lie between two keyframes.
pub proof fn law_low_bits_of_the_poc(limit: u16, v: u8)
    requires
        call_ensures(log2_max_poc_lsb_minus4, (limit,), v),
    ensures
        v <= 12,
        v < 12 ==> 2 * limit <= pow2((v + 4) as nat),
        v > 0 ==> pow2((v + 3) as nat) < 2 * limit,
{
    let need = 2 * if limit == 0 {
        1int
    } else {
        limit as int
    };
    lemma_least_poc_bits(need, 0);
    lemma_least_is_least(need, 0);
    lemma_pow2_values();
}

/// An intra slice has coding type 1, and every other slice has coding type 2.
pub proof fn law_coding_type(slice_type: SliceType, r: u32)
    requires
        call_ensures(coding_type_for_slice, (slice_type,), r),
    ensures
        slice_type == SliceType::I ==> r == 1,
        slice_type != SliceType::I ==> r == 2,
{
}

/// A picture is handed over by its surface and its picture order count, without flags; a slot
/// without a picture has no surface and is marked.
pub proof fn law_pictures_are_handed_over(
    surface_id: u32,
    poc: i32,
    p: HevcPicture,
    none: HevcPicture,
)
    requires
        call_ensures(hevc_pic, (surface_id, poc), p),
        call_ensures(invalid_hevc_pic, (), none),
    ensures
        p.picture_id == surface_id,
        p.pic_order_cnt == poc,
        p.flags == 0,
        none.picture_id == u32::MAX,
        none.pic_order_cnt == 0,
        none.flags == 1,
{
}

/// A slice is submitted without prediction weights, and with no picture in the second list.
pub proof fn law_no_weights_are_submitted(
    pps: &Pps,
    header: &SliceHeader,
    refs: &[ReferenceSurface],
    num_ctu_in_slice: u32,
    p: EncSliceParam,
)
    requires
        call_ensures(build_enc_slice_param, (pps, header, refs, num_ctu_in_slice), p),
    ensures
        forall|k: int, m: int|
            #![trigger p.delta_chroma_weight_l0@[k]@[m]]
            0 <= k < 15 && 0 <= m < 2 ==> p.delta_chroma_weight_l0@[k]@[m] == 0,
        forall|k: int, m: int|
            #![trigger p.chroma_offset_l0@[k]@[m]]
            0 <= k < 15 && 0 <= m < 2 ==> p.chroma_offset_l0@[k]@[m] == 0,
        forall|k: int, m: int|
            #![trigger p.delta_chroma_weight_l1@[k]@[m]]
            0 <= k < 15 && 0 <= m < 2 ==> p.delta_chroma_weight_l1@[k]@[m] == 0,
        forall|k: int, m: int|
            #![trigger p.chroma_offset_l1@[k]@[m]]
            0 <= k < 15 && 0 <= m < 2 ==> p.chroma_offset_l1@[k]@[m] == 0,
        forall|k: int|
            0 <= k < 15 ==> (#[trigger] p.ref_pic_list1@[k]).picture_id == u32::MAX
                && p.ref_pic_list1@[k].flags == 1,
{
}

/// The signed number with the low 32 bits of a picture order count.
pub proof fn law_low_bits_signed(v: int)
    ensures
        i32::MIN <= low_bits_signed(v) <= i32::MAX,
        (v - low_bits_signed(v)) % 0x1_0000_0000 == 0,
        i32::MIN <= v <= i32::MAX ==> low_bits_signed(v) == v,
{
}

/// Whether the parameter sets are those for a configuration, tunings and a period of intra frames:
/// the size, the format, the profile and the level, the colours, the quantizer, and the bits of the
/// picture order count.
pub open spec fn are_for(
    sets: (Rc<Vps>, Rc<Sps>, Rc<Pps>),
    config: EncoderConfig,
    tunings: Tunings,
    limit: u16,
) -> bool {
    let (vps, sps, pps) = sets;
    let (w, h) = (config.resolution.width, config.resolution.height);
    let n = sps.log2_max_pic_order_cnt_lsb_minus4 + 4;
    &&& w <= 0xfff8 ==> w <= sps.pic_width_in_luma_samples < w + 8
    &&& h <= 0xfff8 ==> h <= sps.pic_height_in_luma_samples < h + 8
    &&& sps.pic_width_in_luma_samples % 8 == 0
    &&& sps.pic_height_in_luma_samples % 8 == 0
    &&& sps.profile_tier_level.general_profile_idc == config.profile.code()
    &&& vps.profile_tier_level.general_profile_idc == config.profile.code()
    &&& sps.profile_tier_level.general_level_idc == config.level
    &&& vps.profile_tier_level.general_level_idc == config.level
    &&& sps.bit_depth_luma_minus8 > 0 <==> config.profile == Profile::Main10 || config.profile
        == Profile::RangeExtensions
    &&& sps.chroma_format_idc == 2 <==> config.profile == Profile::RangeExtensions
    &&& sps.vui_parameters_present_flag <==> config.color is Some
    &&& config.color matches Some(c) ==> {
        &&& sps.vui_parameters.colour_primaries == c.primaries
        &&& sps.vui_parameters.transfer_characteristics == c.transfer
        &&& sps.vui_parameters.matrix_coeffs == c.matrix
        &&& sps.vui_parameters.video_full_range_flag == c.full_range
    }
    &&& starts_at(tunings, pps.init_qp_minus26 + 26)
    &&& *pps.sps == *sps
    &&& n < 16 ==> 2 * limit <= pow2(n as nat)
    &&& n > 4 ==> pow2((n - 1) as nat) < 2 * limit
}

proof fn lemma_are_for(
    sets: (Rc<Vps>, Rc<Sps>, Rc<Pps>),
    config: EncoderConfig,
    tunings: Tunings,
    limit: u16,
)
    requires
        sets_built(sets, config, tunings, limit),
    ensures
        are_for(sets, config, tunings, limit),
{
    lemma_align_up(config.resolution.width as int, 8);
    lemma_align_up(config.resolution.height as int, 8);
    let need = 2 * if limit == 0 {
        1int
    } else {
        limit as int
    };
    lemma_least_poc_bits(need, 0);
    lemma_least_is_least(need, 0);
    lemma_pow2_values();
}

/// A natural keyframe begins a sequence with parameter sets for the configuration and the tunings
/// in force; a forced one goes on with those there are, and is refused where there are none.
pub proof fn law_keyframe_and_its_sets<P, R>(
    input: P,
    meta: FrameMetadata,
    idr: bool,
    r: Result<BackendRequest<P, R>, EncodeError>,
)
    ensures
        forall|predictor: &mut LowDelayH265<P, R>|
            #[trigger] call_ensures(
                LowDelayH265::<P, R>::request_keyframe,
                (predictor, input, meta, idr),
                r,
            ) ==> {
                &&& r is Err <==> !idr && predictor.sets() is None
                &&& r matches Err(e) ==> e == EncodeError::InvalidInternalState
                &&& r matches Ok(request) ==> {
                    let sets = (request.vps, request.sps, request.pps);
                    &&& final(predictor).sets() == Some(sets)
                    &&& idr ==> are_for(
                        sets,
                        predictor.config(),
                        predictor.tunings,
                        predictor.limit,
                    )
                    &&& !idr ==> predictor.sets() == Some(sets)
                }
                &&& final(predictor).counter == predictor.counter
                &&& final(predictor).references == predictor.references
            },
{
    assert forall|predictor: &mut LowDelayH265<P, R>|
        #[trigger] call_ensures(
            LowDelayH265::<P, R>::request_keyframe,
            (predictor, input, meta, idr),
            r,
        ) && idr implies final(predictor).sets() is Some && are_for(
        final(predictor).sets()->0,
        predictor.config(),
        predictor.tunings,
        predictor.limit,
    ) by {
        lemma_are_for(
            final(predictor).sets()->0,
            predictor.config(),
            predictor.tunings,
            predictor.limit,
        );
    }
}

/// New tunings begin a sequence with parameter sets for the tunings in force; any tunings are
/// accepted.
pub proof fn law_tunings_begin_a_sequence<P, R>(tunings: &Tunings, r: Result<(), EncodeError>)
    ensures
        forall|predictor: &mut LowDelayH265<P, R>|
            #[trigger] call_ensures(
                LowDelayH265::<P, R>::apply_tunings,
                (predictor, tunings),
                r,
            ) ==> {
                &&& r is Ok
                &&& final(predictor).sets() matches Some(sets) && are_for(
                    sets,
                    predictor.config(),
                    predictor.tunings,
                    predictor.limit,
                )
                &&& final(predictor).counter == predictor.counter
                &&& final(predictor).poc_base() == predictor.poc_base()
                &&& final(predictor).references == predictor.references
            },
        forall|predictor: &LowDelayH265<P, R>|
            #[trigger] call_ensures(LowDelayH265::<P, R>::try_tunings, (predictor, tunings), r)
                ==> r is Ok,
{
    assert forall|predictor: &mut LowDelayH265<P, R>|
        #[trigger] call_ensures(
            LowDelayH265::<P, R>::apply_tunings,
            (predictor, tunings),
            r,
        ) implies final(predictor).sets() is Some && are_for(
        final(predictor).sets()->0,
        predictor.config(),
        predictor.tunings,
        predictor.limit,
    ) by {
        lemma_are_for(
            final(predictor).sets()->0,
            predictor.config(),
            predictor.tunings,
            predictor.limit,
        );
    }
}

/// The coded size of any frame: sixteen bits of the least multiple of the smallest coding block
/// that holds it; all else is derived from that multiple itself.
pub proof fn law_coded_size_of_any_frame(
    config: &EncoderConfig,
    tunings: &Tunings,
    limit: u16,
    sets: (Rc<Vps>, Rc<Sps>, Rc<Pps>),
    w: int,
    h: int,
)
    requires
        call_ensures(build_parameter_sets, (config, tunings, limit), sets),
        w % 8 == 0,
        h % 8 == 0,
        config.resolution.width <= w < config.resolution.width + 8,
        config.resolution.height <= h < config.resolution.height + 8,
    ensures
        ({
            let sps = sets.1;
            let (right, bottom) = (
                w - config.resolution.width,
                h - config.resolution.height,
            );
            let rext = config.profile == Profile::RangeExtensions;
            let (cols, lines) = (sps.pic_width_in_ctbs_y as int, sps.pic_height_in_ctbs_y as int);
            &&& (w - sps.pic_width_in_luma_samples) % 0x1_0000 == 0
            &&& (h - sps.pic_height_in_luma_samples) % 0x1_0000 == 0
            &&& sps.conformance_window_flag <==> right > 0 || bottom > 0
            &&& 2 * sps.conf_win_right_offset <= right < 2 * sps.conf_win_right_offset + 2
            &&& rext ==> sps.conf_win_bottom_offset == bottom
            &&& !rext ==> 2 * sps.conf_win_bottom_offset <= bottom < 2 * sps.conf_win_bottom_offset
                + 2
            &&& 32 * cols - 32 < w <= 32 * cols
            &&& 32 * lines - 32 < h <= 32 * lines
            &&& sps.pic_size_in_ctbs_y == cols * lines
            &&& sps.pic_size_in_samples_y == w * h
        }),
{
    let sps = sets.1;
    assert(spec_align_up(config.resolution.width as int, 8) == w);
    assert(spec_align_up(config.resolution.height as int, 8) == h);
    assert(sps.conf_win_right_offset == (w - config.resolution.width) / 2);
    if config.profile == Profile::RangeExtensions {
        assert(sps.conf_win_bottom_offset == (h - config.resolution.height) / 1);
    } else {
        assert(sps.conf_win_bottom_offset == (h - config.resolution.height) / 2);
    }
}

/// Low power asks for the entrypoint for it, and only that.
pub proof fn law_entrypoint(low_power: bool, r: VaEntrypoint)
    requires
        call_ensures(va_entrypoint, (low_power,), r),
    ensures
        low_power <==> r == VaEntrypoint::EncSliceLp,
        !low_power <==> r == VaEntrypoint::EncSlice,
{
}

/// An encoder starts with an empty predictor and empty queues, for the period that its
/// configuration asks for.
pub proof fn law_encoder_starts_empty<B: StatelessH265EncoderBackend>(
    backend: B,
    config: EncoderConfig,
    mode: BlockingMode,
    r: EncodeResult<StatelessEncoder<B>>,
)
    requires
        call_ensures(StatelessEncoder::<B>::new_h265, (backend, config, mode), r),
    ensures
        r is Ok,
        r matches Ok(e) ==> {
            &&& e.backend == backend
            &&& e.blocking_mode == mode
            &&& e.predictor_frame_count == 0
            &&& e.output_queue@.len() == 0
            &&& e.recon_queue@.len() == 0
            &&& e.predictor.config() == config
            &&& e.predictor.tunings == config.initial_tunings
            &&& config.pred_structure == (PredictionStructure::LowDelay {
                limit: e.predictor.limit,
            })
            &&& e.predictor.counter == 0
            &&& e.predictor.poc_base() == 0
            &&& e.predictor.sets() is None
            &&& e.predictor.references@.len() == 0
            &&& e.predictor.queue@.len() == 0
        },
{
}

/// A result of the backend is queued behind those there are, with the metadata of its frame and of
/// its picture; an error queues nothing and is handed on.
pub proof fn law_results_are_queued<B: StatelessH265EncoderBackend>(
    meta: FrameMetadata,
    dpb_meta: DpbEntryMeta,
    result: StatelessBackendResult<(B::ReconPromise, B::CodedPromise)>,
    r: EncodeResult<()>,
)
    ensures
        forall|e: &mut StatelessEncoder<B>|
            #[trigger] call_ensures(
                StatelessEncoder::<B>::enqueue,
                (e, meta, dpb_meta, result),
                r,
            ) ==> {
                let (outputs, pictures) = (final(e).output_queue@, final(e).recon_queue@);
                &&& r is Ok <==> result is Ok
                &&& result matches Ok((recon, bitstream)) ==> {
                    &&& outputs.len() == e.output_queue@.len() + 1
                    &&& outputs.drop_last() == e.output_queue@
                    &&& outputs.last().bitstream == bitstream
                    &&& outputs.last().meta == meta
                    &&& pictures.len() == e.recon_queue@.len() + 1
                    &&& pictures.drop_last() == e.recon_queue@
                    &&& pictures.last().recon == recon
                    &&& pictures.last().dpb_meta == dpb_meta
                }
                &&& result matches Err(x) ==> {
                    &&& r == Err::<(), EncodeError>(EncodeError::Backend(x))
                    &&& outputs == e.output_queue@
                    &&& pictures == e.recon_queue@
                }
            },
{
    assert forall|e: &mut StatelessEncoder<B>|
        #[trigger] call_ensures(
            StatelessEncoder::<B>::enqueue,
            (e, meta, dpb_meta, result),
            r,
        ) && result is Ok implies final(e).output_queue@.drop_last() == e.output_queue@
        && final(e).recon_queue@.drop_last() == e.recon_queue@ by {
        assert(final(e).output_queue@.drop_last() =~= e.output_queue@);
        assert(final(e).recon_queue@.drop_last() =~= e.recon_queue@);
    }
}

/// A request that succeeds leaves one more bitstream and one more picture, with the timestamp of
/// its frame and the picture order count of its picture; one that fails leaves the queues as they
/// were. Either way the predictor holds one frame less.
pub proof fn law_request_leaves_its_results<B: StatelessH265EncoderBackend>(
    request: BackendRequest<B::Picture, B::Reconstructed>,
    r: EncodeResult<()>,
)
    ensures
        forall|e: &mut StatelessEncoder<B>|
            #[trigger] call_ensures(StatelessEncoder::<B>::execute, (e, request), r) ==> {
                let (outputs, pictures) = (final(e).output_queue@, final(e).recon_queue@);
                &&& final(e).predictor_frame_count + 1 == e.predictor_frame_count
                &&& r is Ok ==> {
                    &&& outputs.len() == e.output_queue@.len() + 1
                    &&& outputs.drop_last() == e.output_queue@
                    &&& outputs.last().meta.timestamp == request.input_meta.timestamp
                    &&& outputs.last().meta.force_keyframe == request.input_meta.force_keyframe
                    &&& outputs.last().meta.layout.format == request.input_meta.layout.format
                    &&& outputs.last().meta.layout.size == request.input_meta.layout.size
                    &&& outputs.last().meta.layout.planes@ == request.input_meta.layout.planes@
                    &&& pictures.len() == e.recon_queue@.len() + 1
                    &&& pictures.drop_last() == e.recon_queue@
                    &&& pictures.last().dpb_meta.poc == request.dpb_meta.poc
                    &&& pictures.last().dpb_meta.nalu_type == request.dpb_meta.nalu_type
                }
                &&& r is Err ==> {
                    &&& r->Err_0 is Backend
                    &&& outputs == e.output_queue@
                    &&& pictures == e.recon_queue@
                }
            },
{
    assert forall|e: &mut StatelessEncoder<B>|
        #[trigger] call_ensures(StatelessEncoder::<B>::execute, (e, request), r)
            && r is Ok implies final(e).output_queue@.drop_last() == e.output_queue@
        && final(e).recon_queue@.drop_last() == e.recon_queue@ by {
        let n = e.output_queue@.len() as int;
        assert(final(e).output_queue@.drop_last() =~= final(e).output_queue@.take(n));
        assert(final(e).recon_queue@.drop_last() =~= e.recon_queue@);
    }
}

/// Where a packed header cannot be synthesized, nothing is submitted, and the error is that of the
/// first which cannot: of the video and the sequence parameter set with an IDR picture only, of the
/// picture parameter set, of the slice segment header.
pub proof fn law_first_failing_header_is_told<P, R>(
    request: &BackendRequest<P, R>,
    packed_headers: u32,
    coded_buf: u32,
    recon_surface: u32,
    surfaces: &[u32],
    e: StatelessBackendError,
    results: (
        SynthesizerResult<()>,
        SynthesizerResult<()>,
        SynthesizerResult<()>,
        SynthesizerResult<()>,
    ),
)
    requires
        call_ensures(
            submissions::<P, R>,
            (request, packed_headers, coded_buf, recon_surface, surfaces),
            Err::<Vec<Submission>, StatelessBackendError>(e),
        ),
    ensures
        packed_headers != 0,
        forall|
            vps: &mut Vec<u8>,
            sps: &mut Vec<u8>,
            pps: &mut Vec<u8>,
            slice: &mut Vec<u8>,
        |
            #[trigger] call_ensures(
                Synthesizer::<'_, Vps>::synthesize,
                (&*request.vps, vps, true),
                results.0,
            ) && #[trigger] call_ensures(
                Synthesizer::<'_, Sps>::synthesize,
                (&*request.sps, sps, true),
                results.1,
            ) && #[trigger] call_ensures(
                Synthesizer::<'_, Pps>::synthesize,
                (&*request.pps, pps, true),
                results.2,
            ) && #[trigger] call_ensures(
                Synthesizer::<'_, SliceHeader>::synthesize,
                (request.nalu_type, &request.header, &*request.sps, &*request.pps, slice, true),
                results.3,
            ) ==> {
                let first = if request.is_idr && results.0 is Err {
                    results.0
                } else if request.is_idr && results.1 is Err {
                    results.1
                } else if results.2 is Err {
                    results.2
                } else {
                    results.3
                };
                first matches Err(x) && e == StatelessBackendError::Other(
                    BackendFailure::PackedHeader(x),
                )
            },
{
}

/// A promised picture comes with its picture order count and its type, or with the error of its
/// promise; and is ready when its promise is.
pub proof fn law_picture_comes_with_its_count<P: BackendPromise>(
    p: ReferencePromise<P>,
    ready: bool,
    r: StatelessBackendResult<DpbEntry<P::Output>>,
)
    ensures
        call_ensures(ReferencePromise::<P>::is_ready, (&p,), ready) ==> call_ensures(
            P::is_ready,
            (&p.recon,),
            ready,
        ),
        call_ensures(ReferencePromise::<P>::sync, (p,), r) ==> {
            &&& r matches Ok(entry) ==> {
                &&& entry.meta.poc == p.dpb_meta.poc
                &&& entry.meta.nalu_type == p.dpb_meta.nalu_type
                &&& call_ensures(
                    P::sync,
                    (p.recon,),
                    Ok::<P::Output, StatelessBackendError>(entry.recon_pic),
                )
            }
            &&& r matches Err(e) ==> call_ensures(
                P::sync,
                (p.recon,),
                Err::<P::Output, StatelessBackendError>(e),
            )
        },
{
}

} // verus!
