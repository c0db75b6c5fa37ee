//! The values of what is not coded, and of what is derived from what is.

use crate::bits::{lemma_pow2_pos, pow2};
use crate::codec::h265::defaults::{
    pps_scc_extension_is_empty, pred_weight_table_is_empty, ref_pic_list_modification_is_empty,
    scaling_lists_is_empty, short_term_ref_pic_set_is_empty, sps_scc_extension_is_empty,
    sublayer_hrd_parameters_is_empty,
};
use crate::codec::h265::elements::{law_pic_total_curr, lemma_profiles, profile_among};
use crate::codec::h265::parser::{read_pps, read_slice_header, read_sps, read_vps};
use crate::codec::h265::parser::hrd::{HrdCommon, HrdRow};
use crate::codec::h265::parser::pps::{PpsExtension, PpsFilters, PpsLists, PpsTiles, PpsTools};
use crate::codec::h265::parser::ptl::layer_settled;
use crate::codec::h265::parser::slice::{
    slice_settled, SliceAddress, SliceEnd, SliceFilters, SliceLists, SliceLongTerm, SlicePrediction,
    SliceQp, SliceSao, SliceShortTerm, SliceTypeFields,
};
use crate::codec::h265::parser::sps::{
    SpsExtension, SpsFormat, SpsLongTerm, SpsOrdering, SpsScaling, SpsShortTerm, SpsTools, SpsVui,
};
use crate::codec::h265::parser::vps::{VpsLayers, VpsTiming};
use crate::codec::h265::parser::vui::{
    vui_blank, vui_settled, VuiDisplay, VuiRestriction, VuiSignal, VuiTiming, VuiWindow,
};
use crate::codec::h265::tables::ProfileFields;
use crate::codec::h265::types::{
    HrdParams, Level, NaluType, Pps, ShortTermRefPicSet, SliceHeader, SliceType, Sps, Vps,
    VuiParams,
};
use std::rc::Rc;
use vstd::arithmetic::div_mod::{lemma_fundamental_div_mod, lemma_mod_bound};
use vstd::prelude::*;

verus! {

/// Whether `n` blocks of `size` samples are as many as it takes to hold `length` samples.
pub open spec fn just_holds(n: int, size: int, length: int) -> bool {
    (n - 1) * size < length <= n * size
}

proof fn lemma_just_holds(length: int, size: int)
    requires
        0 <= length,
        0 < size,
    ensures
        just_holds((length + size - 1) / size, size, length),
{
    let total = length + size - 1;
    let n = total / size;
    lemma_fundamental_div_mod(total, size);
    lemma_mod_bound(total, size);
    assert(size * n == n * size) by (nonlinear_arith);
    assert((n - 1) * size == n * size - size) by (nonlinear_arith);
}

/// The picture of a parsed sequence parameter set is divided into just as many coding tree
/// blocks, whose size is a power of two, as hold it; and without separate colour planes the
/// chroma samples are those of the chroma format.
pub proof fn law_sequence_variables(rbsp: &Vec<u8>, vps: Option<Rc<Vps>>, sps: Sps)
    requires
        call_ensures(read_sps, (rbsp, vps), Some(sps)),
    ensures
        sps.min_cb_log2_size_y == sps.log2_min_luma_coding_block_size_minus3 + 3,
        sps.ctb_log2_size_y == sps.min_cb_log2_size_y
            + sps.log2_diff_max_min_luma_coding_block_size,
        sps.ctb_size_y == pow2(sps.ctb_log2_size_y as nat),
        just_holds(
            sps.pic_width_in_ctbs_y as int,
            sps.ctb_size_y as int,
            sps.pic_width_in_luma_samples as int,
        ),
        just_holds(
            sps.pic_height_in_ctbs_y as int,
            sps.ctb_size_y as int,
            sps.pic_height_in_luma_samples as int,
        ),
        sps.pic_size_in_ctbs_y == sps.pic_width_in_ctbs_y * sps.pic_height_in_ctbs_y,
        sps.pic_size_in_samples_y == sps.pic_width_in_luma_samples * sps.pic_height_in_luma_samples,
        sps.max_tb_log2_size_y - sps.log2_diff_max_min_luma_transform_block_size
            == sps.log2_min_luma_transform_block_size_minus2 + 2,
        sps.separate_colour_plane_flag ==> sps.chroma_array_type == 0,
        !sps.separate_colour_plane_flag ==> sps.chroma_array_type == sps.chroma_format_idc,
{
    let ctb = pow2(sps.ctb_log2() as nat) as int;
    lemma_pow2_pos(sps.ctb_log2() as nat);
    lemma_just_holds(sps.pic_width_in_luma_samples as int, ctb);
    lemma_just_holds(sps.pic_height_in_luma_samples as int, ctb);
}

/// The quantizer offset of a parsed picture parameter set: six for each bit of the luma samples
/// over eight.
pub proof fn law_picture_variables(rbsp: &Vec<u8>, sps: Rc<Sps>, pps: Pps)
    requires
        call_ensures(read_pps, (rbsp, sps), Some(pps)),
    ensures
        pps.sps == sps,
        pps.qp_bd_offset_y == 6 * (sps.bit_depth_luma_minus8 + 8) - 48,
{
}

/// What the format, the scaling lists and the tools of a sequence parameter set are where they
/// are not coded.
pub proof fn law_inferred_of_the_sequence(rbsp: &Vec<u8>, vps: Option<Rc<Vps>>, sps: Sps)
    requires
        call_ensures(read_sps, (rbsp, vps), Some(sps)),
    ensures
        sps.chroma_format_idc != 3 ==> !sps.separate_colour_plane_flag,
        !sps.conformance_window_flag ==> {
            &&& sps.conf_win_left_offset == 0
            &&& sps.conf_win_right_offset == 0
            &&& sps.conf_win_top_offset == 0
            &&& sps.conf_win_bottom_offset == 0
        },
        !sps.scaling_list_enabled_flag ==> !sps.scaling_list_data_present_flag,
        !sps.pcm_enabled_flag ==> {
            &&& sps.pcm_sample_bit_depth_luma_minus1 == 0
            &&& sps.pcm_sample_bit_depth_chroma_minus1 == 0
            &&& sps.log2_min_pcm_luma_coding_block_size_minus3 == 0
            &&& sps.log2_diff_max_min_pcm_luma_coding_block_size == 0
            &&& !sps.pcm_loop_filter_disabled_flag
        },
        sps.short_term_ref_pic_set@.len() == sps.num_short_term_ref_pic_sets,
        !sps.long_term_ref_pics_present_flag ==> sps.num_long_term_ref_pics_sps == 0,
        !sps.extension_present_flag ==> !sps.range_extension_flag && !sps.scc_extension_flag,
        !sps.range_extension_flag ==> {
            let e = sps.range_extension;
            &&& !e.transform_skip_rotation_enabled_flag
            &&& !e.transform_skip_context_enabled_flag
            &&& !e.implicit_rdpcm_enabled_flag
            &&& !e.explicit_rdpcm_enabled_flag
            &&& !e.extended_precision_processing_flag
            &&& !e.intra_smoothing_disabled_flag
            &&& !e.high_precision_offsets_enabled_flag
            &&& !e.persistent_rice_adaptation_enabled_flag
            &&& !e.cabac_bypass_alignment_enabled_flag
        },
{
    reveal(SpsFormat::of);
    reveal(SpsFormat::settled);
    reveal(SpsScaling::of);
    reveal(SpsScaling::settled);
    reveal(SpsTools::of);
    reveal(SpsTools::settled);
    reveal(SpsShortTerm::of);
    reveal(SpsShortTerm::settled);
    reveal(SpsLongTerm::of);
    reveal(SpsLongTerm::settled);
    reveal(SpsExtension::of);
    reveal(SpsExtension::settled);
}

/// The buffering of the sub-layers of which it is not coded is zero: of all but the highest,
/// where only that of the highest is coded, and of those that there are not.
pub proof fn law_inferred_sub_layers(rbsp: &Vec<u8>, vps: Option<Rc<Vps>>, sps: Sps, k: int)
    requires
        call_ensures(read_sps, (rbsp, vps), Some(sps)),
        0 <= k < 7,
        k > sps.max_sub_layers_minus1 || (k < sps.max_sub_layers_minus1
            && !sps.sub_layer_ordering_info_present_flag),
    ensures
        sps.max_dec_pic_buffering_minus1@[k] == 0,
        sps.max_num_reorder_pics@[k] == 0,
        sps.max_latency_increase_plus1@[k] == 0,
{
    reveal(SpsOrdering::of);
    reveal(SpsOrdering::settled);
}

/// As [`law_inferred_sub_layers`], of a video parameter set.
pub proof fn law_inferred_sub_layers_of_the_video(rbsp: &Vec<u8>, vps: Vps, k: int)
    requires
        call_ensures(read_vps, (rbsp,), Some(vps)),
        0 <= k < 7,
        k > vps.max_sub_layers_minus1 || (k < vps.max_sub_layers_minus1
            && !vps.sub_layer_ordering_info_present_flag),
    ensures
        vps.max_dec_pic_buffering_minus1@[k] == 0,
        vps.max_num_reorder_pics@[k] == 0,
        vps.max_latency_increase_plus1@[k] == 0,
{
    reveal(VpsLayers::of);
    reveal(VpsLayers::settled);
}

/// Without timing information a video parameter set has no clock and no HRD parameters. Of the
/// HRD parameters the first have common information, and others without it share that of the one
/// before.
pub proof fn law_inferred_timing_of_the_video(rbsp: &Vec<u8>, vps: Vps, k: int)
    requires
        call_ensures(read_vps, (rbsp,), Some(vps)),
        0 <= k < vps.num_hrd_parameters,
    ensures
        vps.timing_info_present_flag,
        vps.hrd_parameters@.len() == vps.num_hrd_parameters,
        k == 0 ==> vps.cprms_present_flag@[k],
        !vps.cprms_present_flag@[k] ==> {
            let (here, before) = (vps.hrd_parameters@[k], vps.hrd_parameters@[k - 1]);
            &&& here.nal_hrd_parameters_present_flag == before.nal_hrd_parameters_present_flag
            &&& here.vcl_hrd_parameters_present_flag == before.vcl_hrd_parameters_present_flag
            &&& here.bit_rate_scale == before.bit_rate_scale
            &&& here.cpb_size_scale == before.cpb_size_scale
            &&& here.initial_cpb_removal_delay_length_minus1
                == before.initial_cpb_removal_delay_length_minus1
            &&& here.au_cpb_removal_delay_length_minus1
                == before.au_cpb_removal_delay_length_minus1
            &&& here.dpb_output_delay_length_minus1 == before.dpb_output_delay_length_minus1
        },
{
    reveal(VpsTiming::of);
    reveal(VpsTiming::settled);
    let hrds = VpsTiming::of(vps).hrds;
    assert(hrds.hrd_parameters@[k] == vps.hrd_parameters@[k]);
}

/// Without timing information a video parameter set has no clock.
pub proof fn law_inferred_clock_of_the_video(rbsp: &Vec<u8>, vps: Vps)
    requires
        call_ensures(read_vps, (rbsp,), Some(vps)),
    ensures
        !vps.timing_info_present_flag ==> {
            &&& vps.num_units_in_tick == 0
            &&& vps.time_scale == 0
            &&& !vps.poc_proportional_to_timing_flag
            &&& vps.num_hrd_parameters == 0
        },
        !vps.poc_proportional_to_timing_flag ==> vps.num_ticks_poc_diff_one_minus1 == 0,
{
    reveal(VpsTiming::of);
    reveal(VpsTiming::settled);
}

/// Whether the usability information has the values that are meant where it is not coded: an
/// unspecified video format and colours, no window, motion vectors over the picture boundaries
/// and of at most 15 bits.
pub open spec fn usability_is_inferred(v: VuiParams) -> bool {
    &&& !v.aspect_ratio_info_present_flag ==> v.aspect_ratio_idc == 0
    &&& !v.aspect_ratio_info_present_flag || v.aspect_ratio_idc != 255 ==> {
        &&& v.sar_width == 0
        &&& v.sar_height == 0
    }
    &&& !v.overscan_info_present_flag ==> !v.overscan_appropriate_flag
    &&& !v.video_signal_type_present_flag ==> {
        &&& v.video_format == 5
        &&& !v.video_full_range_flag
        &&& !v.colour_description_present_flag
    }
    &&& !v.colour_description_present_flag ==> {
        &&& v.colour_primaries == 2
        &&& v.transfer_characteristics == 2
        &&& v.matrix_coeffs == 2
    }
    &&& !v.chroma_loc_info_present_flag ==> {
        &&& v.chroma_sample_loc_type_top_field == 0
        &&& v.chroma_sample_loc_type_bottom_field == 0
    }
    &&& !v.default_display_window_flag ==> {
        &&& v.def_disp_win_left_offset == 0
        &&& v.def_disp_win_right_offset == 0
        &&& v.def_disp_win_top_offset == 0
        &&& v.def_disp_win_bottom_offset == 0
    }
    &&& !v.timing_info_present_flag ==> {
        &&& v.num_units_in_tick == 0
        &&& v.time_scale == 0
        &&& !v.poc_proportional_to_timing_flag
        &&& !v.hrd_parameters_present_flag
    }
    &&& !v.poc_proportional_to_timing_flag ==> v.num_ticks_poc_diff_one_minus1 == 0
    &&& !v.bitstream_restriction_flag ==> {
        &&& !v.tiles_fixed_structure_flag
        &&& v.motion_vectors_over_pic_boundaries_flag
        &&& !v.restricted_ref_pic_lists_flag
        &&& v.min_spatial_segmentation_idc == 0
        &&& v.max_bytes_per_pic_denom == 2
        &&& v.max_bits_per_min_cu_denom == 1
        &&& v.log2_max_mv_length_horizontal == 15
        &&& v.log2_max_mv_length_vertical == 15
    }
}

/// What the usability information of a parsed sequence parameter set is where it is not coded.
pub proof fn law_inferred_usability(rbsp: &Vec<u8>, vps: Option<Rc<Vps>>, sps: Sps)
    requires
        call_ensures(read_sps, (rbsp, vps), Some(sps)),
    ensures
        usability_is_inferred(sps.vui_parameters),
        !sps.vui_parameters_present_flag ==> {
            let v = sps.vui_parameters;
            &&& !v.aspect_ratio_info_present_flag
            &&& !v.overscan_info_present_flag
            &&& !v.video_signal_type_present_flag
            &&& !v.chroma_loc_info_present_flag
            &&& !v.neutral_chroma_indication_flag
            &&& !v.field_seq_flag
            &&& !v.frame_field_info_present_flag
            &&& !v.default_display_window_flag
            &&& !v.timing_info_present_flag
            &&& !v.bitstream_restriction_flag
        },
{
    reveal(SpsVui::of);
    reveal(SpsVui::settled);
    reveal(vui_blank);
    reveal(vui_settled);
    reveal(VuiDisplay::of);
    reveal(VuiDisplay::settled);
    reveal(VuiSignal::of);
    reveal(VuiSignal::settled);
    reveal(VuiWindow::of);
    reveal(VuiWindow::settled);
    reveal(VuiTiming::of);
    reveal(VuiTiming::settled);
    reveal(VuiRestriction::of);
    reveal(VuiRestriction::settled);
}

/// Whether the common information of HRD parameters has the values that are meant where it is not
/// coded: delays of 24 bits, and otherwise zero.
pub open spec fn delays_are_inferred(h: HrdParams) -> bool {
    let coded = h.nal_hrd_parameters_present_flag || h.vcl_hrd_parameters_present_flag;
    &&& !coded ==> {
        &&& !h.sub_pic_hrd_params_present_flag
        &&& h.bit_rate_scale == 0
        &&& h.cpb_size_scale == 0
        &&& h.initial_cpb_removal_delay_length_minus1 + 1 == 24
        &&& h.au_cpb_removal_delay_length_minus1 + 1 == 24
        &&& h.dpb_output_delay_length_minus1 + 1 == 24
    }
    &&& !h.sub_pic_hrd_params_present_flag ==> {
        &&& h.tick_divisor_minus2 == 0
        &&& h.du_cpb_removal_delay_increment_length_minus1 == 0
        &&& !h.sub_pic_cpb_params_in_pic_timing_sei_flag
        &&& h.dpb_output_delay_du_length_minus1 == 0
        &&& h.cpb_size_du_scale == 0
    }
}

/// What the HRD parameters of a parsed sequence parameter set are where they are not coded. A
/// picture rate that is fixed in general is fixed within the sequence too.
pub proof fn law_inferred_delays(rbsp: &Vec<u8>, vps: Option<Rc<Vps>>, sps: Sps)
    requires
        call_ensures(read_sps, (rbsp, vps), Some(sps)),
    ensures
        delays_are_inferred(sps.vui_parameters.hrd),
        forall|k: int|
            #![trigger sps.vui_parameters.hrd.fixed_pic_rate_general_flag@[k]]
            sps.vui_parameters_present_flag && sps.vui_parameters.hrd_parameters_present_flag && 0
                <= k <= sps.max_sub_layers_minus1 ==> {
                let h = sps.vui_parameters.hrd;
                &&& h.fixed_pic_rate_general_flag@[k] ==> h.fixed_pic_rate_within_cvs_flag@[k]
                &&& !h.fixed_pic_rate_within_cvs_flag@[k]
                    ==> h.elemental_duration_in_tc_minus1@[k] == 0
            },
{
    reveal(SpsVui::of);
    reveal(SpsVui::settled);
    reveal(vui_blank);
    reveal(vui_settled);
    reveal(VuiTiming::of);
    reveal(VuiTiming::settled);
    reveal(HrdCommon::settled);
    let h = sps.vui_parameters.hrd;
    assert forall|k: int|
        #![trigger h.fixed_pic_rate_general_flag@[k]]
        sps.vui_parameters_present_flag && sps.vui_parameters.hrd_parameters_present_flag && 0 <= k
            <= sps.max_sub_layers_minus1 implies {
        &&& h.fixed_pic_rate_general_flag@[k] ==> h.fixed_pic_rate_within_cvs_flag@[k]
        &&& !h.fixed_pic_rate_within_cvs_flag@[k] ==> h.elemental_duration_in_tc_minus1@[k] == 0
    } by {
        assert(h.row(k).settled(h.common()));
    }
}

/// What a parsed picture parameter set is where it is not coded: one tile, over whose boundaries
/// the loop filter works; deblocking with no offset; no extension.
pub proof fn law_inferred_of_the_picture(rbsp: &Vec<u8>, sps: Rc<Sps>, pps: Pps)
    requires
        call_ensures(read_pps, (rbsp, sps), Some(pps)),
    ensures
        !pps.cu_qp_delta_enabled_flag ==> pps.diff_cu_qp_delta_depth == 0,
        !pps.tiles_enabled_flag ==> {
            &&& pps.num_tile_columns_minus1 == 0
            &&& pps.num_tile_rows_minus1 == 0
            &&& pps.uniform_spacing_flag
            &&& pps.loop_filter_across_tiles_enabled_flag
        },
        !pps.deblocking_filter_control_present_flag ==> {
            &&& !pps.deblocking_filter_override_enabled_flag
            &&& !pps.deblocking_filter_disabled_flag
        },
        !pps.deblocking_filter_control_present_flag || pps.deblocking_filter_disabled_flag ==> {
            &&& pps.beta_offset_div2 == 0
            &&& pps.tc_offset_div2 == 0
        },
        !pps.extension_present_flag ==> !pps.range_extension_flag && !pps.scc_extension_flag,
        !pps.range_extension_flag || !pps.transform_skip_enabled_flag
            ==> pps.range_extension.log2_max_transform_skip_block_size_minus2 == 0,
        !pps.range_extension_flag ==> {
            &&& !pps.range_extension.cross_component_prediction_enabled_flag
            &&& !pps.range_extension.chroma_qp_offset_list_enabled_flag
            &&& pps.range_extension.log2_sao_offset_scale_luma == 0
            &&& pps.range_extension.log2_sao_offset_scale_chroma == 0
        },
        !pps.range_extension.chroma_qp_offset_list_enabled_flag ==> {
            &&& pps.range_extension.diff_cu_chroma_qp_offset_depth == 0
            &&& pps.range_extension.chroma_qp_offset_list_len_minus1 == 0
        },
{
    reveal(PpsTools::of);
    reveal(PpsTools::settled);
    reveal(PpsTiles::of);
    reveal(PpsTiles::settled);
    reveal(PpsFilters::of);
    reveal(PpsFilters::settled);
    reveal(PpsLists::of);
    reveal(PpsLists::settled);
    reveal(PpsExtension::of);
    reveal(PpsExtension::settled);
}

/// What a parsed slice segment header says of its place and its picture where it is not coded.
/// The first segment is at address zero, is independent, and pictures are output.
pub proof fn law_inferred_of_the_segment(
    rbsp: &Vec<u8>,
    nalu_type: NaluType,
    sps: &Sps,
    pps: &Pps,
    h: SliceHeader,
)
    requires
        call_ensures(read_slice_header, (rbsp, nalu_type, sps, pps), Some(h)),
    ensures
        !(16 <= nalu_type.code() <= 23) ==> !h.no_output_of_prior_pics_flag,
        h.first_slice_segment_in_pic_flag ==> {
            &&& !h.dependent_slice_segment_flag
            &&& h.segment_address == 0
        },
        !pps.dependent_slice_segments_enabled_flag ==> !h.dependent_slice_segment_flag,
        !pps.output_flag_present_flag ==> h.pic_output_flag,
        !sps.separate_colour_plane_flag ==> h.colour_plane_id == 0,
        !(pps.tiles_enabled_flag || pps.entropy_coding_sync_enabled_flag)
            ==> h.num_entry_point_offsets == 0,
        h.num_entry_point_offsets == 0 ==> h.offset_len_minus1 == 0,
{
    reveal(slice_settled);
    reveal(SliceAddress::of);
    reveal(SliceAddress::settled);
    reveal(SliceTypeFields::of);
    reveal(SliceTypeFields::settled);
    reveal(SliceEnd::of);
    reveal(SliceEnd::settled);
}

/// What the reference pictures of a parsed slice segment header are where they are not coded: none
/// for an IDR picture; otherwise the set of the sequence parameter set that the index names, or
/// the one in the header, which counts as the one behind those of the sequence parameter set.
pub proof fn law_inferred_references(
    rbsp: &Vec<u8>,
    nalu_type: NaluType,
    sps: &Sps,
    pps: &Pps,
    h: SliceHeader,
)
    requires
        call_ensures(read_slice_header, (rbsp, nalu_type, sps, pps), Some(h)),
        !h.dependent_slice_segment_flag,
    ensures
        nalu_type == NaluType::IdrWRadl || nalu_type == NaluType::IdrNLp ==> {
            &&& h.pic_order_cnt_lsb == 0
            &&& !h.short_term_ref_pic_set_sps_flag
            &&& h.short_term_ref_pic_set.num_negative_pics == 0
            &&& h.short_term_ref_pic_set.num_positive_pics == 0
            &&& h.num_long_term_sps == 0
            &&& h.num_long_term_pics == 0
            &&& !h.temporal_mvp_enabled_flag
        },
        h.short_term_ref_pic_set_sps_flag ==> {
            &&& h.curr_rps_idx == h.short_term_ref_pic_set_idx
            &&& h.curr_rps_idx < sps.num_short_term_ref_pic_sets
            &&& sps.num_short_term_ref_pic_sets == 1 ==> h.short_term_ref_pic_set_idx == 0
        },
        !h.short_term_ref_pic_set_sps_flag ==> h.short_term_ref_pic_set_idx == 0,
        !h.short_term_ref_pic_set_sps_flag && nalu_type != NaluType::IdrWRadl && nalu_type
            != NaluType::IdrNLp ==> h.curr_rps_idx == sps.num_short_term_ref_pic_sets,
        !sps.long_term_ref_pics_present_flag ==> {
            &&& h.num_long_term_sps == 0
            &&& h.num_long_term_pics == 0
        },
        !sps.temporal_mvp_enabled_flag ==> !h.temporal_mvp_enabled_flag,
        h.num_long_term_sps + h.num_long_term_pics <= 16,
        forall|i: int|
            #![trigger h.poc_lsb_lt@[i]]
            0 <= i < h.num_long_term_sps ==> {
                let k = h.lt_idx_sps@[i] as int;
                &&& k < sps.num_long_term_ref_pics_sps
                &&& h.poc_lsb_lt@[i] == sps.lt_ref_pic_poc_lsb_sps@[k]
                &&& h.used_by_curr_pic_lt@[i] == sps.used_by_curr_pic_lt_sps_flag@[k]
            },
{
    reveal(slice_settled);
    reveal(SliceShortTerm::of);
    reveal(SliceShortTerm::settled);
    reveal(SliceLongTerm::of);
    let idr = nalu_type == NaluType::IdrWRadl || nalu_type == NaluType::IdrNLp;
    assert(nalu_type.idr() == idr);
    assert forall|i: int|
        #![trigger h.poc_lsb_lt@[i]]
        0 <= i < h.num_long_term_sps implies {
        let k = h.lt_idx_sps@[i] as int;
        &&& k < sps.num_long_term_ref_pics_sps
        &&& h.poc_lsb_lt@[i] == sps.lt_ref_pic_poc_lsb_sps@[k]
        &&& h.used_by_curr_pic_lt@[i] == sps.used_by_curr_pic_lt_sps_flag@[k]
    } by {
        assert(h.inferred_lt_row(*sps, i));
        let rows = SliceLongTerm::of(h).rows;
        assert(rows.poc_lsb_lt@[i] == h.poc_lsb_lt@[i]);
    }
}

/// The number of reference pictures of a parsed slice segment header counts those that the
/// current picture uses, itself among them where it is one; a dependent segment counts none.
pub proof fn law_counted_references(
    rbsp: &Vec<u8>,
    nalu_type: NaluType,
    sps: &Sps,
    pps: &Pps,
    h: SliceHeader,
)
    requires
        call_ensures(read_slice_header, (rbsp, nalu_type, sps, pps), Some(h)),
        h.has_references(*sps),
    ensures
        h.dependent_slice_segment_flag ==> h.num_pic_total_curr == 0,
        !h.dependent_slice_segment_flag ==> {
            let set = |b: bool| b;
            let rps = if h.short_term_ref_pic_set_sps_flag {
                sps.short_term_ref_pic_set[h.curr_rps_idx as int]
            } else {
                h.short_term_ref_pic_set
            };
            h.num_pic_total_curr == rps.used_by_curr_pic_s0@.take(
                rps.num_negative_pics as int,
            ).filter(set).len() + rps.used_by_curr_pic_s1@.take(
                rps.num_positive_pics as int,
            ).filter(set).len() + h.used_by_curr_pic_lt@.take(
                h.num_long_term_sps + h.num_long_term_pics,
            ).filter(set).len() + if pps.scc_extension.curr_pic_ref_enabled_flag {
                1int
            } else {
                0int
            }
        },
{
    reveal(slice_settled);
    law_pic_total_curr(h, *sps, *pps);
}

/// What the prediction of a parsed slice segment header is where it is not coded: the numbers of
/// reference pictures of the picture parameter set, and the first picture of the first list for
/// the motion vectors. An intra slice has none of it.
pub proof fn law_inferred_prediction(
    rbsp: &Vec<u8>,
    nalu_type: NaluType,
    sps: &Sps,
    pps: &Pps,
    h: SliceHeader,
)
    requires
        call_ensures(read_slice_header, (rbsp, nalu_type, sps, pps), Some(h)),
    ensures
        h.type_ == SliceType::I || h.dependent_slice_segment_flag ==> {
            &&& !h.num_ref_idx_active_override_flag
            &&& h.five_minus_max_num_merge_cand == 0
            &&& !h.mvd_l1_zero_flag
            &&& !h.cabac_init_flag
        },
        !h.num_ref_idx_active_override_flag ==> {
            &&& h.num_ref_idx_l0_active_minus1 == pps.num_ref_idx_l0_default_active_minus1
            &&& h.num_ref_idx_l1_active_minus1 == pps.num_ref_idx_l1_default_active_minus1
        },
        h.type_ != SliceType::B ==> {
            &&& h.num_ref_idx_l1_active_minus1 == pps.num_ref_idx_l1_default_active_minus1
            &&& !h.mvd_l1_zero_flag
            &&& h.collocated_from_l0_flag
        },
        !pps.cabac_init_present_flag ==> !h.cabac_init_flag,
        !h.temporal_mvp_enabled_flag ==> {
            &&& h.collocated_from_l0_flag
            &&& h.collocated_ref_idx == 0
        },
        h.collocated_from_l0_flag && h.num_ref_idx_l0_active_minus1 == 0
            ==> h.collocated_ref_idx == 0,
        !h.collocated_from_l0_flag && h.num_ref_idx_l1_active_minus1 == 0
            ==> h.collocated_ref_idx == 0,
{
    reveal(slice_settled);
    reveal(SliceTypeFields::of);
    reveal(SliceShortTerm::of);
    reveal(SliceLongTerm::of);
    reveal(SliceLists::of);
    reveal(SliceLists::settled);
    reveal(SlicePrediction::of);
    reveal(SlicePrediction::settled);
}

/// What the offsets and the filters of a parsed slice segment header are where they are not coded:
/// zero, and the deblocking and the loop filter of the picture parameter set.
pub proof fn law_inferred_filters(
    rbsp: &Vec<u8>,
    nalu_type: NaluType,
    sps: &Sps,
    pps: &Pps,
    h: SliceHeader,
)
    requires
        call_ensures(read_slice_header, (rbsp, nalu_type, sps, pps), Some(h)),
    ensures
        !sps.sample_adaptive_offset_enabled_flag ==> !h.sao_luma_flag && !h.sao_chroma_flag,
        sps.chroma_array_type == 0 ==> !h.sao_chroma_flag,
        !pps.slice_chroma_qp_offsets_present_flag ==> h.cb_qp_offset == 0 && h.cr_qp_offset == 0,
        !pps.range_extension.chroma_qp_offset_list_enabled_flag
            ==> !h.cu_chroma_qp_offset_enabled_flag,
        !pps.deblocking_filter_override_enabled_flag ==> !h.deblocking_filter_override_flag,
        !h.deblocking_filter_override_flag ==> {
            &&& h.deblocking_filter_disabled_flag == pps.deblocking_filter_disabled_flag
            &&& h.beta_offset_div2 == pps.beta_offset_div2
            &&& h.tc_offset_div2 == pps.tc_offset_div2
        },
        h.deblocking_filter_disabled_flag ==> {
            &&& h.beta_offset_div2 == pps.beta_offset_div2
            &&& h.tc_offset_div2 == pps.tc_offset_div2
        },
        !pps.loop_filter_across_slices_enabled_flag || (h.deblocking_filter_disabled_flag
            && !h.sao_luma_flag && !h.sao_chroma_flag)
            ==> h.loop_filter_across_slices_enabled_flag
            == pps.loop_filter_across_slices_enabled_flag,
{
    reveal(slice_settled);
    reveal(SliceSao::of);
    reveal(SliceSao::settled);
    reveal(SliceQp::of);
    reveal(SliceQp::settled);
    reveal(SliceFilters::of);
    reveal(SliceFilters::settled);
}

/// Whether a reference picture set counts its pictures, is explicit, and has nothing behind them.
pub open spec fn set_is_tidy(s: ShortTermRefPicSet) -> bool {
    &&& s.num_delta_pocs == s.num_negative_pics + s.num_positive_pics
    &&& !s.inter_ref_pic_set_prediction_flag
    &&& forall|k: int| s.num_negative_pics <= k < 16 ==> #[trigger] s.delta_poc_s0@[k] == 0
    &&& forall|k: int| s.num_negative_pics <= k < 16 ==> !#[trigger] s.used_by_curr_pic_s0@[k]
    &&& forall|k: int| s.num_positive_pics <= k < 16 ==> #[trigger] s.delta_poc_s1@[k] == 0
    &&& forall|k: int| s.num_positive_pics <= k < 16 ==> !#[trigger] s.used_by_curr_pic_s1@[k]
}

/// The reference picture sets of a parsed sequence parameter set count their pictures, and nothing
/// is behind these; nor is anything behind its long-term reference pictures. Scaling lists of the
/// largest size that are not coded are zero.
pub proof fn law_inferred_behind_the_sequence(rbsp: &Vec<u8>, vps: Option<Rc<Vps>>, sps: Sps)
    requires
        call_ensures(read_sps, (rbsp, vps), Some(sps)),
    ensures
        forall|k: int|
            0 <= k < sps.num_short_term_ref_pic_sets ==> set_is_tidy(
                #[trigger] sps.short_term_ref_pic_set@[k],
            ),
        forall|k: int|
            sps.num_long_term_ref_pics_sps <= k < 32 ==> #[trigger] sps.lt_ref_pic_poc_lsb_sps@[k]
                == 0,
        forall|k: int|
            sps.num_long_term_ref_pics_sps <= k < 32
                ==> !#[trigger] sps.used_by_curr_pic_lt_sps_flag@[k],
        !sps.scaling_list_data_present_flag ==> scaling_lists_is_empty(sps.scaling_list),
        forall|k: int, m: int|
            #![trigger sps.scaling_list.scaling_list_32x32@[k]@[m]]
            0 <= k < 6 && k % 3 != 0 && 0 <= m < 64
                ==> sps.scaling_list.scaling_list_32x32@[k]@[m] == 0,
        sps_scc_extension_is_empty(sps.scc_extension),
{
    reveal(SpsShortTerm::of);
    reveal(SpsShortTerm::settled);
    reveal(SpsLongTerm::of);
    reveal(SpsLongTerm::settled);
    reveal(SpsScaling::of);
    reveal(SpsScaling::settled);
    let sets = SpsShortTerm::of(sps).short_term_ref_pic_set;
    assert forall|k: int| 0 <= k < sps.num_short_term_ref_pic_sets implies set_is_tidy(
        #[trigger] sps.short_term_ref_pic_set@[k],
    ) by {
        assert(sets@[k] == sps.short_term_ref_pic_set@[k]);
    }
    let lists = sps.scaling_list.scaling_list_32x32;
    assert forall|k: int, m: int|
        #![trigger lists@[k]@[m]]
        0 <= k < 6 && k % 3 != 0 && 0 <= m < 64 implies lists@[k]@[m] == 0 by {
        if sps.scaling_list_data_present_flag {
            assert(lists@[k] == [0u8; 64usize]);
        }
    }
}

/// The profile of a sub-layer that is not coded is empty, and its level is the lowest; and the
/// constraints of a profile that has none of them are not set.
pub proof fn law_inferred_profiles(rbsp: &Vec<u8>, vps: Option<Rc<Vps>>, sps: Sps, k: int)
    requires
        call_ensures(read_sps, (rbsp, vps), Some(sps)),
        0 <= k < 6,
    ensures
        ({
            let p = sps.profile_tier_level;
            &&& k >= sps.max_sub_layers_minus1 ==> !p.sub_layer_profile_present_flag@[k]
                && !p.sub_layer_level_present_flag@[k]
            &&& !p.sub_layer_level_present_flag@[k] ==> p.sub_layer_level_idc@[k] == Level::L1
            &&& !p.sub_layer_profile_present_flag@[k] ==> {
                &&& p.sub_layer_profile_space@[k] == 0
                &&& !p.sub_layer_tier_flag@[k]
                &&& p.sub_layer_profile_idc@[k] == 0
                &&& !p.sub_layer_progressive_source_flag@[k]
                &&& !p.sub_layer_interlaced_source_flag@[k]
                &&& !p.sub_layer_non_packed_constraint_flag@[k]
                &&& !p.sub_layer_frame_only_constraint_flag@[k]
                &&& !p.sub_layer_max_12bit_constraint_flag@[k]
                &&& !p.sub_layer_max_10bit_constraint_flag@[k]
                &&& !p.sub_layer_max_8bit_constraint_flag@[k]
                &&& !p.sub_layer_max_422chroma_constraint_flag@[k]
                &&& !p.sub_layer_max_420chroma_constraint_flag@[k]
                &&& !p.sub_layer_max_monochrome_constraint_flag@[k]
                &&& !p.sub_layer_intra_constraint_flag@[k]
                &&& !p.sub_layer_one_picture_only_constraint_flag@[k]
                &&& !p.sub_layer_lower_bit_rate_constraint_flag@[k]
                &&& !p.sub_layer_max_14bit_constraint_flag@[k]
                &&& !p.sub_layer_inbld_flag@[k]
            }
        }),
{
    let p = sps.profile_tier_level;
    assert(layer_settled(p.sub_layer_profile_present_flag@[k], p.sub_layer(k)));
}

/// What is behind the tiles of a parsed picture parameter set, and behind its chroma offsets, is
/// zero; and without scaling list data its lists are.
pub proof fn law_inferred_behind_the_picture(rbsp: &Vec<u8>, sps: Rc<Sps>, pps: Pps)
    requires
        call_ensures(read_pps, (rbsp, sps), Some(pps)),
    ensures
        ({
            let coded = !pps.uniform_spacing_flag;
            &&& forall|k: int|
                0 <= k < 19 && (!coded || k >= pps.num_tile_columns_minus1)
                    ==> #[trigger] pps.column_width_minus1@[k] == 0
            &&& forall|k: int|
                0 <= k < 21 && (!coded || k >= pps.num_tile_rows_minus1)
                    ==> #[trigger] pps.row_height_minus1@[k] == 0
            &&& !pps.scaling_list_data_present_flag ==> scaling_lists_is_empty(pps.scaling_list)
            &&& pps_scc_extension_is_empty(pps.scc_extension)
        }),
{
    reveal(PpsTiles::of);
    reveal(PpsTiles::settled);
    reveal(PpsLists::of);
    reveal(PpsLists::settled);
}

/// What is behind the long-term reference pictures and the entry points of a parsed slice segment
/// header is zero. A set of its own counts its pictures; one of the sequence parameter set leaves
/// none in the header. Lists are modified, and predictions weighted, only where that is coded.
pub proof fn law_inferred_behind_the_segment(
    rbsp: &Vec<u8>,
    nalu_type: NaluType,
    sps: &Sps,
    pps: &Pps,
    h: SliceHeader,
)
    requires
        call_ensures(read_slice_header, (rbsp, nalu_type, sps, pps), Some(h)),
    ensures
        forall|k: int|
            h.num_entry_point_offsets <= k < 32 ==> #[trigger] h.entry_point_offset_minus1@[k] == 0,
        h.short_term_ref_pic_set_sps_flag ==> short_term_ref_pic_set_is_empty(
            h.short_term_ref_pic_set,
        ),
        set_is_tidy(h.short_term_ref_pic_set),
        forall|k: int|
            h.num_long_term_sps + h.num_long_term_pics <= k < 16 ==> #[trigger] h.poc_lsb_lt@[k]
                == 0,
        forall|k: int|
            h.num_long_term_sps + h.num_long_term_pics <= k < 16
                ==> !#[trigger] h.used_by_curr_pic_lt@[k],
        forall|k: int|
            h.num_long_term_sps + h.num_long_term_pics <= k < 16
                ==> #[trigger] h.delta_poc_msb_cycle_lt@[k] == 0,
        !pps.lists_modification_present_flag || h.num_pic_total_curr <= 1
            ==> ref_pic_list_modification_is_empty(h.ref_pic_list_modification),
        h.type_ == SliceType::I || (h.type_ == SliceType::P && !pps.weighted_pred_flag) || (h.type_
            == SliceType::B && !pps.weighted_bipred_flag) ==> pred_weight_table_is_empty(
            h.pred_weight_table,
        ),
        sps.scc_extension.motion_vector_resolution_control_idc != 2 ==> !h.use_integer_mv_flag,
{
    reveal(slice_settled);
    reveal(SliceEnd::of);
    reveal(SliceEnd::settled);
    reveal(SliceTypeFields::of);
    reveal(SliceShortTerm::of);
    reveal(SliceShortTerm::settled);
    reveal(SliceLongTerm::of);
    reveal(SliceLists::of);
    reveal(SliceLists::settled);
    reveal(SlicePrediction::of);
    reveal(SlicePrediction::settled);
    let rows = SliceLongTerm::of(h).rows;
    assert(rows.poc_lsb_lt@ == h.poc_lsb_lt@);
}

/// The weights of a picture without a flag for them are zero, in both lists; and there are no flags
/// behind a list.
pub proof fn law_inferred_weights(
    rbsp: &Vec<u8>,
    nalu_type: NaluType,
    sps: &Sps,
    pps: &Pps,
    h: SliceHeader,
    k: int,
)
    requires
        call_ensures(read_slice_header, (rbsp, nalu_type, sps, pps), Some(h)),
        0 <= k < 15,
    ensures
        ({
            let w = h.pred_weight_table;
            &&& !w.luma_weight_l0_flag@[k] ==> w.delta_luma_weight_l0@[k] == 0
                && w.luma_offset_l0@[k] == 0
            &&& !w.luma_weight_l1_flag@[k] ==> w.delta_luma_weight_l1@[k] == 0
                && w.luma_offset_l1@[k] == 0
            &&& !w.chroma_weight_l0_flag@[k] ==> w.delta_chroma_weight_l0@[k]@[0] == 0
                && w.delta_chroma_weight_l0@[k]@[1] == 0
            &&& !w.chroma_weight_l1_flag@[k] ==> w.delta_chroma_weight_l1@[k]@[0] == 0
                && w.delta_chroma_weight_l1@[k]@[1] == 0
            &&& !w.chroma_weight_l0_flag@[k] ==> w.delta_chroma_offset_l0@[k]@[0] == 0
                && w.delta_chroma_offset_l0@[k]@[1] == 0
            &&& !w.chroma_weight_l1_flag@[k] ==> w.delta_chroma_offset_l1@[k]@[0] == 0
                && w.delta_chroma_offset_l1@[k]@[1] == 0
            &&& k > h.num_ref_idx_l0_active_minus1 ==> !w.luma_weight_l0_flag@[k]
                && !w.chroma_weight_l0_flag@[k]
            &&& k > h.num_ref_idx_l1_active_minus1 ==> !w.luma_weight_l1_flag@[k]
                && !w.chroma_weight_l1_flag@[k]
        }),
{
    reveal(slice_settled);
    reveal(SliceTypeFields::of);
    reveal(SliceLists::of);
    reveal(SlicePrediction::of);
    reveal(SlicePrediction::settled);
    let w = h.pred_weight_table;
    assert(w.l0().luma_flag[k] == w.luma_weight_l0_flag@[k]);
    assert(w.l1().luma_flag[k] == w.luma_weight_l1_flag@[k]);
    assert(w.l0().chroma_flag[k] == w.chroma_weight_l0_flag@[k]);
    assert(w.l1().chroma_flag[k] == w.chroma_weight_l1_flag@[k]);
}

/// Whether the constraints that the profile has no flags for are not set: those of the range
/// extensions are coded for the profiles from 4 to 11, that of fourteen bits for the fifth and from
/// 9 on, and the last for a few.
pub open spec fn constraints_are_inferred(p: ProfileFields) -> bool {
    &&& !profile_among(p, 4, 11) ==> {
        &&& !p.max_12bit_constraint_flag
        &&& !p.max_10bit_constraint_flag
        &&& !p.max_8bit_constraint_flag
        &&& !p.max_422chroma_constraint_flag
        &&& !p.max_420chroma_constraint_flag
        &&& !p.max_monochrome_constraint_flag
        &&& !p.intra_constraint_flag
        &&& !p.lower_bit_rate_constraint_flag
        &&& !p.max_14bit_constraint_flag
    }
    &&& !profile_among(p, 2, 2) && !profile_among(p, 4, 11) ==> !p.one_picture_only_constraint_flag
    &&& !profile_among(p, 5, 5) && !profile_among(p, 9, 11) ==> !p.max_14bit_constraint_flag
    &&& !profile_among(p, 1, 5) && !profile_among(p, 9, 9) && !profile_among(p, 11, 11)
        ==> !p.inbld_flag
}

/// The constraints of a parsed sequence parameter set that its profile has no flags for are not
/// set; nor are those of its sub-layers.
pub proof fn law_inferred_constraints(rbsp: &Vec<u8>, vps: Option<Rc<Vps>>, sps: Sps, k: int)
    requires
        call_ensures(read_sps, (rbsp, vps), Some(sps)),
        0 <= k < 6,
    ensures
        constraints_are_inferred(sps.profile_tier_level.general()),
        sps.profile_tier_level.sub_layer_profile_present_flag@[k] ==> constraints_are_inferred(
            sps.profile_tier_level.sub_layer(k),
        ),
{
    let p = sps.profile_tier_level;
    lemma_profiles(p.general());
    lemma_profiles(p.sub_layer(k));
    assert(layer_settled(p.sub_layer_profile_present_flag@[k], p.sub_layer(k)));
}

/// The buffers of a sub-layer are those of the interfaces for which there are parameters, as many
/// as are counted; all else is zero.
pub proof fn law_inferred_buffers(rbsp: &Vec<u8>, vps: Option<Rc<Vps>>, sps: Sps, k: int)
    requires
        call_ensures(read_sps, (rbsp, vps), Some(sps)),
        sps.vui_parameters_present_flag,
        sps.vui_parameters.hrd_parameters_present_flag,
        0 <= k < 7,
    ensures
        ({
            let h = sps.vui_parameters.hrd;
            let n = h.cpb_cnt_minus1@[k] + 1;
            let absent = k > sps.max_sub_layers_minus1;
            &&& absent || !h.nal_hrd_parameters_present_flag ==> sublayer_hrd_parameters_is_empty(
                h.nal_hrd@[k],
            )
            &&& absent || !h.vcl_hrd_parameters_present_flag ==> sublayer_hrd_parameters_is_empty(
                h.vcl_hrd@[k],
            )
            &&& absent ==> {
                &&& !h.fixed_pic_rate_general_flag@[k]
                &&& !h.fixed_pic_rate_within_cvs_flag@[k]
                &&& h.elemental_duration_in_tc_minus1@[k] == 0
                &&& !h.low_delay_hrd_flag@[k]
                &&& h.cpb_cnt_minus1@[k] == 0
            }
            &&& forall|j: int|
                n <= j < 32 ==> #[trigger] h.nal_hrd@[k].bit_rate_value_minus1@[j] == 0
            &&& forall|j: int|
                n <= j < 32 ==> #[trigger] h.nal_hrd@[k].cpb_size_value_minus1@[j] == 0
            &&& forall|j: int| n <= j < 32 ==> !#[trigger] h.nal_hrd@[k].cbr_flag@[j]
            &&& forall|j: int|
                n <= j < 32 ==> #[trigger] h.vcl_hrd@[k].bit_rate_value_minus1@[j] == 0
            &&& forall|j: int|
                n <= j < 32 ==> #[trigger] h.vcl_hrd@[k].cpb_size_value_minus1@[j] == 0
            &&& forall|j: int| n <= j < 32 ==> !#[trigger] h.vcl_hrd@[k].cbr_flag@[j]
            &&& !h.sub_pic_hrd_params_present_flag ==> forall|j: int|
                0 <= j < 32 ==> #[trigger] h.nal_hrd@[k].bit_rate_du_value_minus1@[j] == 0
                    && h.vcl_hrd@[k].bit_rate_du_value_minus1@[j] == 0
        }),
{
    reveal(SpsVui::of);
    reveal(SpsVui::settled);
    reveal(vui_settled);
    reveal(VuiTiming::of);
    reveal(VuiTiming::settled);
    let h = sps.vui_parameters.hrd;
    if k <= sps.max_sub_layers_minus1 {
        assert(h.row(k).settled(h.common()));
    } else {
        assert(h.row(k) == HrdRow::blank());
        assert(h.row(k).nal_hrd == h.nal_hrd@[k]);
        assert(h.row(k).vcl_hrd == h.vcl_hrd@[k]);
    }
}

} // verus!
