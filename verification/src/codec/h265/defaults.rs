//! What the structures of a stream hold where nothing is set.

use crate::codec::h265::types::{
    HrdParams, Level, PpsRangeExtension, PpsSccExtension, PredWeightTable, ProfileTierLevel,
    RefPicListModification, ScalingLists, ShortTermRefPicSet, SliceHeader, SliceType, Sps,
    SpsRangeExtension, SpsSccExtension, SublayerHrdParameters, Vps, VuiParams,
};
use vstd::prelude::*;

verus! {

/// Whether nothing is set in the profile, tier and level.
pub open spec fn profile_tier_level_is_empty(v: ProfileTierLevel) -> bool {
    &&& v.general_profile_space == 0
    &&& !v.general_tier_flag
    &&& v.general_profile_idc == 0
    &&& forall|k: int| 0 <= k < 32 ==> !#[trigger] v.general_profile_compatibility_flag@[k]
    &&& !v.general_progressive_source_flag
    &&& !v.general_interlaced_source_flag
    &&& !v.general_non_packed_constraint_flag
    &&& !v.general_frame_only_constraint_flag
    &&& !v.general_max_12bit_constraint_flag
    &&& !v.general_max_10bit_constraint_flag
    &&& !v.general_max_8bit_constraint_flag
    &&& !v.general_max_422chroma_constraint_flag
    &&& !v.general_max_420chroma_constraint_flag
    &&& !v.general_max_monochrome_constraint_flag
    &&& !v.general_intra_constraint_flag
    &&& !v.general_one_picture_only_constraint_flag
    &&& !v.general_lower_bit_rate_constraint_flag
    &&& !v.general_max_14bit_constraint_flag
    &&& !v.general_inbld_flag
    &&& v.general_level_idc == Level::L1
    &&& forall|k: int| 0 <= k < 6 ==> !#[trigger] v.sub_layer_profile_present_flag@[k]
    &&& forall|k: int| 0 <= k < 6 ==> !#[trigger] v.sub_layer_level_present_flag@[k]
    &&& forall|k: int| 0 <= k < 6 ==> #[trigger] v.sub_layer_profile_space@[k] == 0
    &&& forall|k: int| 0 <= k < 6 ==> !#[trigger] v.sub_layer_tier_flag@[k]
    &&& forall|k: int| 0 <= k < 6 ==> #[trigger] v.sub_layer_profile_idc@[k] == 0
    &&& forall|k: int, m: int|
        #![trigger v.sub_layer_profile_compatibility_flag@[k]@[m]]
        0 <= k < 6 && 0 <= m < 32 ==> !v.sub_layer_profile_compatibility_flag@[k]@[m]
    &&& forall|k: int| 0 <= k < 6 ==> !#[trigger] v.sub_layer_progressive_source_flag@[k]
    &&& forall|k: int| 0 <= k < 6 ==> !#[trigger] v.sub_layer_interlaced_source_flag@[k]
    &&& forall|k: int| 0 <= k < 6 ==> !#[trigger] v.sub_layer_non_packed_constraint_flag@[k]
    &&& forall|k: int| 0 <= k < 6 ==> !#[trigger] v.sub_layer_frame_only_constraint_flag@[k]
    &&& forall|k: int| 0 <= k < 6 ==> !#[trigger] v.sub_layer_max_12bit_constraint_flag@[k]
    &&& forall|k: int| 0 <= k < 6 ==> !#[trigger] v.sub_layer_max_10bit_constraint_flag@[k]
    &&& forall|k: int| 0 <= k < 6 ==> !#[trigger] v.sub_layer_max_8bit_constraint_flag@[k]
    &&& forall|k: int| 0 <= k < 6 ==> !#[trigger] v.sub_layer_max_422chroma_constraint_flag@[k]
    &&& forall|k: int| 0 <= k < 6 ==> !#[trigger] v.sub_layer_max_420chroma_constraint_flag@[k]
    &&& forall|k: int| 0 <= k < 6 ==> !#[trigger] v.sub_layer_max_monochrome_constraint_flag@[k]
    &&& forall|k: int| 0 <= k < 6 ==> !#[trigger] v.sub_layer_intra_constraint_flag@[k]
    &&& forall|k: int| 0 <= k < 6 ==> !#[trigger] v.sub_layer_one_picture_only_constraint_flag@[k]
    &&& forall|k: int| 0 <= k < 6 ==> !#[trigger] v.sub_layer_lower_bit_rate_constraint_flag@[k]
    &&& forall|k: int| 0 <= k < 6 ==> !#[trigger] v.sub_layer_max_14bit_constraint_flag@[k]
    &&& forall|k: int| 0 <= k < 6 ==> !#[trigger] v.sub_layer_inbld_flag@[k]
    &&& forall|k: int| 0 <= k < 6 ==> #[trigger] v.sub_layer_level_idc@[k] == Level::L1
}

/// Nothing is set in the default of the profile, tier and level.
pub proof fn law_default_profile_tier_level(v: ProfileTierLevel)
    requires
        call_ensures(ProfileTierLevel::default, (), v),
    ensures
        profile_tier_level_is_empty(v),
{
}

/// Whether nothing is set in scaling lists.
pub open spec fn scaling_lists_is_empty(v: ScalingLists) -> bool {
    &&& forall|k: int, m: int|
        #![trigger v.scaling_list_4x4@[k]@[m]]
        0 <= k < 6 && 0 <= m < 16 ==> v.scaling_list_4x4@[k]@[m] == 0
    &&& forall|k: int, m: int|
        #![trigger v.scaling_list_8x8@[k]@[m]]
        0 <= k < 6 && 0 <= m < 64 ==> v.scaling_list_8x8@[k]@[m] == 0
    &&& forall|k: int, m: int|
        #![trigger v.scaling_list_16x16@[k]@[m]]
        0 <= k < 6 && 0 <= m < 64 ==> v.scaling_list_16x16@[k]@[m] == 0
    &&& forall|k: int, m: int|
        #![trigger v.scaling_list_32x32@[k]@[m]]
        0 <= k < 6 && 0 <= m < 64 ==> v.scaling_list_32x32@[k]@[m] == 0
    &&& forall|k: int| 0 <= k < 6 ==> #[trigger] v.scaling_list_dc_coef_minus8_16x16@[k] == 0
    &&& forall|k: int| 0 <= k < 6 ==> #[trigger] v.scaling_list_dc_coef_minus8_32x32@[k] == 0
}

/// Nothing is set in the default of scaling lists.
pub proof fn law_default_scaling_lists(v: ScalingLists)
    requires
        call_ensures(ScalingLists::default, (), v),
    ensures
        scaling_lists_is_empty(v),
{
}

/// Whether nothing is set in a short-term reference picture set.
pub open spec fn short_term_ref_pic_set_is_empty(v: ShortTermRefPicSet) -> bool {
    &&& !v.inter_ref_pic_set_prediction_flag
    &&& v.num_delta_pocs == 0
    &&& v.num_negative_pics == 0
    &&& v.num_positive_pics == 0
    &&& forall|k: int| 0 <= k < 16 ==> !#[trigger] v.used_by_curr_pic_s0@[k]
    &&& forall|k: int| 0 <= k < 16 ==> !#[trigger] v.used_by_curr_pic_s1@[k]
    &&& forall|k: int| 0 <= k < 16 ==> #[trigger] v.delta_poc_s0@[k] == 0
    &&& forall|k: int| 0 <= k < 16 ==> #[trigger] v.delta_poc_s1@[k] == 0
}

/// Nothing is set in the default of a short-term reference picture set.
pub proof fn law_default_short_term_ref_pic_set(v: ShortTermRefPicSet)
    requires
        call_ensures(ShortTermRefPicSet::default, (), v),
    ensures
        short_term_ref_pic_set_is_empty(v),
{
}

/// Whether nothing is set in the buffers of a sub-layer.
pub open spec fn sublayer_hrd_parameters_is_empty(v: SublayerHrdParameters) -> bool {
    &&& forall|k: int| 0 <= k < 32 ==> #[trigger] v.bit_rate_value_minus1@[k] == 0
    &&& forall|k: int| 0 <= k < 32 ==> #[trigger] v.cpb_size_value_minus1@[k] == 0
    &&& forall|k: int| 0 <= k < 32 ==> #[trigger] v.cpb_size_du_value_minus1@[k] == 0
    &&& forall|k: int| 0 <= k < 32 ==> #[trigger] v.bit_rate_du_value_minus1@[k] == 0
    &&& forall|k: int| 0 <= k < 32 ==> !#[trigger] v.cbr_flag@[k]
}

/// Nothing is set in the default of the buffers of a sub-layer.
pub proof fn law_default_sublayer_hrd_parameters(v: SublayerHrdParameters)
    requires
        call_ensures(SublayerHrdParameters::default, (), v),
    ensures
        sublayer_hrd_parameters_is_empty(v),
{
}

/// Whether nothing is set in HRD parameters.
pub open spec fn hrd_params_is_empty(v: HrdParams) -> bool {
    &&& !v.nal_hrd_parameters_present_flag
    &&& !v.vcl_hrd_parameters_present_flag
    &&& !v.sub_pic_hrd_params_present_flag
    &&& v.tick_divisor_minus2 == 0
    &&& v.du_cpb_removal_delay_increment_length_minus1 == 0
    &&& !v.sub_pic_cpb_params_in_pic_timing_sei_flag
    &&& v.dpb_output_delay_du_length_minus1 == 0
    &&& v.bit_rate_scale == 0
    &&& v.cpb_size_scale == 0
    &&& v.cpb_size_du_scale == 0
    &&& v.initial_cpb_removal_delay_length_minus1 == 23
    &&& v.au_cpb_removal_delay_length_minus1 == 23
    &&& v.dpb_output_delay_length_minus1 == 23
    &&& forall|k: int| 0 <= k < 7 ==> !#[trigger] v.fixed_pic_rate_general_flag@[k]
    &&& forall|k: int| 0 <= k < 7 ==> !#[trigger] v.fixed_pic_rate_within_cvs_flag@[k]
    &&& forall|k: int| 0 <= k < 7 ==> #[trigger] v.elemental_duration_in_tc_minus1@[k] == 0
    &&& forall|k: int| 0 <= k < 7 ==> !#[trigger] v.low_delay_hrd_flag@[k]
    &&& forall|k: int| 0 <= k < 7 ==> #[trigger] v.cpb_cnt_minus1@[k] == 0
    &&& forall|k: int| 0 <= k < 7 ==> sublayer_hrd_parameters_is_empty(#[trigger] v.nal_hrd@[k])
    &&& forall|k: int| 0 <= k < 7 ==> sublayer_hrd_parameters_is_empty(#[trigger] v.vcl_hrd@[k])
}

/// Nothing is set in the default of HRD parameters.
pub proof fn law_default_hrd_params(v: HrdParams)
    requires
        call_ensures(HrdParams::default, (), v),
    ensures
        hrd_params_is_empty(v),
{
}

/// Whether nothing is set in video usability information.
pub open spec fn vui_params_is_empty(v: VuiParams) -> bool {
    &&& !v.aspect_ratio_info_present_flag
    &&& v.aspect_ratio_idc == 0
    &&& v.sar_width == 0
    &&& v.sar_height == 0
    &&& !v.overscan_info_present_flag
    &&& !v.overscan_appropriate_flag
    &&& !v.video_signal_type_present_flag
    &&& v.video_format == 5
    &&& !v.video_full_range_flag
    &&& !v.colour_description_present_flag
    &&& v.colour_primaries == 2
    &&& v.transfer_characteristics == 2
    &&& v.matrix_coeffs == 2
    &&& !v.chroma_loc_info_present_flag
    &&& v.chroma_sample_loc_type_top_field == 0
    &&& v.chroma_sample_loc_type_bottom_field == 0
    &&& !v.neutral_chroma_indication_flag
    &&& !v.field_seq_flag
    &&& !v.frame_field_info_present_flag
    &&& !v.default_display_window_flag
    &&& v.def_disp_win_left_offset == 0
    &&& v.def_disp_win_right_offset == 0
    &&& v.def_disp_win_top_offset == 0
    &&& v.def_disp_win_bottom_offset == 0
    &&& !v.timing_info_present_flag
    &&& v.num_units_in_tick == 0
    &&& v.time_scale == 0
    &&& !v.poc_proportional_to_timing_flag
    &&& v.num_ticks_poc_diff_one_minus1 == 0
    &&& !v.hrd_parameters_present_flag
    &&& hrd_params_is_empty(v.hrd)
    &&& !v.bitstream_restriction_flag
    &&& !v.tiles_fixed_structure_flag
    &&& v.motion_vectors_over_pic_boundaries_flag
    &&& !v.restricted_ref_pic_lists_flag
    &&& v.min_spatial_segmentation_idc == 0
    &&& v.max_bytes_per_pic_denom == 2
    &&& v.max_bits_per_min_cu_denom == 1
    &&& v.log2_max_mv_length_horizontal == 15
    &&& v.log2_max_mv_length_vertical == 15
}

/// Nothing is set in the default of video usability information.
pub proof fn law_default_vui_params(v: VuiParams)
    requires
        call_ensures(VuiParams::default, (), v),
    ensures
        vui_params_is_empty(v),
{
}

/// Whether nothing is set in a video parameter set.
pub open spec fn vps_is_empty(v: Vps) -> bool {
    &&& v.video_parameter_set_id == 0
    &&& !v.base_layer_internal_flag
    &&& !v.base_layer_available_flag
    &&& v.max_layers_minus1 == 0
    &&& v.max_sub_layers_minus1 == 0
    &&& !v.temporal_id_nesting_flag
    &&& profile_tier_level_is_empty(v.profile_tier_level)
    &&& !v.sub_layer_ordering_info_present_flag
    &&& forall|k: int| 0 <= k < 7 ==> #[trigger] v.max_dec_pic_buffering_minus1@[k] == 0
    &&& forall|k: int| 0 <= k < 7 ==> #[trigger] v.max_num_reorder_pics@[k] == 0
    &&& forall|k: int| 0 <= k < 7 ==> #[trigger] v.max_latency_increase_plus1@[k] == 0
    &&& v.max_layer_id == 0
    &&& v.num_layer_sets_minus1 == 0
    &&& !v.timing_info_present_flag
    &&& v.num_units_in_tick == 0
    &&& v.time_scale == 0
    &&& !v.poc_proportional_to_timing_flag
    &&& v.num_ticks_poc_diff_one_minus1 == 0
    &&& v.num_hrd_parameters == 0
    &&& v.hrd_layer_set_idx@.len() == 0
    &&& v.cprms_present_flag@.len() == 0
    &&& v.hrd_parameters@.len() == 0
    &&& !v.extension_flag
}

/// Nothing is set in the default of a video parameter set.
pub proof fn law_default_vps(v: Vps)
    requires
        call_ensures(Vps::default, (), v),
    ensures
        vps_is_empty(v),
{
}

/// Whether nothing is set in the range extension of a sequence.
pub open spec fn sps_range_extension_is_empty(v: SpsRangeExtension) -> bool {
    &&& !v.transform_skip_rotation_enabled_flag
    &&& !v.transform_skip_context_enabled_flag
    &&& !v.implicit_rdpcm_enabled_flag
    &&& !v.explicit_rdpcm_enabled_flag
    &&& !v.extended_precision_processing_flag
    &&& !v.intra_smoothing_disabled_flag
    &&& !v.high_precision_offsets_enabled_flag
    &&& !v.persistent_rice_adaptation_enabled_flag
    &&& !v.cabac_bypass_alignment_enabled_flag
}

/// Nothing is set in the default of the range extension of a sequence.
pub proof fn law_default_sps_range_extension(v: SpsRangeExtension)
    requires
        call_ensures(SpsRangeExtension::default, (), v),
    ensures
        sps_range_extension_is_empty(v),
{
}

/// Whether nothing is set in the screen content extension of a sequence.
pub open spec fn sps_scc_extension_is_empty(v: SpsSccExtension) -> bool {
    &&& !v.curr_pic_ref_enabled_flag
    &&& v.motion_vector_resolution_control_idc == 0
}

/// Nothing is set in the default of the screen content extension of a sequence.
pub proof fn law_default_sps_scc_extension(v: SpsSccExtension)
    requires
        call_ensures(SpsSccExtension::default, (), v),
    ensures
        sps_scc_extension_is_empty(v),
{
}

/// Whether nothing is set in a sequence parameter set.
pub open spec fn sps_is_empty(v: Sps) -> bool {
    &&& v.video_parameter_set_id == 0
    &&& v.max_sub_layers_minus1 == 0
    &&& !v.temporal_id_nesting_flag
    &&& profile_tier_level_is_empty(v.profile_tier_level)
    &&& v.seq_parameter_set_id == 0
    &&& v.chroma_format_idc == 0
    &&& !v.separate_colour_plane_flag
    &&& v.pic_width_in_luma_samples == 0
    &&& v.pic_height_in_luma_samples == 0
    &&& !v.conformance_window_flag
    &&& v.conf_win_left_offset == 0
    &&& v.conf_win_right_offset == 0
    &&& v.conf_win_top_offset == 0
    &&& v.conf_win_bottom_offset == 0
    &&& v.bit_depth_luma_minus8 == 0
    &&& v.bit_depth_chroma_minus8 == 0
    &&& v.log2_max_pic_order_cnt_lsb_minus4 == 0
    &&& !v.sub_layer_ordering_info_present_flag
    &&& forall|k: int| 0 <= k < 7 ==> #[trigger] v.max_dec_pic_buffering_minus1@[k] == 0
    &&& forall|k: int| 0 <= k < 7 ==> #[trigger] v.max_num_reorder_pics@[k] == 0
    &&& forall|k: int| 0 <= k < 7 ==> #[trigger] v.max_latency_increase_plus1@[k] == 0
    &&& v.log2_min_luma_coding_block_size_minus3 == 0
    &&& v.log2_diff_max_min_luma_coding_block_size == 0
    &&& v.log2_min_luma_transform_block_size_minus2 == 0
    &&& v.log2_diff_max_min_luma_transform_block_size == 0
    &&& v.max_transform_hierarchy_depth_inter == 0
    &&& v.max_transform_hierarchy_depth_intra == 0
    &&& !v.scaling_list_enabled_flag
    &&& !v.scaling_list_data_present_flag
    &&& scaling_lists_is_empty(v.scaling_list)
    &&& !v.amp_enabled_flag
    &&& !v.sample_adaptive_offset_enabled_flag
    &&& !v.pcm_enabled_flag
    &&& v.pcm_sample_bit_depth_luma_minus1 == 0
    &&& v.pcm_sample_bit_depth_chroma_minus1 == 0
    &&& v.log2_min_pcm_luma_coding_block_size_minus3 == 0
    &&& v.log2_diff_max_min_pcm_luma_coding_block_size == 0
    &&& !v.pcm_loop_filter_disabled_flag
    &&& v.num_short_term_ref_pic_sets == 0
    &&& v.short_term_ref_pic_set@.len() == 0
    &&& !v.long_term_ref_pics_present_flag
    &&& v.num_long_term_ref_pics_sps == 0
    &&& forall|k: int| 0 <= k < 32 ==> #[trigger] v.lt_ref_pic_poc_lsb_sps@[k] == 0
    &&& forall|k: int| 0 <= k < 32 ==> !#[trigger] v.used_by_curr_pic_lt_sps_flag@[k]
    &&& !v.temporal_mvp_enabled_flag
    &&& !v.strong_intra_smoothing_enabled_flag
    &&& !v.vui_parameters_present_flag
    &&& vui_params_is_empty(v.vui_parameters)
    &&& !v.extension_present_flag
    &&& !v.range_extension_flag
    &&& sps_range_extension_is_empty(v.range_extension)
    &&& !v.scc_extension_flag
    &&& sps_scc_extension_is_empty(v.scc_extension)
    &&& v.chroma_array_type == 0
    &&& v.min_cb_log2_size_y == 0
    &&& v.ctb_log2_size_y == 0
    &&& v.ctb_size_y == 0
    &&& v.pic_width_in_ctbs_y == 0
    &&& v.pic_height_in_ctbs_y == 0
    &&& v.pic_size_in_ctbs_y == 0
    &&& v.pic_size_in_samples_y == 0
    &&& v.max_tb_log2_size_y == 0
    &&& v.vps is None
}

/// Nothing is set in the default of a sequence parameter set.
pub proof fn law_default_sps(v: Sps)
    requires
        call_ensures(Sps::default, (), v),
    ensures
        sps_is_empty(v),
{
}

/// Whether nothing is set in the range extension of a picture.
pub open spec fn pps_range_extension_is_empty(v: PpsRangeExtension) -> bool {
    &&& v.log2_max_transform_skip_block_size_minus2 == 0
    &&& !v.cross_component_prediction_enabled_flag
    &&& !v.chroma_qp_offset_list_enabled_flag
    &&& v.diff_cu_chroma_qp_offset_depth == 0
    &&& v.chroma_qp_offset_list_len_minus1 == 0
    &&& forall|k: int| 0 <= k < 6 ==> #[trigger] v.cb_qp_offset_list@[k] == 0
    &&& forall|k: int| 0 <= k < 6 ==> #[trigger] v.cr_qp_offset_list@[k] == 0
    &&& v.log2_sao_offset_scale_luma == 0
    &&& v.log2_sao_offset_scale_chroma == 0
}

/// Nothing is set in the default of the range extension of a picture.
pub proof fn law_default_pps_range_extension(v: PpsRangeExtension)
    requires
        call_ensures(PpsRangeExtension::default, (), v),
    ensures
        pps_range_extension_is_empty(v),
{
}

/// Whether nothing is set in the screen content extension of a picture.
pub open spec fn pps_scc_extension_is_empty(v: PpsSccExtension) -> bool {
    &&& !v.curr_pic_ref_enabled_flag
    &&& !v.slice_act_qp_offsets_present_flag
}

/// Nothing is set in the default of the screen content extension of a picture.
pub proof fn law_default_pps_scc_extension(v: PpsSccExtension)
    requires
        call_ensures(PpsSccExtension::default, (), v),
    ensures
        pps_scc_extension_is_empty(v),
{
}

/// Whether nothing is set in the modification of the reference picture lists.
pub open spec fn ref_pic_list_modification_is_empty(v: RefPicListModification) -> bool {
    &&& !v.ref_pic_list_modification_flag_l0
    &&& forall|k: int| 0 <= k < 16 ==> #[trigger] v.list_entry_l0@[k] == 0
    &&& !v.ref_pic_list_modification_flag_l1
    &&& forall|k: int| 0 <= k < 16 ==> #[trigger] v.list_entry_l1@[k] == 0
}

/// Nothing is set in the default of the modification of the reference picture lists.
pub proof fn law_default_ref_pic_list_modification(v: RefPicListModification)
    requires
        call_ensures(RefPicListModification::default, (), v),
    ensures
        ref_pic_list_modification_is_empty(v),
{
}

/// Whether nothing is set in a prediction weight table.
pub open spec fn pred_weight_table_is_empty(v: PredWeightTable) -> bool {
    &&& v.luma_log2_weight_denom == 0
    &&& v.delta_chroma_log2_weight_denom == 0
    &&& forall|k: int| 0 <= k < 15 ==> !#[trigger] v.luma_weight_l0_flag@[k]
    &&& forall|k: int| 0 <= k < 15 ==> !#[trigger] v.chroma_weight_l0_flag@[k]
    &&& forall|k: int| 0 <= k < 15 ==> #[trigger] v.delta_luma_weight_l0@[k] == 0
    &&& forall|k: int| 0 <= k < 15 ==> #[trigger] v.luma_offset_l0@[k] == 0
    &&& forall|k: int, m: int|
        #![trigger v.delta_chroma_weight_l0@[k]@[m]]
        0 <= k < 15 && 0 <= m < 2 ==> v.delta_chroma_weight_l0@[k]@[m] == 0
    &&& forall|k: int, m: int|
        #![trigger v.delta_chroma_offset_l0@[k]@[m]]
        0 <= k < 15 && 0 <= m < 2 ==> v.delta_chroma_offset_l0@[k]@[m] == 0
    &&& forall|k: int| 0 <= k < 15 ==> !#[trigger] v.luma_weight_l1_flag@[k]
    &&& forall|k: int| 0 <= k < 15 ==> !#[trigger] v.chroma_weight_l1_flag@[k]
    &&& forall|k: int| 0 <= k < 15 ==> #[trigger] v.delta_luma_weight_l1@[k] == 0
    &&& forall|k: int| 0 <= k < 15 ==> #[trigger] v.luma_offset_l1@[k] == 0
    &&& forall|k: int, m: int|
        #![trigger v.delta_chroma_weight_l1@[k]@[m]]
        0 <= k < 15 && 0 <= m < 2 ==> v.delta_chroma_weight_l1@[k]@[m] == 0
    &&& forall|k: int, m: int|
        #![trigger v.delta_chroma_offset_l1@[k]@[m]]
        0 <= k < 15 && 0 <= m < 2 ==> v.delta_chroma_offset_l1@[k]@[m] == 0
}

/// Nothing is set in the default of a prediction weight table.
pub proof fn law_default_pred_weight_table(v: PredWeightTable)
    requires
        call_ensures(PredWeightTable::default, (), v),
    ensures
        pred_weight_table_is_empty(v),
{
}

/// Whether nothing is set in a slice segment header.
pub open spec fn slice_header_is_empty(v: SliceHeader) -> bool {
    &&& !v.first_slice_segment_in_pic_flag
    &&& !v.no_output_of_prior_pics_flag
    &&& v.pic_parameter_set_id == 0
    &&& !v.dependent_slice_segment_flag
    &&& v.segment_address == 0
    &&& v.type_ == SliceType::I
    &&& v.pic_output_flag
    &&& v.colour_plane_id == 0
    &&& v.pic_order_cnt_lsb == 0
    &&& !v.short_term_ref_pic_set_sps_flag
    &&& short_term_ref_pic_set_is_empty(v.short_term_ref_pic_set)
    &&& v.short_term_ref_pic_set_idx == 0
    &&& v.num_long_term_sps == 0
    &&& v.num_long_term_pics == 0
    &&& forall|k: int| 0 <= k < 16 ==> #[trigger] v.lt_idx_sps@[k] == 0
    &&& forall|k: int| 0 <= k < 16 ==> #[trigger] v.poc_lsb_lt@[k] == 0
    &&& forall|k: int| 0 <= k < 16 ==> !#[trigger] v.used_by_curr_pic_lt@[k]
    &&& forall|k: int| 0 <= k < 16 ==> !#[trigger] v.delta_poc_msb_present_flag@[k]
    &&& forall|k: int| 0 <= k < 16 ==> #[trigger] v.delta_poc_msb_cycle_lt@[k] == 0
    &&& !v.temporal_mvp_enabled_flag
    &&& !v.sao_luma_flag
    &&& !v.sao_chroma_flag
    &&& !v.num_ref_idx_active_override_flag
    &&& v.num_ref_idx_l0_active_minus1 == 0
    &&& v.num_ref_idx_l1_active_minus1 == 0
    &&& ref_pic_list_modification_is_empty(v.ref_pic_list_modification)
    &&& !v.mvd_l1_zero_flag
    &&& !v.cabac_init_flag
    &&& v.collocated_from_l0_flag
    &&& v.collocated_ref_idx == 0
    &&& pred_weight_table_is_empty(v.pred_weight_table)
    &&& v.five_minus_max_num_merge_cand == 0
    &&& !v.use_integer_mv_flag
    &&& v.qp_delta == 0
    &&& v.cb_qp_offset == 0
    &&& v.cr_qp_offset == 0
    &&& v.slice_act_y_qp_offset == 0
    &&& v.slice_act_cb_qp_offset == 0
    &&& v.slice_act_cr_qp_offset == 0
    &&& !v.cu_chroma_qp_offset_enabled_flag
    &&& !v.deblocking_filter_override_flag
    &&& !v.deblocking_filter_disabled_flag
    &&& v.beta_offset_div2 == 0
    &&& v.tc_offset_div2 == 0
    &&& !v.loop_filter_across_slices_enabled_flag
    &&& v.num_entry_point_offsets == 0
    &&& v.offset_len_minus1 == 0
    &&& forall|k: int| 0 <= k < 32 ==> #[trigger] v.entry_point_offset_minus1@[k] == 0
    &&& v.num_pic_total_curr == 0
    &&& v.curr_rps_idx == 0
}

/// Nothing is set in the default of a slice segment header.
pub proof fn law_default_slice_header(v: SliceHeader)
    requires
        call_ensures(SliceHeader::default, (), v),
    ensures
        slice_header_is_empty(v),
{
}

} // verus!
