//! Parameter sets and slice segment headers through the synthesizer and the parser.

use cros_codecs::codec::h265::nalu::Nalu;
use cros_codecs::codec::h265::parser::Parser;
use cros_codecs::codec::h265::synthesizer::Synthesizer;
use cros_codecs::codec::h265::types::{
    HrdParams, Level, NaluType, Pps, PpsRangeExtension, PpsSccExtension, ProfileTierLevel,
    ScalingLists, ShortTermRefPicSet, SliceHeader, SliceType, Sps, Vps, VuiParams,
};
use std::rc::Rc;

/// Main-profile `profile_tier_level` (single layer).
fn main_ptl() -> ProfileTierLevel {
    let mut compat = [false; 32];
    compat[1] = true;
    ProfileTierLevel {
        general_profile_idc: 1,
        general_profile_compatibility_flag: compat,
        general_progressive_source_flag: true,
        general_frame_only_constraint_flag: true,
        general_level_idc: Level::L4,
        ..Default::default()
    }
}

/// Main10-profile `profile_tier_level` (single layer).
fn main10_ptl() -> ProfileTierLevel {
    let mut compat = [false; 32];
    compat[1] = true;
    compat[2] = true;
    ProfileTierLevel {
        general_profile_idc: 2,
        general_profile_compatibility_flag: compat,
        general_progressive_source_flag: true,
        general_frame_only_constraint_flag: true,
        general_level_idc: Level::L4,
        ..Default::default()
    }
}

/// A LowDelay-shaped SPS: 4:2:0, single sub-layer, CTB 64, no RPS in the
/// SPS (P slices carry their own trivial RPS).
fn make_sps(profile_idc: u8, bit_depth_minus8: u8) -> Sps {
    let ptl = if profile_idc == 2 { main10_ptl() } else { main_ptl() };
    let mut max_dpb = [0u8; 7];
    max_dpb[0] = 4;
    Sps {
        video_parameter_set_id: 0,
        max_sub_layers_minus1: 0,
        temporal_id_nesting_flag: true,
        profile_tier_level: ptl,
        seq_parameter_set_id: 0,
        chroma_format_idc: 1,
        pic_width_in_luma_samples: 320,
        pic_height_in_luma_samples: 240,
        bit_depth_luma_minus8: bit_depth_minus8,
        bit_depth_chroma_minus8: bit_depth_minus8,
        log2_max_pic_order_cnt_lsb_minus4: 4,
        sub_layer_ordering_info_present_flag: true,
        max_dec_pic_buffering_minus1: max_dpb,
        log2_min_luma_coding_block_size_minus3: 0,
        log2_diff_max_min_luma_coding_block_size: 3,
        log2_min_luma_transform_block_size_minus2: 0,
        log2_diff_max_min_luma_transform_block_size: 3,
        sample_adaptive_offset_enabled_flag: true,
        num_short_term_ref_pic_sets: 0,
        temporal_mvp_enabled_flag: true,
        ..Default::default()
    }
}

/// A minimal LowDelay PPS referencing `sps`.
fn make_pps(sps: Rc<Sps>) -> Pps {
    Pps {
        pic_parameter_set_id: 0,
        seq_parameter_set_id: 0,
        dependent_slice_segments_enabled_flag: false,
        output_flag_present_flag: false,
        num_extra_slice_header_bits: 0,
        sign_data_hiding_enabled_flag: false,
        cabac_init_present_flag: false,
        num_ref_idx_l0_default_active_minus1: 0,
        num_ref_idx_l1_default_active_minus1: 0,
        init_qp_minus26: 0,
        constrained_intra_pred_flag: false,
        transform_skip_enabled_flag: false,
        cu_qp_delta_enabled_flag: true,
        diff_cu_qp_delta_depth: 0,
        cb_qp_offset: 0,
        cr_qp_offset: 0,
        slice_chroma_qp_offsets_present_flag: false,
        weighted_pred_flag: false,
        weighted_bipred_flag: false,
        transquant_bypass_enabled_flag: false,
        tiles_enabled_flag: false,
        entropy_coding_sync_enabled_flag: false,
        num_tile_columns_minus1: 0,
        num_tile_rows_minus1: 0,
        uniform_spacing_flag: true,
        column_width_minus1: [0; 19],
        row_height_minus1: [0; 21],
        loop_filter_across_tiles_enabled_flag: true,
        loop_filter_across_slices_enabled_flag: true,
        deblocking_filter_control_present_flag: false,
        deblocking_filter_override_enabled_flag: false,
        deblocking_filter_disabled_flag: false,
        beta_offset_div2: 0,
        tc_offset_div2: 0,
        scaling_list_data_present_flag: false,
        scaling_list: ScalingLists::default(),
        lists_modification_present_flag: false,
        log2_parallel_merge_level_minus2: 0,
        slice_segment_header_extension_present_flag: false,
        extension_present_flag: false,
        range_extension_flag: false,
        range_extension: PpsRangeExtension::default(),
        scc_extension_flag: false,
        scc_extension: PpsSccExtension::default(),
        qp_bd_offset_y: 0,
        sps,
    }
}

fn make_vps() -> Vps {
    let mut max_dpb = [0u32; 7];
    max_dpb[0] = 4;
    Vps {
        video_parameter_set_id: 0,
        base_layer_internal_flag: true,
        base_layer_available_flag: true,
        max_layers_minus1: 0,
        max_sub_layers_minus1: 0,
        temporal_id_nesting_flag: true,
        profile_tier_level: main_ptl(),
        sub_layer_ordering_info_present_flag: true,
        max_dec_pic_buffering_minus1: max_dpb,
        max_layer_id: 0,
        num_layer_sets_minus1: 0,
        timing_info_present_flag: false,
        extension_flag: false,
        ..Default::default()
    }
}

fn synth_vps(vps: &Vps) -> Vec<u8> {
    let mut buf = Vec::new();
    Synthesizer::<'_, Vps>::synthesize(vps, &mut buf, true).unwrap();
    buf
}

fn synth_sps(sps: &Sps) -> Vec<u8> {
    let mut buf = Vec::new();
    Synthesizer::<'_, Sps>::synthesize(sps, &mut buf, true).unwrap();
    buf
}

fn synth_pps(pps: &Pps) -> Vec<u8> {
    let mut buf = Vec::new();
    Synthesizer::<'_, Pps>::synthesize(pps, &mut buf, true).unwrap();
    buf
}

fn parse_vps(buf: &[u8]) -> Vps {
    let nalu = Nalu::next(buf, 0).unwrap();
    assert_eq!(nalu.header.type_, NaluType::VpsNut);
    assert_eq!(nalu.header.nuh_layer_id, 0);
    assert_eq!(nalu.header.nuh_temporal_id_plus1, 1);
    let mut parser = Parser::default();
    (*parser.parse_vps(&nalu).unwrap()).clone()
}

fn parse_sps(buf: &[u8]) -> Sps {
    let nalu = Nalu::next(buf, 0).unwrap();
    assert_eq!(nalu.header.type_, NaluType::SpsNut);
    let mut parser = Parser::default();
    (*parser.parse_sps(&nalu).unwrap()).clone()
}

/// Registers `sps` then parses `pps`, returning the parsed PPS.
fn parse_pps(sps_buf: &[u8], pps_buf: &[u8]) -> Pps {
    let mut parser = Parser::default();

    let sps_nalu = Nalu::next(sps_buf, 0).unwrap();
    parser.parse_sps(&sps_nalu).unwrap();

    let pps_nalu = Nalu::next(pps_buf, 0).unwrap();
    assert_eq!(pps_nalu.header.type_, NaluType::PpsNut);
    (*parser.parse_pps(&pps_nalu).unwrap()).clone()
}

/// Registers the SPS+PPS, returning a `Parser` and clones of the active
/// parameter sets to drive slice-header synthesis.
fn parser_with_sps_pps() -> (Parser, Rc<Sps>, Rc<Pps>) {
    let sps = make_sps(1, 0);
    let sps_buf = synth_sps(&sps);
    let pps = make_pps(Rc::new(sps));
    let pps_buf = synth_pps(&pps);

    let mut parser = Parser::default();
    let sps_nalu = Nalu::next(&sps_buf[..], 0).unwrap();
    parser.parse_sps(&sps_nalu).unwrap();
    let pps_nalu = Nalu::next(&pps_buf[..], 0).unwrap();
    parser.parse_pps(&pps_nalu).unwrap();

    let sps = parser.get_sps(0).unwrap().clone();
    let pps = parser.get_pps(0).unwrap().clone();
    (parser, sps, pps)
}

#[test]
fn synthesize_vps() {
    let vps = make_vps();
    let buf1 = synth_vps(&vps);
    let parsed1 = parse_vps(&buf1);

    assert_eq!(parsed1.video_parameter_set_id, 0);
    assert!(parsed1.base_layer_internal_flag);
    assert!(parsed1.base_layer_available_flag);
    assert_eq!(parsed1.max_sub_layers_minus1, 0);
    assert!(parsed1.temporal_id_nesting_flag);
    assert_eq!(parsed1.profile_tier_level.general_profile_idc, 1);
    assert_eq!(parsed1.profile_tier_level.general_level_idc, Level::L4);
    assert_eq!(parsed1.max_dec_pic_buffering_minus1[0], 4);
    assert!(!parsed1.timing_info_present_flag);

    let buf2 = synth_vps(&parsed1);
    assert_eq!(buf1, buf2, "VPS byte-idempotence");
    assert_eq!(parsed1, parse_vps(&buf2), "VPS struct equality");
}

#[test]
fn synthesize_sps_main() {
    let mut sps = make_sps(1, 0);
    // Exercise the conformance-window path.
    sps.conformance_window_flag = true;
    sps.conf_win_bottom_offset = 1;

    let buf1 = synth_sps(&sps);
    let parsed1 = parse_sps(&buf1);

    assert_eq!(parsed1.profile_tier_level.general_profile_idc, 1);
    assert_eq!(parsed1.profile_tier_level.general_level_idc, Level::L4);
    assert_eq!(parsed1.chroma_format_idc, 1);
    assert_eq!(parsed1.bit_depth_luma_minus8, 0);
    assert_eq!(parsed1.bit_depth_chroma_minus8, 0);
    assert_eq!(parsed1.pic_width_in_luma_samples, 320);
    assert_eq!(parsed1.pic_height_in_luma_samples, 240);
    assert!(parsed1.conformance_window_flag);
    assert_eq!(parsed1.conf_win_bottom_offset, 1);
    assert!(parsed1.sample_adaptive_offset_enabled_flag);
    assert!(parsed1.temporal_mvp_enabled_flag);
    assert_eq!(parsed1.num_short_term_ref_pic_sets, 0);
    assert!(parsed1.vps.is_none());

    let buf2 = synth_sps(&parsed1);
    assert_eq!(buf1, buf2, "SPS byte-idempotence");
    assert_eq!(parsed1, parse_sps(&buf2), "SPS struct equality");
}

#[test]
fn synthesize_sps_main10() {
    let sps = make_sps(2, 2);
    let buf1 = synth_sps(&sps);
    let parsed1 = parse_sps(&buf1);

    assert_eq!(parsed1.profile_tier_level.general_profile_idc, 2);
    assert!(parsed1.profile_tier_level.general_profile_compatibility_flag[2]);
    assert_eq!(parsed1.bit_depth_luma_minus8, 2);
    assert_eq!(parsed1.bit_depth_chroma_minus8, 2);

    let buf2 = synth_sps(&parsed1);
    assert_eq!(buf1, buf2, "Main10 SPS byte-idempotence");
    assert_eq!(parsed1, parse_sps(&buf2), "Main10 SPS struct equality");
}

#[test]
fn synthesize_sps_scaling_lists() {
    let mut sps = make_sps(1, 0);
    sps.scaling_list_enabled_flag = true;
    sps.scaling_list_data_present_flag = true;
    sps.scaling_list = ScalingLists {
        scaling_list_4x4: [[16u8; 16]; 6],
        scaling_list_8x8: [[16u8; 64]; 6],
        scaling_list_16x16: [[16u8; 64]; 6],
        scaling_list_32x32: [[16u8; 64]; 6],
        scaling_list_dc_coef_minus8_16x16: [8i16; 6],
        scaling_list_dc_coef_minus8_32x32: [8i16; 6],
    };

    let buf1 = synth_sps(&sps);
    let parsed1 = parse_sps(&buf1);

    assert!(parsed1.scaling_list_enabled_flag);
    assert!(parsed1.scaling_list_data_present_flag);
    assert_eq!(parsed1.scaling_list.scaling_list_4x4, [[16u8; 16]; 6]);
    assert_eq!(parsed1.scaling_list.scaling_list_8x8, [[16u8; 64]; 6]);
    assert_eq!(parsed1.scaling_list.scaling_list_16x16, [[16u8; 64]; 6]);
    // 32x32 codes only matrix_id 0 and 3.
    assert_eq!(parsed1.scaling_list.scaling_list_32x32[0], [16u8; 64]);
    assert_eq!(parsed1.scaling_list.scaling_list_32x32[3], [16u8; 64]);
    assert_eq!(parsed1.scaling_list.scaling_list_dc_coef_minus8_16x16, [8i16; 6]);

    let buf2 = synth_sps(&parsed1);
    assert_eq!(buf1, buf2, "scaling-list SPS byte-idempotence");
    assert_eq!(parsed1, parse_sps(&buf2), "scaling-list SPS struct equality");
}

#[test]
fn synthesize_sps_vui_hrd() {
    let mut sps = make_sps(1, 0);
    sps.vui_parameters_present_flag = true;

    let mut hrd = HrdParams::default();
    hrd.fixed_pic_rate_general_flag[0] = true;
    hrd.low_delay_hrd_flag[0] = false;
    hrd.cpb_cnt_minus1[0] = 0;

    let mut vui = VuiParams::default();
    vui.video_signal_type_present_flag = true;
    vui.video_format = 5;
    vui.video_full_range_flag = true;
    vui.colour_description_present_flag = true;
    vui.colour_primaries = 9;
    vui.transfer_characteristics = 16;
    vui.matrix_coeffs = 9;
    vui.timing_info_present_flag = true;
    vui.num_units_in_tick = 1000;
    vui.time_scale = 60000;
    vui.hrd_parameters_present_flag = true;
    vui.hrd = hrd;
    sps.vui_parameters = vui;

    let buf1 = synth_sps(&sps);
    let parsed1 = parse_sps(&buf1);

    assert!(parsed1.vui_parameters_present_flag);
    assert!(parsed1.vui_parameters.video_signal_type_present_flag);
    assert!(parsed1.vui_parameters.video_full_range_flag);
    assert_eq!(parsed1.vui_parameters.colour_primaries, 9);
    assert_eq!(parsed1.vui_parameters.transfer_characteristics, 16);
    assert_eq!(parsed1.vui_parameters.matrix_coeffs, 9);
    assert!(parsed1.vui_parameters.timing_info_present_flag);
    assert_eq!(parsed1.vui_parameters.num_units_in_tick, 1000);
    assert_eq!(parsed1.vui_parameters.time_scale, 60000);
    assert!(parsed1.vui_parameters.hrd_parameters_present_flag);
    // §E.2.2: fixed_pic_rate_general_flag == 1 is a spec-compliant HRD in
    // which fixed_pic_rate_within_cvs_flag is not coded but inferred to 1.
    assert!(parsed1.vui_parameters.hrd.fixed_pic_rate_general_flag[0]);
    assert!(
        parsed1.vui_parameters.hrd.fixed_pic_rate_within_cvs_flag[0],
        "within_cvs inferred to 1 when general_flag == 1"
    );
    assert_eq!(parsed1.vui_parameters.hrd.elemental_duration_in_tc_minus1[0], 0);

    let buf2 = synth_sps(&parsed1);
    assert_eq!(buf1, buf2, "VUI/HRD SPS byte-idempotence");
    assert_eq!(parsed1, parse_sps(&buf2), "VUI/HRD SPS struct equality");
}

#[test]
fn synthesize_pps() {
    let sps = make_sps(1, 0);
    let sps_buf = synth_sps(&sps);
    let pps = make_pps(Rc::new(sps));
    let pps_buf1 = synth_pps(&pps);

    let parsed1 = parse_pps(&sps_buf, &pps_buf1);
    assert_eq!(parsed1.pic_parameter_set_id, 0);
    assert_eq!(parsed1.seq_parameter_set_id, 0);
    assert!(parsed1.cu_qp_delta_enabled_flag);
    assert!(!parsed1.tiles_enabled_flag);
    assert!(!parsed1.weighted_pred_flag);
    assert_eq!(parsed1.init_qp_minus26, 0);
    assert!(parsed1.loop_filter_across_slices_enabled_flag);

    let pps_buf2 = synth_pps(&parsed1);
    assert_eq!(pps_buf1, pps_buf2, "PPS byte-idempotence");
    assert_eq!(parsed1, parse_pps(&sps_buf, &pps_buf2), "PPS struct equality");
}

#[test]
fn synthesize_idr_slice_header() {
    let (parser, sps, pps) = parser_with_sps_pps();

    let hdr = SliceHeader {
        first_slice_segment_in_pic_flag: true,
        no_output_of_prior_pics_flag: false,
        pic_parameter_set_id: 0,
        type_: SliceType::I,
        sao_luma_flag: true,
        sao_chroma_flag: true,
        qp_delta: 4,
        loop_filter_across_slices_enabled_flag: true,
        ..Default::default()
    };

    let mut buf1 = Vec::new();
    Synthesizer::<'_, SliceHeader>::synthesize(
        NaluType::IdrWRadl,
        &hdr,
        &sps,
        &pps,
        &mut buf1,
        true,
    )
    .unwrap();

    let nalu = Nalu::next(&buf1[..], 0).unwrap();
    assert_eq!(nalu.header.type_, NaluType::IdrWRadl);
    let parsed1 = parser.parse_slice_header(nalu).unwrap().header;

    assert!(parsed1.first_slice_segment_in_pic_flag);
    assert!(!parsed1.no_output_of_prior_pics_flag);
    assert_eq!(parsed1.type_, SliceType::I);
    assert!(parsed1.sao_luma_flag);
    assert!(parsed1.sao_chroma_flag);
    assert_eq!(parsed1.qp_delta, 4);

    let mut buf2 = Vec::new();
    Synthesizer::<'_, SliceHeader>::synthesize(
        NaluType::IdrWRadl,
        &parsed1,
        &sps,
        &pps,
        &mut buf2,
        true,
    )
    .unwrap();
    assert_eq!(buf1, buf2, "IDR slice byte-idempotence");

    let nalu2 = Nalu::next(&buf2[..], 0).unwrap();
    let parsed2 = parser.parse_slice_header(nalu2).unwrap().header;
    assert_eq!(parsed1, parsed2, "IDR slice struct equality");
}

#[test]
fn synthesize_p_slice_header() {
    let (parser, sps, pps) = parser_with_sps_pps();

    // Trivial LowDelay RPS: one negative ref, delta_poc_s0_minus1 == 0.
    let mut rps = ShortTermRefPicSet::default();
    rps.num_negative_pics = 1;
    rps.num_positive_pics = 0;
    rps.delta_poc_s0[0] = -1;
    rps.used_by_curr_pic_s0[0] = true;
    rps.num_delta_pocs = 1;

    let hdr = SliceHeader {
        first_slice_segment_in_pic_flag: true,
        pic_parameter_set_id: 0,
        type_: SliceType::P,
        pic_order_cnt_lsb: 1,
        short_term_ref_pic_set_sps_flag: false,
        short_term_ref_pic_set: rps,
        temporal_mvp_enabled_flag: true,
        sao_luma_flag: true,
        sao_chroma_flag: true,
        num_ref_idx_active_override_flag: false,
        five_minus_max_num_merge_cand: 3,
        qp_delta: 4,
        loop_filter_across_slices_enabled_flag: true,
        ..Default::default()
    };

    let mut buf1 = Vec::new();
    Synthesizer::<'_, SliceHeader>::synthesize(
        NaluType::TrailR,
        &hdr,
        &sps,
        &pps,
        &mut buf1,
        true,
    )
    .unwrap();

    let nalu = Nalu::next(&buf1[..], 0).unwrap();
    assert_eq!(nalu.header.type_, NaluType::TrailR);
    let parsed1 = parser.parse_slice_header(nalu).unwrap().header;

    assert_eq!(parsed1.type_, SliceType::P);
    assert_eq!(parsed1.pic_order_cnt_lsb, 1);
    assert!(!parsed1.short_term_ref_pic_set_sps_flag);
    assert_eq!(parsed1.short_term_ref_pic_set.num_negative_pics, 1);
    assert_eq!(parsed1.short_term_ref_pic_set.num_positive_pics, 0);
    assert_eq!(parsed1.short_term_ref_pic_set.delta_poc_s0[0], -1);
    assert!(parsed1.short_term_ref_pic_set.used_by_curr_pic_s0[0]);
    assert_eq!(parsed1.num_pic_total_curr, 1);
    assert_eq!(parsed1.five_minus_max_num_merge_cand, 3);
    assert_eq!(parsed1.qp_delta, 4);

    let mut buf2 = Vec::new();
    Synthesizer::<'_, SliceHeader>::synthesize(
        NaluType::TrailR,
        &parsed1,
        &sps,
        &pps,
        &mut buf2,
        true,
    )
    .unwrap();
    assert_eq!(buf1, buf2, "P slice byte-idempotence");

    let nalu2 = Nalu::next(&buf2[..], 0).unwrap();
    let parsed2 = parser.parse_slice_header(nalu2).unwrap().header;
    assert_eq!(parsed1, parsed2, "P slice struct equality");
}

/// Registers `sps` + `pps` in a fresh parser, returning it with the active
/// parameter sets to drive slice-header synthesis.
fn register(sps: &Sps, pps: &Pps) -> (Parser, Rc<Sps>, Rc<Pps>) {
    let sps_buf = synth_sps(sps);
    let pps_buf = synth_pps(pps);

    let mut parser = Parser::default();
    let sps_nalu = Nalu::next(&sps_buf[..], 0).unwrap();
    parser.parse_sps(&sps_nalu).unwrap();
    let pps_nalu = Nalu::next(&pps_buf[..], 0).unwrap();
    parser.parse_pps(&pps_nalu).unwrap();

    let sps = parser.get_sps(0).unwrap().clone();
    let pps = parser.get_pps(0).unwrap().clone();
    (parser, sps, pps)
}

/// The sub-layer PTL profile block gates on
/// `sub_layer_profile_present_flag[i]` (§7.3.3), not the level-present flag.
/// Drives the case `profile_present = true, level_present = false`, in which
/// the two flags disagree: the profile block is written and read, so `sub_layer_profile_idc[0]` survives the round-trip.
#[test]
fn synthesize_sps_sub_layer_ptl() {
    let mut sps = make_sps(1, 0);
    sps.max_sub_layers_minus1 = 1;
    sps.max_dec_pic_buffering_minus1[1] = 4;

    let ptl = &mut sps.profile_tier_level;
    ptl.sub_layer_profile_present_flag[0] = true;
    ptl.sub_layer_level_present_flag[0] = false;
    ptl.sub_layer_profile_idc[0] = 1;
    ptl.sub_layer_profile_compatibility_flag[0][1] = true;
    ptl.sub_layer_progressive_source_flag[0] = true;
    ptl.sub_layer_frame_only_constraint_flag[0] = true;

    let buf1 = synth_sps(&sps);
    let parsed1 = parse_sps(&buf1);

    let pptl = &parsed1.profile_tier_level;
    assert!(pptl.sub_layer_profile_present_flag[0]);
    assert!(!pptl.sub_layer_level_present_flag[0]);
    assert_eq!(pptl.sub_layer_profile_idc[0], 1);
    assert!(pptl.sub_layer_profile_compatibility_flag[0][1]);
    assert!(pptl.sub_layer_progressive_source_flag[0]);
    assert!(pptl.sub_layer_frame_only_constraint_flag[0]);

    let buf2 = synth_sps(&parsed1);
    assert_eq!(buf1, buf2, "sub-layer PTL SPS byte-idempotence");
    assert_eq!(parsed1, parse_sps(&buf2), "sub-layer PTL SPS struct equality");
}

/// The writer inverts the parser's accumulated
/// `DeltaPocMsbCycleLt` (eq. 7-52) using the immediately-preceding array
/// element. Drives long-term refs straddling the `num_long_term_sps`
/// boundary with a present/absent/present pattern.
#[test]
fn synthesize_p_slice_long_term_refs() {
    let mut sps = make_sps(1, 0);
    sps.long_term_ref_pics_present_flag = true;
    sps.num_long_term_ref_pics_sps = 1;
    sps.lt_ref_pic_poc_lsb_sps[0] = 8;
    sps.used_by_curr_pic_lt_sps_flag[0] = true;

    let pps = make_pps(Rc::new(sps.clone()));
    let (parser, sps, pps) = register(&sps, &pps);

    let mut rps = ShortTermRefPicSet::default();
    rps.num_negative_pics = 1;
    rps.num_positive_pics = 0;
    rps.delta_poc_s0[0] = -1;
    rps.used_by_curr_pic_s0[0] = true;
    rps.num_delta_pocs = 1;

    let mut hdr = SliceHeader {
        first_slice_segment_in_pic_flag: true,
        pic_parameter_set_id: 0,
        type_: SliceType::P,
        pic_order_cnt_lsb: 2,
        short_term_ref_pic_set_sps_flag: false,
        short_term_ref_pic_set: rps,
        num_long_term_sps: 1,
        num_long_term_pics: 2,
        temporal_mvp_enabled_flag: false,
        sao_luma_flag: true,
        sao_chroma_flag: true,
        num_ref_idx_active_override_flag: false,
        five_minus_max_num_merge_cand: 3,
        qp_delta: 4,
        loop_filter_across_slices_enabled_flag: true,
        ..Default::default()
    };
    // i == 0: SPS-based LT ref, present. Accumulated == coded (reset at i==0).
    hdr.used_by_curr_pic_lt[0] = true;
    hdr.delta_poc_msb_present_flag[0] = true;
    hdr.delta_poc_msb_cycle_lt[0] = 2;
    // i == 1: explicit LT ref, absent. i == num_long_term_sps -> reset point.
    hdr.poc_lsb_lt[1] = 5;
    hdr.used_by_curr_pic_lt[1] = false;
    hdr.delta_poc_msb_present_flag[1] = false;
    // i == 2: explicit LT ref, present. Accumulated = coded(3) + arr[1](0).
    hdr.poc_lsb_lt[2] = 6;
    hdr.used_by_curr_pic_lt[2] = true;
    hdr.delta_poc_msb_present_flag[2] = true;
    hdr.delta_poc_msb_cycle_lt[2] = 3;

    let mut buf1 = Vec::new();
    Synthesizer::<'_, SliceHeader>::synthesize(
        NaluType::TrailR,
        &hdr,
        &sps,
        &pps,
        &mut buf1,
        true,
    )
    .unwrap();

    let nalu = Nalu::next(&buf1[..], 0).unwrap();
    let parsed1 = parser.parse_slice_header(nalu).unwrap().header;

    assert_eq!(parsed1.num_long_term_sps, 1);
    assert_eq!(parsed1.num_long_term_pics, 2);
    assert!(parsed1.delta_poc_msb_present_flag[0]);
    assert_eq!(parsed1.delta_poc_msb_cycle_lt[0], 2);
    assert!(!parsed1.delta_poc_msb_present_flag[1]);
    assert_eq!(parsed1.delta_poc_msb_cycle_lt[1], 0);
    assert!(parsed1.delta_poc_msb_present_flag[2]);
    // The difference is to the element just before, which is absent, and not to
    // the last one that is present.
    assert_eq!(parsed1.delta_poc_msb_cycle_lt[2], 3);

    let mut buf2 = Vec::new();
    Synthesizer::<'_, SliceHeader>::synthesize(
        NaluType::TrailR,
        &parsed1,
        &sps,
        &pps,
        &mut buf2,
        true,
    )
    .unwrap();
    assert_eq!(buf1, buf2, "LT-ref P slice byte-idempotence");

    let nalu2 = Nalu::next(&buf2[..], 0).unwrap();
    let parsed2 = parser.parse_slice_header(nalu2).unwrap().header;
    assert_eq!(parsed1, parsed2, "LT-ref P slice struct equality");
}

/// The L1 `chroma_weight` flag loop gates on ChromaArrayType
/// (§7.3.6.3), matching L0. Drives a weighted-bipred B slice with
/// `separate_colour_plane_flag = 1` (chroma_format_idc = 3, ChromaArrayType
/// = 0), the one config where the two gates disagree: the L1 chroma flags
/// must be absent.
#[test]
fn synthesize_b_slice_pred_weight_separate_colour_plane() {
    let mut sps = make_sps(1, 0);
    sps.chroma_format_idc = 3;
    sps.separate_colour_plane_flag = true;
    sps.temporal_mvp_enabled_flag = false;

    let mut pps = make_pps(Rc::new(sps.clone()));
    pps.weighted_bipred_flag = true;

    let (parser, sps, pps) = register(&sps, &pps);
    assert_eq!(sps.chroma_array_type, 0);

    let mut rps = ShortTermRefPicSet::default();
    rps.num_negative_pics = 1;
    rps.num_positive_pics = 0;
    rps.delta_poc_s0[0] = -1;
    rps.used_by_curr_pic_s0[0] = true;
    rps.num_delta_pocs = 1;

    let mut hdr = SliceHeader {
        first_slice_segment_in_pic_flag: true,
        pic_parameter_set_id: 0,
        type_: SliceType::B,
        pic_order_cnt_lsb: 2,
        short_term_ref_pic_set_sps_flag: false,
        short_term_ref_pic_set: rps,
        colour_plane_id: 0,
        sao_luma_flag: true,
        num_ref_idx_active_override_flag: false,
        mvd_l1_zero_flag: false,
        five_minus_max_num_merge_cand: 3,
        qp_delta: 4,
        loop_filter_across_slices_enabled_flag: true,
        ..Default::default()
    };
    // Luma-only weights (ChromaArrayType == 0 => no chroma flags/weights).
    hdr.pred_weight_table.luma_weight_l0_flag[0] = true;
    hdr.pred_weight_table.delta_luma_weight_l0[0] = 1;
    hdr.pred_weight_table.luma_offset_l0[0] = 2;
    hdr.pred_weight_table.luma_weight_l1_flag[0] = true;
    hdr.pred_weight_table.delta_luma_weight_l1[0] = -1;
    hdr.pred_weight_table.luma_offset_l1[0] = 3;

    let mut buf1 = Vec::new();
    Synthesizer::<'_, SliceHeader>::synthesize(
        NaluType::TrailR,
        &hdr,
        &sps,
        &pps,
        &mut buf1,
        true,
    )
    .unwrap();

    let nalu = Nalu::next(&buf1[..], 0).unwrap();
    let parsed1 = parser.parse_slice_header(nalu).unwrap().header;

    assert_eq!(parsed1.type_, SliceType::B);
    assert!(parsed1.pred_weight_table.luma_weight_l0_flag[0]);
    assert!(parsed1.pred_weight_table.luma_weight_l1_flag[0]);
    assert_eq!(parsed1.pred_weight_table.delta_luma_weight_l1[0], -1);
    assert_eq!(parsed1.pred_weight_table.luma_offset_l1[0], 3);
    // ChromaArrayType == 0 => no L1 (or L0) chroma weight flags coded.
    assert!(!parsed1.pred_weight_table.chroma_weight_l1_flag[0]);
    assert!(!parsed1.pred_weight_table.chroma_weight_l0_flag[0]);

    let mut buf2 = Vec::new();
    Synthesizer::<'_, SliceHeader>::synthesize(
        NaluType::TrailR,
        &parsed1,
        &sps,
        &pps,
        &mut buf2,
        true,
    )
    .unwrap();
    assert_eq!(buf1, buf2, "separate-colour-plane B slice byte-idempotence");

    let nalu2 = Nalu::next(&buf2[..], 0).unwrap();
    let parsed2 = parser.parse_slice_header(nalu2).unwrap().header;
    assert_eq!(parsed1, parsed2, "separate-colour-plane B slice struct equality");
}
