//! Exact bytes, errors and edge cases of the H.265 synthesizer, the NAL unit finder and the
//! parser.

use cros_codecs::codec::h265::nalu::{Nalu, NaluError};
use cros_codecs::codec::h265::parser::{ParseError, Parser};
use cros_codecs::codec::h265::synthesizer::{Synthesizer, SynthesizerError};
use cros_codecs::codec::h265::types::{
    HrdParams, Level, NaluType, Pps, PpsRangeExtension, PpsSccExtension, ProfileTierLevel,
    ScalingLists, ShortTermRefPicSet, SliceHeader, SliceType, Sps, Vps,
};
use cros_codecs::codec::nalu_writer::{NaluWriter, NaluWriterError};
use std::rc::Rc;

fn vps() -> Vps {
    let mut compat = [false; 32];
    compat[1] = true;
    let mut vps = Vps {
        base_layer_internal_flag: true,
        base_layer_available_flag: true,
        temporal_id_nesting_flag: true,
        profile_tier_level: ProfileTierLevel {
            general_profile_idc: 1,
            general_profile_compatibility_flag: compat,
            general_progressive_source_flag: true,
            general_frame_only_constraint_flag: true,
            general_level_idc: Level::L4,
            ..Default::default()
        },
        sub_layer_ordering_info_present_flag: true,
        ..Default::default()
    };
    vps.max_dec_pic_buffering_minus1[0] = 4;
    vps
}

fn sps() -> Sps {
    Sps {
        profile_tier_level: vps().profile_tier_level,
        chroma_format_idc: 1,
        chroma_array_type: 1,
        pic_width_in_luma_samples: 64,
        pic_height_in_luma_samples: 64,
        log2_max_pic_order_cnt_lsb_minus4: 4,
        sub_layer_ordering_info_present_flag: true,
        log2_diff_max_min_luma_coding_block_size: 2,
        log2_diff_max_min_luma_transform_block_size: 3,
        ..Default::default()
    }
}

fn pps(sps: Sps) -> Pps {
    Pps {
        pic_parameter_set_id: 0,
        seq_parameter_set_id: 0,
        dependent_slice_segments_enabled_flag: false,
        output_flag_present_flag: false,
        num_extra_slice_header_bits: 0,
        sign_data_hiding_enabled_flag: false,
        cabac_init_present_flag: false,
        num_ref_idx_l0_default_active_minus1: 0,
        num_ref_idx_l1_default_active_minus1: 0,
        init_qp_minus26: 0,
        constrained_intra_pred_flag: false,
        transform_skip_enabled_flag: false,
        cu_qp_delta_enabled_flag: false,
        diff_cu_qp_delta_depth: 0,
        cb_qp_offset: 0,
        cr_qp_offset: 0,
        slice_chroma_qp_offsets_present_flag: false,
        weighted_pred_flag: false,
        weighted_bipred_flag: false,
        transquant_bypass_enabled_flag: false,
        tiles_enabled_flag: false,
        entropy_coding_sync_enabled_flag: false,
        num_tile_columns_minus1: 0,
        num_tile_rows_minus1: 0,
        uniform_spacing_flag: true,
        column_width_minus1: [0; 19],
        row_height_minus1: [0; 21],
        loop_filter_across_tiles_enabled_flag: true,
        loop_filter_across_slices_enabled_flag: false,
        deblocking_filter_control_present_flag: false,
        deblocking_filter_override_enabled_flag: false,
        deblocking_filter_disabled_flag: false,
        beta_offset_div2: 0,
        tc_offset_div2: 0,
        scaling_list_data_present_flag: false,
        scaling_list: ScalingLists::default(),
        lists_modification_present_flag: false,
        log2_parallel_merge_level_minus2: 0,
        slice_segment_header_extension_present_flag: false,
        extension_present_flag: false,
        range_extension_flag: false,
        range_extension: PpsRangeExtension::default(),
        scc_extension_flag: false,
        scc_extension: PpsSccExtension::default(),
        qp_bd_offset_y: 0,
        sps: Rc::new(sps),
    }
}

fn synth_sps(sps: &Sps) -> Vec<u8> {
    let mut buf = Vec::new();
    Synthesizer::<'_, Sps>::synthesize(sps, &mut buf, true).unwrap();
    buf
}

fn synth_pps(pps: &Pps) -> Vec<u8> {
    let mut buf = Vec::new();
    Synthesizer::<'_, Pps>::synthesize(pps, &mut buf, true).unwrap();
    buf
}

#[test]
fn vps_bytes_with_and_without_emulation_prevention() {
    let mut escaped = Vec::new();
    Synthesizer::<'_, Vps>::synthesize(&vps(), &mut escaped, true).unwrap();
    assert_eq!(
        escaped,
        vec![
            0x00, 0x00, 0x00, 0x01, 0x40, 0x01, 0x0c, 0x01, 0xff, 0xff, 0x01, 0x40, 0x00, 0x00,
            0x03, 0x00, 0x90, 0x00, 0x00, 0x03, 0x00, 0x00, 0x03, 0x00, 0x78, 0x97, 0x02, 0x40
        ]
    );
    let mut plain = Vec::new();
    Synthesizer::<'_, Vps>::synthesize(&vps(), &mut plain, false).unwrap();
    assert_eq!(
        plain,
        vec![
            0x00, 0x00, 0x00, 0x01, 0x40, 0x01, 0x0c, 0x01, 0xff, 0xff, 0x01, 0x40, 0x00, 0x00,
            0x00, 0x90, 0x00, 0x00, 0x00, 0x00, 0x00, 0x78, 0x97, 0x02, 0x40
        ]
    );
}

#[test]
fn synthesize_appends() {
    let mut buf = vec![7u8, 8];
    Synthesizer::<'_, Vps>::synthesize(&vps(), &mut buf, true).unwrap();
    assert_eq!(&buf[..6], &[7, 8, 0, 0, 0, 1]);
}

#[test]
fn no_start_code_behind_the_first() {
    let mut buf = Vec::new();
    Synthesizer::<'_, Vps>::synthesize(&vps(), &mut buf, true).unwrap();
    for i in 2..buf.len() - 2 {
        assert!(!(buf[i] == 0 && buf[i + 1] == 0 && buf[i + 2] <= 2));
    }
}

#[test]
fn a_predicted_reference_picture_set_is_unsupported() {
    let mut sps = sps();
    sps.num_short_term_ref_pic_sets = 2;
    sps.short_term_ref_pic_set = vec![
        ShortTermRefPicSet::default(),
        ShortTermRefPicSet { inter_ref_pic_set_prediction_flag: true, ..Default::default() },
    ];
    let mut buf = Vec::new();
    let r = Synthesizer::<'_, Sps>::synthesize(&sps, &mut buf, true);
    assert_eq!(r, Err(SynthesizerError::Unsupported));
    assert_eq!(r.unwrap_err().message(), "tried to synthesize unsupported settings");
}

#[test]
fn screen_content_extensions_are_unsupported() {
    let mut s = sps();
    s.extension_present_flag = true;
    s.scc_extension_flag = true;
    let mut buf = Vec::new();
    let r = Synthesizer::<'_, Sps>::synthesize(&s, &mut buf, true);
    assert_eq!(r, Err(SynthesizerError::Unsupported));

    let mut p = pps(sps());
    p.extension_present_flag = true;
    p.scc_extension_flag = true;
    let r = Synthesizer::<'_, Pps>::synthesize(&p, &mut buf, true);
    assert_eq!(r, Err(SynthesizerError::Unsupported));
}

#[test]
fn the_largest_value_has_no_exp_golomb_code() {
    let mut s = sps();
    s.conformance_window_flag = true;
    s.conf_win_top_offset = u32::MAX;
    let mut buf = Vec::new();
    let r = Synthesizer::<'_, Sps>::synthesize(&s, &mut buf, true);
    assert_eq!(r, Err(SynthesizerError::NaluWriter(NaluWriterError::Overflow)));
    assert_eq!(r.unwrap_err().message(), "value increment caused value overflow");
}

#[test]
fn an_element_of_more_than_32_bits_is_refused() {
    let mut s = sps();
    s.log2_max_pic_order_cnt_lsb_minus4 = 40;
    s.long_term_ref_pics_present_flag = true;
    s.num_long_term_ref_pics_sps = 1;
    let mut buf = Vec::new();
    let r = Synthesizer::<'_, Sps>::synthesize(&s, &mut buf, true);
    assert_eq!(r, Err(SynthesizerError::NaluWriter(NaluWriterError::InvalidBitCount)));
    assert_eq!(r.unwrap_err().message(), "invalid bit count");
    assert_eq!(
        SynthesizerError::from(NaluWriterError::Overflow),
        SynthesizerError::NaluWriter(NaluWriterError::Overflow)
    );
}

#[test]
fn a_value_too_large_for_its_field_is_written_by_its_low_bits() {
    let mut v = vps();
    v.video_parameter_set_id = 0x13;
    let mut buf = Vec::new();
    Synthesizer::<'_, Vps>::synthesize(&v, &mut buf, true).unwrap();
    let nalu = Nalu::next(&buf, 0).unwrap();
    let parsed = Parser::default().parse_vps(&nalu).unwrap();
    assert_eq!(parsed.video_parameter_set_id, 3);
}

#[test]
fn exp_golomb_codes() {
    let mut w = NaluWriter::new(false);
    // 1, 010, 011, 00100, 00110 (3 as signed), 00111 (-3)
    w.write_ue(0).unwrap();
    w.write_ue(1).unwrap();
    w.write_ue(2).unwrap();
    w.write_ue(3).unwrap();
    w.write_se(3).unwrap();
    w.write_se(-3).unwrap();
    w.write_u(2, 0).unwrap();
    assert!(w.aligned());
    assert_eq!(w.into_bytes(), vec![0b1010_0110, 0b0100_0011, 0b0001_1100]);

    let mut w = NaluWriter::new(false);
    w.write_ue(u32::MAX - 1).unwrap();
    assert_eq!(w.write_ue(u32::MAX), Err(NaluWriterError::Overflow));
    assert_eq!(w.write_f(33, 0), Err(NaluWriterError::InvalidBitCount));
}

#[test]
fn nal_units_are_found_one_after_the_other() {
    let mut buf = Vec::new();
    Synthesizer::<'_, Vps>::synthesize(&vps(), &mut buf, true).unwrap();
    Synthesizer::<'_, Sps>::synthesize(&sps(), &mut buf, true).unwrap();
    let first = Nalu::next(&buf, 0).unwrap();
    assert_eq!(first.header.type_, NaluType::VpsNut);
    assert_eq!(first.rbsp[..4], [0x0c, 0x01, 0xff, 0xff]);
    // The emulation prevention bytes are gone.
    assert_eq!(first.rbsp[4..13], [0x01, 0x40, 0x00, 0x00, 0x00, 0x90, 0x00, 0x00, 0x00]);
    let second = Nalu::next(&buf, first.end).unwrap();
    assert_eq!(second.header.type_, NaluType::SpsNut);
    assert_eq!(Nalu::next(&buf, second.end).err(), Some(NaluError::NoStartCode));
}

#[test]
fn nal_unit_errors() {
    assert_eq!(Nalu::next(&[], 0).err(), Some(NaluError::NoStartCode));
    assert_eq!(Nalu::next(&[0, 0, 2, 1], 0).err(), Some(NaluError::NoStartCode));
    assert_eq!(Nalu::next(&[0, 0, 1, 0x40], 0).err(), Some(NaluError::TooShort));
    assert_eq!(Nalu::next(&[0, 0, 1, 0xc0, 1, 9], 0).err(), Some(NaluError::InvalidHeader));
    // Type 50 is reserved.
    assert_eq!(Nalu::next(&[0, 0, 1, 100, 1, 9], 0).err(), Some(NaluError::InvalidHeader));
    let n = Nalu::next(&[0, 0, 1, 0x43, 0x0a, 9], 0).unwrap();
    assert_eq!(n.header.nuh_layer_id, 33);
    assert_eq!(n.header.nuh_temporal_id_plus1, 2);
    assert_eq!(n.rbsp, vec![9]);
}

#[test]
fn parse_errors() {
    let sps_buf = synth_sps(&sps());
    let pps_buf = synth_pps(&pps(sps()));
    let sps_nalu = Nalu::next(&sps_buf, 0).unwrap();
    let pps_nalu = Nalu::next(&pps_buf, 0).unwrap();
    let mut parser = Parser::default();
    assert_eq!(parser.parse_vps(&sps_nalu).err(), Some(ParseError::WrongNaluType));
    assert_eq!(parser.parse_sps(&pps_nalu).err(), Some(ParseError::WrongNaluType));
    assert_eq!(parser.parse_pps(&sps_nalu).err(), Some(ParseError::WrongNaluType));
    assert_eq!(
        parser.parse_slice_header(sps_nalu.clone()).err(),
        Some(ParseError::WrongNaluType)
    );
    assert_eq!(parser.parse_pps(&pps_nalu).err(), Some(ParseError::MissingParameterSet));
    assert!(parser.get_sps(0).is_none());
    assert!(parser.get_pps(0).is_none());

    let mut short = sps_nalu.clone();
    short.rbsp.truncate(8);
    assert_eq!(parser.parse_sps(&short).err(), Some(ParseError::Invalid));
    assert!(parser.get_sps(0).is_none());

    let slice = Nalu::next(&[0, 0, 1, 2, 1, 0xd0, 0x12, 0xef], 0).unwrap();
    assert_eq!(
        parser.parse_slice_header(slice.clone()).err(),
        Some(ParseError::MissingParameterSet)
    );
    let mut empty = slice;
    empty.rbsp.clear();
    assert_eq!(parser.parse_slice_header(empty).err(), Some(ParseError::Invalid));

    parser.parse_sps(&sps_nalu).unwrap();
    parser.parse_pps(&pps_nalu).unwrap();
    assert!(parser.get_sps(0).is_some());
    assert!(parser.get_pps(0).is_some());
    assert!(Rc::ptr_eq(&parser.get_pps(0).unwrap().sps, parser.get_sps(0).unwrap()));
}

#[test]
fn parameter_sets_are_kept_by_identifier() {
    let mut parser = Parser::default();
    let mut v = vps();
    v.video_parameter_set_id = 5;
    let mut buf = Vec::new();
    Synthesizer::<'_, Vps>::synthesize(&v, &mut buf, true).unwrap();
    parser.parse_vps(&Nalu::next(&buf, 0).unwrap()).unwrap();

    let mut s = sps();
    s.video_parameter_set_id = 5;
    s.seq_parameter_set_id = 3;
    let parsed = parser.parse_sps(&Nalu::next(&synth_sps(&s), 0).unwrap()).unwrap();
    assert_eq!(parsed.vps.as_ref().unwrap().video_parameter_set_id, 5);
    assert!(parser.get_sps(0).is_none());
    assert!(Rc::ptr_eq(parser.get_sps(3).unwrap(), &parsed));
    // The variables that follow from what is coded.
    assert_eq!(parsed.ctb_size_y, 32);
    assert_eq!(parsed.pic_size_in_ctbs_y, 4);
    assert_eq!(parsed.pic_size_in_samples_y, 4096);
    assert_eq!(parsed.max_tb_log2_size_y, 5);

    let mut p = pps(s);
    p.seq_parameter_set_id = 3;
    p.pic_parameter_set_id = 9;
    parser.parse_pps(&Nalu::next(&synth_pps(&p), 0).unwrap()).unwrap();
    assert!(parser.get_pps(0).is_none());
    assert_eq!(parser.get_pps(9).unwrap().sps.seq_parameter_set_id, 3);
}

#[test]
fn vps_with_timing_and_hrd_round_trips() {
    let mut v = vps();
    v.timing_info_present_flag = true;
    v.num_units_in_tick = 1001;
    v.time_scale = 60000;
    v.num_hrd_parameters = 2;
    v.hrd_layer_set_idx = vec![0, 1];
    v.cprms_present_flag = vec![true, false];
    let mut hrd = HrdParams {
        nal_hrd_parameters_present_flag: true,
        sub_pic_hrd_params_present_flag: true,
        tick_divisor_minus2: 98,
        bit_rate_scale: 3,
        ..Default::default()
    };
    hrd.cpb_cnt_minus1[0] = 1;
    hrd.nal_hrd[0].bit_rate_value_minus1[1] = 77;
    hrd.nal_hrd[0].cbr_flag[1] = true;
    v.hrd_parameters = vec![hrd.clone(), hrd];
    let mut buf = Vec::new();
    Synthesizer::<'_, Vps>::synthesize(&v, &mut buf, true).unwrap();
    let parsed = Parser::default().parse_vps(&Nalu::next(&buf, 0).unwrap()).unwrap();
    assert_eq!(parsed.num_units_in_tick, 1001);
    assert_eq!(parsed.hrd_parameters.len(), 2);
    assert_eq!(parsed.hrd_parameters[1].tick_divisor_minus2, 98);
    assert_eq!(parsed.hrd_parameters[1].nal_hrd[0].bit_rate_value_minus1[1], 77);
    assert!(parsed.hrd_parameters[1].nal_hrd[0].cbr_flag[1]);
    let mut again = Vec::new();
    Synthesizer::<'_, Vps>::synthesize(&parsed, &mut again, true).unwrap();
    assert_eq!(buf, again);
}

#[test]
fn pps_with_tiles_and_range_extension_round_trips() {
    let mut p = pps(sps());
    p.tiles_enabled_flag = true;
    p.num_tile_columns_minus1 = 2;
    p.num_tile_rows_minus1 = 1;
    p.uniform_spacing_flag = false;
    p.column_width_minus1[0] = 4;
    p.column_width_minus1[1] = 5;
    p.row_height_minus1[0] = 6;
    p.transform_skip_enabled_flag = true;
    p.extension_present_flag = true;
    p.range_extension_flag = true;
    p.range_extension.log2_max_transform_skip_block_size_minus2 = 3;
    p.range_extension.chroma_qp_offset_list_enabled_flag = true;
    p.range_extension.chroma_qp_offset_list_len_minus1 = 1;
    p.range_extension.cb_qp_offset_list[1] = -12;
    p.range_extension.cr_qp_offset_list[0] = 7;
    let mut parser = Parser::default();
    parser.parse_sps(&Nalu::next(&synth_sps(&sps()), 0).unwrap()).unwrap();
    let buf = synth_pps(&p);
    let parsed = parser.parse_pps(&Nalu::next(&buf, 0).unwrap()).unwrap();
    assert_eq!(parsed.column_width_minus1[1], 5);
    assert_eq!(parsed.row_height_minus1[0], 6);
    assert_eq!(parsed.range_extension.cb_qp_offset_list[1], -12);
    assert_eq!(parsed.range_extension.cr_qp_offset_list[0], 7);
    assert_eq!(parsed.range_extension.log2_max_transform_skip_block_size_minus2, 3);
    assert_eq!(buf, synth_pps(&parsed));
}

#[test]
fn dependent_slice_with_entry_points_round_trips() {
    let s = sps();
    let mut p = pps(s.clone());
    p.dependent_slice_segments_enabled_flag = true;
    p.entropy_coding_sync_enabled_flag = true;
    p.slice_segment_header_extension_present_flag = true;
    let mut parser = Parser::default();
    parser.parse_sps(&Nalu::next(&synth_sps(&s), 0).unwrap()).unwrap();
    parser.parse_pps(&Nalu::next(&synth_pps(&p), 0).unwrap()).unwrap();
    let sps_rc = parser.get_sps(0).unwrap().clone();
    let pps_rc = parser.get_pps(0).unwrap().clone();
    let mut hdr = SliceHeader {
        dependent_slice_segment_flag: true,
        segment_address: 3,
        num_entry_point_offsets: 2,
        offset_len_minus1: 9,
        ..Default::default()
    };
    hdr.entry_point_offset_minus1[0] = 1000;
    hdr.entry_point_offset_minus1[1] = 513;
    let mut buf = Vec::new();
    Synthesizer::<'_, SliceHeader>::synthesize(
        NaluType::TrailR, &hdr, &sps_rc, &pps_rc, &mut buf, true,
    )
    .unwrap();
    let parsed = parser.parse_slice_header(Nalu::next(&buf, 0).unwrap()).unwrap().header;
    assert!(parsed.dependent_slice_segment_flag);
    assert_eq!(parsed.segment_address, 3);
    assert_eq!(parsed.entry_point_offset_minus1[..2], [1000, 513]);
    let mut again = Vec::new();
    Synthesizer::<'_, SliceHeader>::synthesize(
        NaluType::TrailR, &parsed, &sps_rc, &pps_rc, &mut again, true,
    )
    .unwrap();
    assert_eq!(buf, again);
}

#[test]
fn counts_beyond_the_arrays_are_not_writable() {
    let mut v = vps();
    assert!(v.is_writable());
    v.max_sub_layers_minus1 = 7;
    assert!(!v.is_writable());

    let mut s = sps();
    assert!(s.is_writable());
    s.num_short_term_ref_pic_sets = 1;
    assert!(!s.is_writable());
    let mut set = ShortTermRefPicSet { num_negative_pics: 17, ..Default::default() };
    for i in 0..16 {
        set.delta_poc_s0[i] = -1 - i as i32;
    }
    s.short_term_ref_pic_set = vec![set];
    assert!(!s.is_writable());
    // Nothing is written behind a set that is predicted from another one.
    s.short_term_ref_pic_set[0].inter_ref_pic_set_prediction_flag = true;
    s.num_long_term_ref_pics_sps = 33;
    s.long_term_ref_pics_present_flag = true;
    assert!(s.is_writable());

    let mut p = pps(sps());
    assert!(p.is_writable());
    p.tiles_enabled_flag = true;
    p.uniform_spacing_flag = false;
    p.num_tile_columns_minus1 = 20;
    assert!(!p.is_writable());

    let s = sps();
    let p = pps(sps());
    let mut h = SliceHeader { type_: SliceType::P, ..Default::default() };
    assert!(h.is_writable(NaluType::TrailR, &s, &p));
    h.short_term_ref_pic_set_sps_flag = true;
    assert!(!h.is_writable(NaluType::TrailR, &s, &p));
    assert!(!h.is_writable(NaluType::IdrWRadl, &s, &p));
    h.type_ = SliceType::I;
    assert!(h.is_writable(NaluType::IdrWRadl, &s, &p));
}

#[test]
fn a_count_without_a_code_ends_the_writing() {
    let overflow = Err(SynthesizerError::NaluWriter(NaluWriterError::Overflow));
    let mut buf = Vec::new();

    let mut v = vps();
    v.num_layer_sets_minus1 = u32::MAX;
    assert!(v.is_writable());
    assert_eq!(Synthesizer::<'_, Vps>::synthesize(&v, &mut buf, true), overflow);

    let mut v = vps();
    v.timing_info_present_flag = true;
    v.num_hrd_parameters = u32::MAX;
    assert!(v.is_writable());
    assert_eq!(Synthesizer::<'_, Vps>::synthesize(&v, &mut buf, true), overflow);

    let mut v = vps();
    v.timing_info_present_flag = true;
    v.num_hrd_parameters = 1;
    v.hrd_layer_set_idx = vec![0];
    v.hrd_parameters =
        vec![HrdParams { nal_hrd_parameters_present_flag: true, ..Default::default() }];
    v.hrd_parameters[0].cpb_cnt_minus1[0] = u32::MAX;
    assert!(v.is_writable());
    assert_eq!(Synthesizer::<'_, Vps>::synthesize(&v, &mut buf, true), overflow);
    v.hrd_parameters[0].cpb_cnt_minus1[0] = 32;
    assert!(!v.is_writable());

    let mut p = pps(sps());
    p.extension_present_flag = true;
    p.range_extension_flag = true;
    p.range_extension.chroma_qp_offset_list_enabled_flag = true;
    p.range_extension.chroma_qp_offset_list_len_minus1 = u32::MAX;
    assert!(p.is_writable());
    assert_eq!(Synthesizer::<'_, Pps>::synthesize(&p, &mut buf, true), overflow);

    let mut p = pps(sps());
    p.tiles_enabled_flag = true;
    let h = SliceHeader { num_entry_point_offsets: u32::MAX, ..Default::default() };
    assert!(h.is_writable(NaluType::IdrWRadl, &sps(), &p));
    assert_eq!(
        Synthesizer::<'_, SliceHeader>::synthesize(
            NaluType::IdrWRadl, &h, &sps(), &p, &mut buf, true,
        ),
        overflow
    );
}

#[test]
fn reference_pictures_at_the_same_distance_have_no_code() {
    let mut st = ShortTermRefPicSet { num_negative_pics: 2, ..Default::default() };
    st.delta_poc_s0[0] = -1;
    st.delta_poc_s0[1] = -1;
    let mut s = sps();
    s.num_short_term_ref_pic_sets = 1;
    s.short_term_ref_pic_set = vec![st];
    assert!(s.is_writable());
    let mut buf = Vec::new();
    assert_eq!(
        Synthesizer::<'_, Sps>::synthesize(&s, &mut buf, true),
        Err(SynthesizerError::NaluWriter(NaluWriterError::Overflow))
    );
}

#[test]
fn nothing_is_asked_for_behind_an_element_without_a_code() {
    let overflow = Err(SynthesizerError::NaluWriter(NaluWriterError::Overflow));
    let mut buf = Vec::new();

    // The list of reference picture sets is too short, but is never reached.
    let mut s = sps();
    s.conformance_window_flag = true;
    s.conf_win_left_offset = u32::MAX;
    s.num_short_term_ref_pic_sets = 3;
    assert!(s.is_writable());
    assert_eq!(Synthesizer::<'_, Sps>::synthesize(&s, &mut buf, true), overflow);
    s.conf_win_left_offset = 0;
    assert!(!s.is_writable());

    // Neither is the seventeenth picture, since the second has no code.
    let mut s = sps();
    s.num_short_term_ref_pic_sets = 1;
    s.short_term_ref_pic_set =
        vec![ShortTermRefPicSet { num_negative_pics: 17, ..Default::default() }];
    assert!(s.is_writable());
    assert_eq!(Synthesizer::<'_, Sps>::synthesize(&s, &mut buf, true), overflow);

    // Picture order counts of more than 32 bits have no code.
    let mut s = sps();
    s.log2_max_pic_order_cnt_lsb_minus4 = 29;
    s.long_term_ref_pics_present_flag = true;
    s.num_long_term_ref_pics_sps = 33;
    assert!(s.is_writable());
    assert_eq!(
        Synthesizer::<'_, Sps>::synthesize(&s, &mut buf, true),
        Err(SynthesizerError::NaluWriter(NaluWriterError::InvalidBitCount))
    );
    s.log2_max_pic_order_cnt_lsb_minus4 = 28;
    assert!(!s.is_writable());
}

#[test]
fn what_is_not_coded_has_its_inferred_value() {
    let mut v = vps();
    v.timing_info_present_flag = true;
    v.num_hrd_parameters = 1;
    v.hrd_layer_set_idx = vec![0];
    v.hrd_parameters = vec![HrdParams { bit_rate_scale: 9, ..Default::default() }];
    v.hrd_parameters[0].initial_cpb_removal_delay_length_minus1 = 7;
    v.hrd_parameters[0].fixed_pic_rate_general_flag[0] = true;
    v.max_dec_pic_buffering_minus1[3] = 5;
    let mut buf = Vec::new();
    Synthesizer::<'_, Vps>::synthesize(&v, &mut buf, true).unwrap();
    let parsed = Parser::default().parse_vps(&Nalu::next(&buf, 0).unwrap()).unwrap();
    let hrd = &parsed.hrd_parameters[0];
    assert_eq!(hrd.initial_cpb_removal_delay_length_minus1, 23);
    assert_eq!(hrd.bit_rate_scale, 0);
    assert!(hrd.fixed_pic_rate_within_cvs_flag[0]);
    assert_eq!(parsed.max_dec_pic_buffering_minus1[3], 0);

    // The flag that is inferred makes no difference to what is written.
    let mut other = Vec::new();
    v.hrd_parameters[0].fixed_pic_rate_within_cvs_flag[0] = true;
    Synthesizer::<'_, Vps>::synthesize(&v, &mut other, true).unwrap();
    assert_eq!(buf, other);
}

#[test]
fn scaling_lists_are_recovered_from_their_differences() {
    let mut s = sps();
    s.scaling_list_enabled_flag = true;
    s.scaling_list_data_present_flag = true;
    for m in 0..6 {
        for i in 0..16 {
            s.scaling_list.scaling_list_4x4[m][i] = (37 * i + 101 * m + 250) as u8;
        }
        for i in 0..64 {
            s.scaling_list.scaling_list_16x16[m][i] = (200 * i + m) as u8;
        }
        s.scaling_list.scaling_list_dc_coef_minus8_16x16[m] = 240 - 40 * m as i16;
    }
    let parsed = Parser::default().parse_sps(&Nalu::next(&synth_sps(&s), 0).unwrap()).unwrap();
    assert_eq!(parsed.scaling_list.scaling_list_4x4, s.scaling_list.scaling_list_4x4);
    assert_eq!(parsed.scaling_list.scaling_list_16x16, s.scaling_list.scaling_list_16x16);
    assert_eq!(
        parsed.scaling_list.scaling_list_dc_coef_minus8_16x16,
        s.scaling_list.scaling_list_dc_coef_minus8_16x16
    );
}

#[test]
fn scaling_lists_that_are_not_coded_make_no_difference() {
    let mut s = sps();
    s.scaling_list_enabled_flag = true;
    s.scaling_list_data_present_flag = true;
    let bytes = synth_sps(&s);
    for m in [1, 2, 4, 5] {
        s.scaling_list.scaling_list_32x32[m] = [99; 64];
        s.scaling_list.scaling_list_dc_coef_minus8_32x32[m] = 31;
    }
    assert_eq!(synth_sps(&s), bytes);
    for m in [0, 3] {
        let mut coded = s.clone();
        coded.scaling_list.scaling_list_32x32[m][63] ^= 1;
        assert_ne!(synth_sps(&coded), bytes);
    }
}
