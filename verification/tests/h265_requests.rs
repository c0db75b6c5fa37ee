//! The formulas of the predictor, the encoder with a backend that records, and what a VA-API
//! driver is handed.

use cros_codecs::codec::h265::nalu::Nalu;
use cros_codecs::codec::h265::parser::Parser;
use cros_codecs::codec::h265::synthesizer::{Synthesizer, SynthesizerError};
use cros_codecs::codec::h265::types::{Level, NaluType, Profile, SliceHeader, Sps};
use cros_codecs::encoder::h265::{EncoderConfig, H265};
use cros_codecs::encoder::stateless::h265::predictor::{
    align_up, build_parameter_sets, build_ptl, is_buildable, log2_max_poc_lsb_minus4,
    low_delay_rps, pick_init_qp, profile_format, sub_wh_c, LowDelayH265,
};
use cros_codecs::encoder::stateless::h265::vaapi::{
    is_submittable, packed_headers_from_query, reference_frames, submissions, va_entrypoint,
    va_profile, HevcPicture, PackedHeaderKind, ReferenceSurface, Submission, VaEntrypoint,
    VaProfile, PACKED_HEADERS,
};
use cros_codecs::encoder::stateless::h265::{
    BackendRequest, DpbEntry, DpbEntryMeta, ReferencePromise, StatelessEncoder,
    StatelessH265EncoderBackend,
};
use cros_codecs::encoder::stateless::{
    BackendPromise, BitstreamPromise, FrameMetadata, ReadyPromise, StatelessVideoEncoderBackend,
};
use cros_codecs::encoder::{
    BackendFailure, EncodeError, EncoderColorInfo, PredictionStructure, RateControl, StatelessBackendError,
    StatelessBackendResult, Tunings,
};
use cros_codecs::frame::{BlockingMode, Fourcc, FrameLayout, PlaneLayout, Resolution};
use std::rc::Rc;

fn config() -> EncoderConfig {
    EncoderConfig {
        resolution: Resolution { width: 640, height: 360 },
        pred_structure: PredictionStructure::LowDelay { limit: 60 },
        ..Default::default()
    }
}

fn frame_meta(timestamp: u64) -> FrameMetadata {
    FrameMetadata {
        timestamp,
        layout: FrameLayout {
            format: (Fourcc::from(b"NV12"), 0),
            size: Resolution { width: 640, height: 360 },
            planes: vec![PlaneLayout { buffer_index: 0, offset: 64, stride: 640 }],
        },
        force_keyframe: false,
    }
}

/// A keyframe request, and the request for the frame behind it.
fn requests(config: EncoderConfig) -> (BackendRequest<(), u32>, BackendRequest<(), u32>) {
    let mut pred: LowDelayH265<(), u32> = LowDelayH265::new(config, 60);
    let key = pred.request_keyframe((), frame_meta(0), true).unwrap();
    pred.counter = 1;
    let meta = DpbEntryMeta { poc: 0, nalu_type: NaluType::IdrWRadl };
    pred.references.push_back(Rc::new(DpbEntry { recon_pic: 17, meta }));
    assert!(pred.is_predictable());
    let inter = pred.request_interframe((), frame_meta(1)).unwrap();
    assert!(pred.references.is_empty());
    (key, inter)
}

#[test]
fn predictor_formulas() {
    assert_eq!(sub_wh_c(1), (2, 2));
    assert_eq!(sub_wh_c(2), (2, 1));
    assert_eq!(align_up(0, 8), 0);
    assert_eq!(align_up(1080, 8), 1080);
    assert_eq!(align_up(1081, 8), 1088);
    assert_eq!(log2_max_poc_lsb_minus4(0), 0);
    assert_eq!(log2_max_poc_lsb_minus4(8), 0);
    assert_eq!(log2_max_poc_lsb_minus4(9), 1);
    assert_eq!(log2_max_poc_lsb_minus4(60), 3);
    assert_eq!(log2_max_poc_lsb_minus4(32768), 12);
    assert_eq!(log2_max_poc_lsb_minus4(65535), 12);
    assert_eq!(profile_format(Profile::Main), (0, 1));
    assert_eq!(profile_format(Profile::Main10), (2, 1));
    assert_eq!(profile_format(Profile::RangeExtensions), (2, 2));
    assert_eq!(profile_format(Profile::MainStill), (0, 1));
    let rps = low_delay_rps(9, 6);
    assert_eq!(rps.delta_poc_s0[0], -3);
    assert_eq!((rps.num_negative_pics, rps.num_positive_pics, rps.num_delta_pocs), (1, 0, 1));
}

#[test]
fn initial_quantizer() {
    let q = |rate_control, min_quality, max_quality| {
        pick_init_qp(&Tunings { rate_control, framerate: 30, min_quality, max_quality })
    };
    assert_eq!(q(RateControl::ConstantBitrate(1), 0, u32::MAX), 26);
    assert_eq!(q(RateControl::ConstantBitrate(1), 10, 20), 15);
    assert_eq!(q(RateControl::ConstantQuality(27), 0, u32::MAX), 27);
    assert_eq!(q(RateControl::ConstantQuality(0), 0, u32::MAX), 1);
    assert_eq!(q(RateControl::ConstantQuality(99), 0, u32::MAX), 51);
    assert_eq!(q(RateControl::ConstantQuality(5), 30, 40), 30);
    // A lower bound wins over the upper bound, but does not leave the range.
    assert_eq!(q(RateControl::ConstantQuality(5), 45, 40), 45);
    assert_eq!(q(RateControl::ConstantQuality(5), 60, 40), 51);
    assert_eq!(q(RateControl::ConstantQuality(60), 60, 63), 51);
    assert_eq!(q(RateControl::ConstantBitrate(1), 256, u32::MAX), 51);
    assert_eq!(q(RateControl::ConstantBitrate(1), u32::MAX, u32::MAX), 51);
    assert_eq!(q(RateControl::ConstantBitrate(1), 0, 0), 1);
}

#[test]
fn profiles_bring_their_constraint_flags() {
    let main = build_ptl(Profile::Main, Level::L5);
    assert_eq!(main.general_profile_idc, 1);
    assert!(main.general_profile_compatibility_flag[1]);
    assert!(!main.general_profile_compatibility_flag[2]);
    assert!(!main.general_max_12bit_constraint_flag);
    let rext = build_ptl(Profile::RangeExtensions, Level::L5);
    assert_eq!(rext.general_profile_idc, 4);
    assert!(rext.general_max_12bit_constraint_flag);
    assert!(rext.general_max_10bit_constraint_flag);
    assert!(!rext.general_max_8bit_constraint_flag);
    assert!(rext.general_max_422chroma_constraint_flag);
    assert!(!rext.general_max_420chroma_constraint_flag);
    assert!(rext.general_lower_bit_rate_constraint_flag);
}

#[test]
fn ten_bit_422_with_colour_round_trips() {
    let mut c = config();
    c.profile = Profile::RangeExtensions;
    c.resolution = Resolution { width: 1922, height: 1081 };
    c.color =
        Some(EncoderColorInfo { primaries: 9, transfer: 16, matrix: 9, full_range: true });
    let (_, sps, _) = build_parameter_sets(&c, &Tunings::default(), 60);
    let mut buf = Vec::new();
    Synthesizer::<'_, Sps>::synthesize(&sps, &mut buf, true).unwrap();
    let parsed = Parser::default().parse_sps(&Nalu::next(&buf, 0).unwrap()).unwrap();
    assert_eq!(parsed.chroma_format_idc, 2);
    assert_eq!(parsed.bit_depth_luma_minus8, 2);
    assert_eq!(parsed.pic_height_in_luma_samples, 1088);
    assert_eq!(parsed.conf_win_right_offset, 3);
    // SubHeightC is 1.
    assert_eq!(parsed.conf_win_bottom_offset, 7);
    assert!(parsed.vui_parameters_present_flag);
    assert!(parsed.vui_parameters.video_full_range_flag);
    assert_eq!(parsed.vui_parameters.colour_primaries, 9);
    assert_eq!(parsed.vui_parameters.transfer_characteristics, 16);
    assert_eq!(parsed.vui_parameters.matrix_coeffs, 9);
    // What was built already holds the variables that the parser derives.
    assert_eq!(parsed.pic_size_in_ctbs_y, sps.pic_size_in_ctbs_y);
    assert_eq!(parsed.pic_size_in_samples_y, sps.pic_size_in_samples_y);
    assert_eq!(parsed.chroma_array_type, sps.chroma_array_type);
    assert_eq!(parsed.max_tb_log2_size_y, sps.max_tb_log2_size_y);
}

#[test]
fn sizes_that_cannot_be_built() {
    let mut c = config();
    assert!(is_buildable(&c));
    c.resolution = Resolution { width: u32::MAX, height: 8 };
    assert!(!is_buildable(&c));
    c.resolution = Resolution { width: 65536, height: 65536 };
    assert!(!is_buildable(&c));
    let tunings = Tunings { min_quality: 130, ..Default::default() };
    let (_, _, pps) = build_parameter_sets(&config(), &tunings, 60);
    assert_eq!(pps.init_qp_minus26, 25);
}

#[test]
fn requests_without_a_sequence_or_a_reference_are_refused() {
    let mut pred: LowDelayH265<(), ()> = LowDelayH265::new(config(), 60);
    assert_eq!(
        pred.request_keyframe((), frame_meta(0), false).err(),
        Some(EncodeError::InvalidInternalState)
    );
    assert_eq!(
        pred.request_interframe((), frame_meta(0)).err(),
        Some(EncodeError::InvalidInternalState)
    );
    assert_eq!(pred.try_tunings(&Tunings::default()), Ok(()));
    assert_eq!(pred.apply_tunings(&Tunings::default()), Ok(()));
    // Now there are parameter sets, but still no reference.
    assert_eq!(
        pred.request_interframe((), frame_meta(0)).err(),
        Some(EncodeError::InvalidInternalState)
    );
    assert!(pred.request_keyframe((), frame_meta(0), false).is_ok());
}

#[test]
fn slice_headers_of_requests() {
    let (key, inter) = requests(config());
    let mut buf = Vec::new();
    Synthesizer::<'_, SliceHeader>::synthesize(
        key.nalu_type, &key.header, &key.sps, &key.pps, &mut buf, true,
    )
    .unwrap();
    assert_eq!(buf, vec![0, 0, 0, 1, 0x26, 0x01, 0xaf, 0x80]);
    let mut buf = Vec::new();
    Synthesizer::<'_, SliceHeader>::synthesize(
        inter.nalu_type, &inter.header, &inter.sps, &inter.pps, &mut buf, true,
    )
    .unwrap();
    assert_eq!(buf, vec![0, 0, 0, 1, 0x02, 0x01, 0xd0, 0x12, 0xef]);
    assert_eq!(inter.num_ctu_in_slice, 20 * 12);
    assert_eq!(inter.ref_list_0.len(), 1);
    assert_eq!(inter.ref_list_0[0].recon_pic, 17);
}

#[test]
fn profiles_and_entrypoints_of_the_device() {
    assert_eq!(va_profile(Profile::Main), Ok(VaProfile::HevcMain));
    assert_eq!(va_profile(Profile::Main10), Ok(VaProfile::HevcMain10));
    assert_eq!(va_profile(Profile::RangeExtensions), Ok(VaProfile::HevcMain422_10));
    assert_eq!(
        va_profile(Profile::MainStill),
        Err(EncodeError::Backend(StatelessBackendError::UnsupportedProfile))
    );
    assert_eq!(va_entrypoint(true), VaEntrypoint::EncSliceLp);
    assert_eq!(va_entrypoint(false), VaEntrypoint::EncSlice);
    assert_eq!(packed_headers_from_query(None), 0);
    assert_eq!(packed_headers_from_query(Some(15)), PACKED_HEADERS);
    assert_eq!(packed_headers_from_query(Some(3)), 0);
}

#[test]
fn references_fill_their_list() {
    let invalid = HevcPicture { picture_id: 0xffff_ffff, pic_order_cnt: 0, flags: 1 };
    let refs = [
        ReferenceSurface { surface_id: 4, poc: 8 },
        ReferenceSurface { surface_id: 5, poc: -1 },
    ];
    let frames = reference_frames(&refs);
    assert_eq!(frames[0], HevcPicture { picture_id: 4, pic_order_cnt: 8, flags: 0 });
    assert_eq!(frames[1], HevcPicture { picture_id: 5, pic_order_cnt: -1, flags: 0 });
    assert_eq!(frames[2], invalid);
    assert_eq!(frames[14], invalid);
    let many = [ReferenceSurface { surface_id: 1, poc: 2 }; 20];
    assert_eq!(reference_frames(&many)[14].picture_id, 1);
}

#[test]
fn a_keyframe_is_submitted_with_all_headers() {
    let (key, _) = requests(config());
    assert!(is_submittable(&key, PACKED_HEADERS));
    let plan = submissions(&key, PACKED_HEADERS, 30, 40, &[]).unwrap();
    assert_eq!(plan.len(), 9);
    match &plan[0] {
        Submission::Sequence(p) => {
            assert_eq!(p.bits_per_second, 200_000);
            assert_eq!(p.intra_period, 60);
            assert_eq!(p.intra_idr_period, 60);
            assert_eq!(p.ip_period, 1);
            assert_eq!(p.general_level_idc, 120);
            assert_eq!((p.pic_width_in_luma_samples, p.pic_height_in_luma_samples), (640, 360));
            assert_eq!(p.seq_fields.amp_enabled_flag, 1);
            assert_eq!(p.seq_fields.low_delay_seq, 1);
            assert_eq!(p.seq_fields.pcm_enabled_flag, 0);
            assert_eq!(p.pcm_sample_bit_depth_luma_minus1, 0);
            assert!(p.vui_fields.is_none());
            assert_eq!((p.aspect_ratio_idc, p.sar_width, p.vui_time_scale), (0, 0, 0));
            assert_eq!(p.palette_mode_enabled_flag, 0);
        }
        other => panic!("unexpected {:?}", other),
    }
    assert_eq!(plan[1], Submission::RateControl(Tunings::default()));
    assert_eq!(plan[2], Submission::FrameRate(30));
    let kinds: Vec<Option<(PackedHeaderKind, u8)>> = plan
        .iter()
        .map(|s| match s {
            Submission::Packed(p) => {
                assert_eq!(p.bit_length as usize, 8 * p.data.len());
                assert!(p.has_emulation);
                Some((p.kind, p.data[4]))
            }
            _ => None,
        })
        .collect();
    assert_eq!(kinds[3], Some((PackedHeaderKind::Sequence, 0x40)));
    assert_eq!(kinds[4], Some((PackedHeaderKind::Sequence, 0x42)));
    assert_eq!(kinds[5], Some((PackedHeaderKind::Picture, 0x44)));
    assert_eq!(kinds[7], Some((PackedHeaderKind::Slice, 0x26)));
    match &plan[6] {
        Submission::Picture(p) => {
            assert_eq!(p.decoded_curr_pic.picture_id, 40);
            assert_eq!(p.coded_buf, 30);
            assert_eq!(p.collocated_ref_pic_index, 0xff);
            assert_eq!(p.pic_init_qp, 26);
            assert_eq!(p.nal_unit_type, 19);
            assert_eq!(p.pic_fields.idr_pic_flag, 1);
            assert_eq!(p.pic_fields.coding_type, 1);
            assert_eq!(p.pic_fields.reference_pic_flag, 1);
            assert_eq!(p.pic_fields.cu_qp_delta_enabled_flag, 1);
        }
        other => panic!("unexpected {:?}", other),
    }
    match &plan[8] {
        Submission::Slice(p) => {
            assert_eq!(p.num_ctu_in_slice, 240);
            assert_eq!(p.slice_type, 2);
            assert_eq!(p.max_num_merge_cand, 5);
            assert_eq!(p.slice_fields.last_slice_of_pic_flag, 1);
            assert_eq!(p.slice_fields.slice_loop_filter_across_slices_enabled_flag, 1);
            assert_eq!(p.ref_pic_list0[0].picture_id, 0xffff_ffff);
        }
        other => panic!("unexpected {:?}", other),
    }
}

#[test]
fn a_predicted_frame_is_submitted_without_the_sequence() {
    let (_, inter) = requests(config());
    let plan = submissions(&inter, PACKED_HEADERS, 30, 41, &[17]).unwrap();
    assert_eq!(plan.len(), 6);
    assert_eq!(plan[0], Submission::RateControl(Tunings::default()));
    match (&plan[2], &plan[3], &plan[4], &plan[5]) {
        (
            Submission::Packed(pps),
            Submission::Picture(pic),
            Submission::Packed(hdr),
            Submission::Slice(slice),
        ) => {
            assert_eq!(pps.kind, PackedHeaderKind::Picture);
            assert_eq!(hdr.kind, PackedHeaderKind::Slice);
            assert_eq!(hdr.data, vec![0, 0, 0, 1, 0x02, 0x01, 0xd0, 0x12, 0xef]);
            assert_eq!(pic.pic_fields.idr_pic_flag, 0);
            assert_eq!(pic.pic_fields.coding_type, 2);
            assert_eq!(pic.decoded_curr_pic.pic_order_cnt, 1);
            assert_eq!(pic.reference_frames[0].picture_id, 17);
            assert_eq!(slice.ref_pic_list0[0].picture_id, 17);
            assert_eq!(slice.ref_pic_list1[0].picture_id, 0xffff_ffff);
        }
        other => panic!("unexpected {:?}", other),
    }
}

#[test]
fn a_driver_that_generates_headers_gets_none() {
    let (key, inter) = requests(config());
    let plan = submissions(&key, 0, 30, 40, &[]).unwrap();
    assert_eq!(plan.len(), 5);
    assert!(plan.iter().all(|s| !matches!(s, Submission::Packed(_))));
    let plan = submissions(&inter, 0, 30, 40, &[17]).unwrap();
    assert_eq!(plan.len(), 4);
}

#[test]
fn a_header_that_cannot_be_packed_is_an_error() {
    let (mut key, _) = requests(config());
    let mut sps = (*key.sps).clone();
    sps.extension_present_flag = true;
    sps.scc_extension_flag = true;
    key.sps = Rc::new(sps);
    let error = submissions(&key, PACKED_HEADERS, 30, 40, &[]).unwrap_err();
    assert_eq!(
        error,
        StatelessBackendError::Other(BackendFailure::PackedHeader(SynthesizerError::Unsupported))
    );
    assert_eq!(
        error.message().unwrap(),
        "hevc packed header: tried to synthesize unsupported settings"
    );
    assert!(StatelessBackendError::OutOfResources.message().is_none());
    // Nothing is packed, so nothing fails.
    assert!(submissions(&key, 0, 30, 40, &[]).is_ok());

    key.header.five_minus_max_num_merge_cand = 6;
    assert!(!is_submittable(&key, 0));
}

/// A backend that reconstructs the timestamp, and fails for odd ones.
struct Recorder;

impl StatelessVideoEncoderBackend<H265> for Recorder {
    type Picture = u64;
    type Reconstructed = u64;
    type CodedPromise = ReadyPromise<Vec<u8>>;
    type ReconPromise = ReadyPromise<u64>;
}

impl StatelessH265EncoderBackend for Recorder {
    fn encode_slice(
        &mut self,
        request: BackendRequest<u64, u64>,
    ) -> StatelessBackendResult<(ReadyPromise<u64>, ReadyPromise<Vec<u8>>)> {
        if request.input_meta.timestamp % 2 == 1 {
            return Err(StatelessBackendError::OutOfResources);
        }
        Ok((ReadyPromise { value: request.input }, ReadyPromise { value: vec![1, 2, 3] }))
    }
}

#[test]
fn the_encoder_queues_what_the_backend_promises() {
    let mut encoder =
        StatelessEncoder::new_h265(Recorder, config(), BlockingMode::NonBlocking).unwrap();
    assert_eq!(encoder.predictor.limit, 60);
    assert_eq!(encoder.predictor_frame_count, 0);
    encoder.predictor_frame_count = 2;

    let request = encoder.predictor.request_keyframe(70, frame_meta(4), true).unwrap();
    assert_eq!(encoder.execute(request), Ok(()));
    assert_eq!(encoder.predictor_frame_count, 1);
    assert_eq!(encoder.output_queue.len(), 1);
    assert_eq!(encoder.recon_queue.len(), 1);

    let request = encoder.predictor.request_keyframe(71, frame_meta(5), false).unwrap();
    assert_eq!(
        encoder.execute(request),
        Err(EncodeError::Backend(StatelessBackendError::OutOfResources))
    );
    assert_eq!(encoder.predictor_frame_count, 0);
    assert_eq!(encoder.output_queue.len(), 1);
    assert_eq!(encoder.recon_queue.len(), 1);

    let output = encoder.output_queue.pop().unwrap();
    assert!(output.is_ready());
    let coded = output.sync().unwrap();
    assert_eq!(coded.metadata, frame_meta(4));
    assert_eq!(coded.bitstream, vec![1, 2, 3]);

    let recon = encoder.recon_queue.pop().unwrap();
    assert!(recon.is_ready());
    let entry = recon.sync().unwrap();
    assert_eq!(entry.recon_pic, 70);
    assert_eq!(entry.meta.poc, 0);
    assert_eq!(entry.meta.nalu_type, NaluType::IdrWRadl);
}

/// A promise that fails.
struct Broken;

impl BackendPromise for Broken {
    type Output = Vec<u8>;

    fn is_ready(&self) -> bool {
        false
    }

    fn sync(self) -> StatelessBackendResult<Vec<u8>> {
        Err(StatelessBackendError::Other(BackendFailure::Device))
    }
}

#[test]
fn a_broken_promise_passes_its_error_on() {
    let promise = BitstreamPromise { bitstream: Broken, meta: frame_meta(0) };
    assert!(!promise.is_ready());
    assert_eq!(promise.sync().err(), Some(StatelessBackendError::Other(BackendFailure::Device)));
    let meta = DpbEntryMeta { poc: 3, nalu_type: NaluType::TrailR };
    let promise = ReferencePromise { recon: Broken, dpb_meta: meta };
    assert!(!promise.is_ready());
    assert_eq!(promise.sync().err(), Some(StatelessBackendError::Other(BackendFailure::Device)));
}

#[test]
fn default_configurations() {
    let c = EncoderConfig::default();
    assert_eq!(c.resolution, Resolution { width: 320, height: 240 });
    assert_eq!(c.profile, Profile::Main);
    assert_eq!(c.level, Level::L4);
    assert_eq!(c.pred_structure, PredictionStructure::LowDelay { limit: 2048 });
    assert_eq!(c.initial_tunings, Tunings::default());
    assert!(c.color.is_none());
    let c = cros_codecs::encoder::h264::EncoderConfig::default();
    assert_eq!(c.profile, cros_codecs::codec::h264::types::Profile::Baseline);
    assert_eq!(c.level, cros_codecs::codec::h264::types::Level::L4);
    assert_eq!(c.pred_structure, PredictionStructure::LowDelay { limit: 2048 });
}

#[test]
fn headers_behind_one_that_fails_are_not_asked_for() {
    let (mut key, _) = requests(config());
    let mut vps = (*key.vps).clone();
    vps.num_layer_sets_minus1 = u32::MAX;
    key.vps = Rc::new(vps);
    let mut sps = (*key.sps).clone();
    sps.num_short_term_ref_pic_sets = 2;
    key.sps = Rc::new(sps);
    assert!(is_submittable(&key, PACKED_HEADERS));
    let error = submissions(&key, PACKED_HEADERS, 30, 40, &[]).unwrap_err();
    assert_eq!(
        error.message().unwrap(),
        "hevc packed header: value increment caused value overflow"
    );
    key.is_idr = false;
    assert!(is_submittable(&key, PACKED_HEADERS));
}
