//! The AV1 encoder's 10-bit selection and colour description: the predictor builds the
//! sequence header, which is written and parsed again.

use cros_codecs::codec::av1::parser::{ObuAction, ParsedObu, Parser};
use cros_codecs::codec::av1::synthesizer::Synthesizer;
use cros_codecs::codec::av1::types::{
    BitDepth, ColorPrimaries, MatrixCoefficients, Profile, SequenceHeaderObu,
    TransferCharacteristics,
};
use cros_codecs::encoder::av1::EncoderConfig;
use cros_codecs::encoder::stateless::av1::predictor::LowDelayAV1;
use cros_codecs::encoder::stateless::FrameMetadata;
use cros_codecs::encoder::{EncodeError, EncoderColorInfo, PredictionStructure, RateControl, Tunings};
use cros_codecs::frame::{Fourcc, FrameLayout, Resolution};
use std::rc::Rc;

fn config(bit_depth: BitDepth, color: Option<EncoderColorInfo>) -> EncoderConfig {
    EncoderConfig {
        profile: Profile::Profile0,
        bit_depth,
        resolution: Resolution { width: 1920, height: 1080 },
        pred_structure: PredictionStructure::LowDelay { limit: 1024 },
        // The AV1 frame-header path derives base_q_idx from a ConstantQuality
        // rate control (it errors on a bitrate target), so the host tests use CQP.
        initial_tunings: Tunings {
            rate_control: RateControl::ConstantQuality(128),
            ..Default::default()
        },
        color,
    }
}

fn frame_meta(timestamp: u64) -> FrameMetadata {
    FrameMetadata {
        timestamp,
        layout: FrameLayout {
            format: (Fourcc::from(b"P010"), 0),
            size: Resolution { width: 1920, height: 1080 },
            planes: vec![],
        },
        force_keyframe: false,
    }
}

/// Drive the predictor's keyframe path and return the sequence header it built.
fn keyframe_sequence(bit_depth: BitDepth, color: Option<EncoderColorInfo>) -> SequenceHeaderObu {
    let mut pred: LowDelayAV1<(), ()> = LowDelayAV1::new(config(bit_depth, color), 1024);
    let req = pred.request_keyframe((), frame_meta(0), true).unwrap();
    req.sequence
}

/// Synthesize the sequence header OBU and parse it back through the AV1 parser.
fn round_trip(seq: &SequenceHeaderObu) -> Rc<SequenceHeaderObu> {
    let mut buf = Vec::new();
    Synthesizer::<'_, SequenceHeaderObu>::synthesize(seq, &mut buf).unwrap();

    let mut parser = Parser::default();
    let obu = match parser.read_obu(&buf).unwrap() {
        ObuAction::Process(obu) => obu,
        ObuAction::Drop(_) => panic!("sequence header OBU was dropped"),
    };
    match parser.parse_obu(obu).unwrap() {
        ParsedObu::SequenceHeader(s) => s,
        other => panic!("expected a sequence header, got {:?}", other.obu_type()),
    }
}

#[test]
fn profile0_10bit_selects_high_bitdepth() {
    let seq = keyframe_sequence(BitDepth::Depth10, None);
    assert_eq!(seq.seq_profile, Profile::Profile0);
    assert_eq!(seq.bit_depth, BitDepth::Depth10);
    assert!(seq.color_config.high_bitdepth, "10-bit ⇒ high_bitdepth");
    // No colour requested ⇒ description absent, primaries left Unspecified.
    assert!(!seq.color_config.color_description_present_flag);

    let parsed = round_trip(&seq);
    assert_eq!(parsed.bit_depth, BitDepth::Depth10, "10-bit survives round-trip");
    assert!(!parsed.color_config.color_description_present_flag);
}

#[test]
fn profile0_8bit_stays_8bit_no_colour() {
    let seq = keyframe_sequence(BitDepth::Depth8, None);
    assert_eq!(seq.bit_depth, BitDepth::Depth8);
    assert!(!seq.color_config.high_bitdepth, "8-bit ⇒ no high_bitdepth");

    let parsed = round_trip(&seq);
    assert_eq!(parsed.bit_depth, BitDepth::Depth8);
    assert!(!parsed.color_config.color_description_present_flag, "colour absent by default");
}

#[test]
fn cicp_color_config_survives_round_trip_10bit() {
    // BT.2020 NCL / PQ, limited range — HDR10 in a Profile0 10-bit stream.
    let color = EncoderColorInfo { primaries: 9, transfer: 16, matrix: 9, full_range: false };
    let seq = keyframe_sequence(BitDepth::Depth10, Some(color));

    let cc = &seq.color_config;
    assert!(cc.color_description_present_flag);
    assert_eq!(cc.color_primaries, ColorPrimaries::Bt2020);
    assert_eq!(cc.transfer_characteristics, TransferCharacteristics::Smpte2084);
    assert_eq!(cc.matrix_coefficients, MatrixCoefficients::Bt2020Ncl);
    assert!(!cc.color_range, "limited range");

    let parsed = round_trip(&seq);
    let pcc = &parsed.color_config;
    assert!(pcc.color_description_present_flag, "colour survives synth+parse");
    assert_eq!(pcc.color_primaries, ColorPrimaries::Bt2020);
    assert_eq!(pcc.transfer_characteristics, TransferCharacteristics::Smpte2084);
    assert_eq!(pcc.matrix_coefficients, MatrixCoefficients::Bt2020Ncl);
    assert!(!pcc.color_range);
    assert_eq!(parsed.bit_depth, BitDepth::Depth10);
}

#[test]
fn cicp_full_range_bt709_survives_round_trip_8bit() {
    // BT.709 limited→full range flag, 8-bit Profile0.
    let color = EncoderColorInfo { primaries: 1, transfer: 1, matrix: 1, full_range: true };
    let seq = keyframe_sequence(BitDepth::Depth8, Some(color));

    let parsed = round_trip(&seq);
    let pcc = &parsed.color_config;
    assert!(pcc.color_description_present_flag);
    assert_eq!(pcc.color_primaries, ColorPrimaries::Bt709);
    assert_eq!(pcc.transfer_characteristics, TransferCharacteristics::Bt709);
    assert_eq!(pcc.matrix_coefficients, MatrixCoefficients::Bt709);
    assert!(pcc.color_range, "full range");
}

#[test]
fn bitrate_target_and_unsupported_configurations_are_refused() {
    let mut bitrate = config(BitDepth::Depth8, None);
    bitrate.initial_tunings = Tunings::default();
    let mut pred: LowDelayAV1<(), ()> = LowDelayAV1::new(bitrate, 1024);
    assert_eq!(pred.request_keyframe((), frame_meta(0), true).err(), Some(EncodeError::Unsupported));

    let mut pred: LowDelayAV1<(), ()> = LowDelayAV1::new(config(BitDepth::Depth12, None), 1024);
    assert_eq!(pred.request_keyframe((), frame_meta(0), true).err(), Some(EncodeError::Unsupported));

    let mut empty = config(BitDepth::Depth8, None);
    empty.resolution = Resolution { width: 0, height: 16 };
    let mut pred: LowDelayAV1<(), ()> = LowDelayAV1::new(empty, 1024);
    assert_eq!(pred.request_keyframe((), frame_meta(0), true).err(), Some(EncodeError::Unsupported));
}

#[test]
fn quantizer_index_is_the_constant_quality() {
    let mut pred: LowDelayAV1<(), ()> = LowDelayAV1::new(config(BitDepth::Depth8, None), 1024);
    let req = pred.request_keyframe((), frame_meta(3), true).unwrap();
    assert_eq!(req.base_q_idx, 128);
    assert_eq!(req.intra_period, 1024);
    assert_eq!(req.ip_period, 1);
    assert_eq!(req.sequence.max_frame_width_minus_1, 1919);
    assert_eq!(req.sequence.max_frame_height_minus_1, 1079);
}
