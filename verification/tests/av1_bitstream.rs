//! Exact bytes and errors of the AV1 synthesizer and parser.

use cros_codecs::codec::av1::leb128::{read_leb128, write_leb128};
use cros_codecs::codec::av1::parser::{Obu, ObuAction, ObuError, ParsedObu, Parser};
use cros_codecs::codec::av1::synthesizer::Synthesizer;
use cros_codecs::codec::av1::types::{BitDepth, ObuType, Profile, SequenceHeaderObu};
use cros_codecs::codec::nalu_writer::NaluWriterError;
use cros_codecs::encoder::av1::EncoderConfig;
use cros_codecs::encoder::stateless::av1::predictor::LowDelayAV1;
use cros_codecs::encoder::stateless::FrameMetadata;
use cros_codecs::encoder::{RateControl, Tunings};
use cros_codecs::frame::{Fourcc, FrameLayout, Resolution};

fn sequence() -> SequenceHeaderObu {
    let config = EncoderConfig {
        resolution: Resolution { width: 1920, height: 1080 },
        initial_tunings: Tunings {
            rate_control: RateControl::ConstantQuality(128),
            ..Default::default()
        },
        ..Default::default()
    };
    let meta = FrameMetadata {
        timestamp: 0,
        layout: FrameLayout {
            format: (Fourcc::from(b"NV12"), 0),
            size: Resolution { width: 1920, height: 1080 },
            planes: vec![],
        },
        force_keyframe: false,
    };
    let mut pred: LowDelayAV1<(), ()> = LowDelayAV1::new(config, 1024);
    pred.request_keyframe((), meta, true).unwrap().sequence
}

#[test]
fn sequence_header_bytes() {
    let mut buf = Vec::new();
    Synthesizer::<'_, SequenceHeaderObu>::synthesize(&sequence(), &mut buf).unwrap();
    assert_eq!(
        buf,
        vec![
            0x0a, 0x0d, 0x00, 0x00, 0x00, 0x3f, 0xf8, 0x3b, 0xf8, 0x21, 0xb8, 0x04, 0x38, 0x00,
            0x80
        ]
    );
}

#[test]
fn a_field_of_more_than_32_bits_is_refused() {
    let mut seq = sequence();
    seq.frame_width_bits_minus_1 = 32;
    let mut buf = vec![9u8];
    let r = Synthesizer::<'_, SequenceHeaderObu>::synthesize(&seq, &mut buf);
    assert_eq!(r, Err(NaluWriterError::InvalidBitCount));
    assert_eq!(buf, vec![9]);
}

#[test]
fn twelve_bit_professional_profile_round_trips() {
    let mut seq = sequence();
    seq.seq_profile = Profile::Profile2;
    seq.bit_depth = BitDepth::Depth12;
    seq.color_config.high_bitdepth = true;
    seq.color_config.twelve_bit = true;
    seq.color_config.subsampling_x = true;
    seq.color_config.subsampling_y = false;
    let mut buf = Vec::new();
    Synthesizer::<'_, SequenceHeaderObu>::synthesize(&seq, &mut buf).unwrap();
    let mut parser = Parser::default();
    let obu = match parser.read_obu(&buf).unwrap() {
        ObuAction::Process(obu) => obu,
        ObuAction::Drop(_) => panic!("dropped"),
    };
    let parsed = parser.parse_obu(obu).unwrap();
    assert_eq!(parsed.obu_type(), ObuType::SequenceHeader);
    match parsed {
        ParsedObu::SequenceHeader(s) => assert_eq!(*s, seq),
        ParsedObu::Other(_) => panic!("not a sequence header"),
    }
}

#[test]
fn obu_errors() {
    let mut parser = Parser::default();
    assert_eq!(parser.read_obu(&[]).err(), Some(ObuError::TooShort));
    assert_eq!(parser.read_obu(&[0x8a, 0]).err(), Some(ObuError::InvalidHeader));
    assert_eq!(parser.read_obu(&[0x0a, 0x05, 1, 2]).err(), Some(ObuError::TooShort));
    assert_eq!(parser.read_obu(&[0x0a, 0x80]).err(), Some(ObuError::TooShort));
    assert_eq!(parser.read_obu(&[0x0e]).err(), Some(ObuError::TooShort));
    // Type 9 is reserved.
    assert_eq!(parser.read_obu(&[0x4a, 0x02, 7, 7, 7]).unwrap(), ObuAction::Drop(4));
    // Without a size the OBU reaches to the end of the data.
    assert_eq!(
        parser.read_obu(&[0x10, 1, 2]).unwrap(),
        ObuAction::Process(Obu { obu_type: ObuType::TemporalDelimiter, payload: vec![1, 2] })
    );
    let other = Obu { obu_type: ObuType::Padding, payload: vec![] };
    assert_eq!(parser.parse_obu(other).unwrap(), ParsedObu::Other(ObuType::Padding));
    let short = Obu { obu_type: ObuType::SequenceHeader, payload: vec![0, 0] };
    assert_eq!(parser.parse_obu(short).err(), Some(ObuError::Invalid));
}

#[test]
fn leb128_numbers() {
    let mut out = Vec::new();
    write_leb128(&mut out, 0);
    write_leb128(&mut out, 127);
    write_leb128(&mut out, 300);
    assert_eq!(out, vec![0, 127, 0xac, 0x02]);
    assert_eq!(read_leb128(&out, 1, 8), Some((127, 1)));
    assert_eq!(read_leb128(&out, 2, 8), Some((300, 2)));
    assert_eq!(read_leb128(&out, 2, 1), None);
    assert_eq!(read_leb128(&out, 4, 8), None);
    assert_eq!(read_leb128(&[0xff; 9], 0, 8), None);
}
