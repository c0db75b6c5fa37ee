//! The low delay predictor of the AV1 encoder: the sequence header, and the request for a
//! keyframe.

use crate::bits::{lemma_pow2_pos, lemma_pow2_values};
use crate::codec::av1::parser::{
    law_sequence_header_round_trip, lemma_synthesized_payload, sequence_parsed,
};
use crate::codec::av1::sequence::sequence_same;
use crate::codec::av1::synthesizer::obu_payload;
use crate::codec::av1::tables::{
    color_config_syntax, color_head_syntax, color_tail_syntax, seq_filter_syntax, seq_frame_syntax,
    seq_general_syntax, seq_inter_syntax, seq_screen_syntax, sequence_header_syntax,
};
use crate::codec::av1::types::{
    BitDepth, ColorConfig, ColorPrimaries, MatrixCoefficients, Profile, SequenceHeaderObu,
    TransferCharacteristics,
};
use crate::encoder::{EncodeError, EncodeResult, EncoderColorInfo, RateControl, Tunings};
use crate::encoder::av1::EncoderConfig;
use crate::encoder::stateless::FrameMetadata;
use crate::encoder::stateless::av1::{BackendRequest, DpbEntry};
use crate::encoder::stateless::predictor::LowDelay;
use crate::syntax::group_onto;
use std::collections::VecDeque;
use std::marker::PhantomData;
use vstd::prelude::*;

verus! {

/// The number of bits of a frame size, minus one.
pub const FRAME_SIZE_BITS_MINUS_1: u8 = 15;

/// The level index of the operating point.
pub const SEQ_LEVEL_IDX: u8 = 7;

/// The number of bits of an order hint, minus one.
pub const ORDER_HINT_BITS_MINUS_1: u8 = 7;

/// The quantizer index of a keyframe: the constant quality, kept within the bounds of the
/// tunings and of a byte. There is none for a bitrate target.
pub open spec fn spec_base_q_idx(tunings: Tunings) -> Option<int> {
    match tunings.rate_control {
        RateControl::ConstantQuality(q) => {
            let min = if tunings.min_quality > 255 { 255int } else { tunings.min_quality as int };
            let top = if tunings.max_quality > 255 { 255int } else { tunings.max_quality as int };
            let max = if top < min { min } else { top };
            Some(if q < min { min } else if q > max { max } else { q as int })
        },
        RateControl::ConstantBitrate(_) => None,
    }
}

/// The quantizer index of a keyframe.
fn base_q_idx(tunings: &Tunings) -> (r: Option<u8>)
    ensures
        match r {
            Some(q) => spec_base_q_idx(*tunings) == Some(q as int),
            None => spec_base_q_idx(*tunings) is None,
        },
{
    match tunings.rate_control {
        RateControl::ConstantQuality(q) => {
            let min: u32 = if tunings.min_quality > 255 {
                255
            } else {
                tunings.min_quality
            };
            let top: u32 = if tunings.max_quality > 255 {
                255
            } else {
                tunings.max_quality
            };
            let max: u32 = if top < min {
                min
            } else {
                top
            };
            Some(
                if q < min {
                    min as u8
                } else if q > max {
                    max as u8
                } else {
                    q as u8
                },
            )
        },
        RateControl::ConstantBitrate(_) => None,
    }
}

/// Whether `c` is the colour configuration for a bit depth and a colour description. A code
/// point that is not known is left unspecified.
pub open spec fn color_built(
    c: ColorConfig,
    bit_depth: BitDepth,
    color: Option<EncoderColorInfo>,
) -> bool {
    &&& c.high_bitdepth == (bit_depth != BitDepth::Depth8)
    &&& c.twelve_bit == (bit_depth == BitDepth::Depth12)
    &&& !c.mono_chrome
    &&& c.color_description_present_flag == (color is Some)
    &&& match color {
        Some(info) => {
            &&& c.color_primaries.code() == info.primaries
                || (c.color_primaries == ColorPrimaries::Unspecified
                && forall|x: ColorPrimaries| #[trigger] x.code() != info.primaries)
            &&& c.transfer_characteristics.code() == info.transfer || (c.transfer_characteristics
                == TransferCharacteristics::Unspecified
                    && forall|x: TransferCharacteristics| #[trigger]
                x.code() != info.transfer)
            &&& c.matrix_coefficients.code() == info.matrix || (c.matrix_coefficients
                == MatrixCoefficients::Unspecified
                    && forall|x: MatrixCoefficients| #[trigger] x.code()
                != info.matrix)
            &&& c.color_range == info.full_range
        },
        None => {
            &&& c.color_primaries == ColorPrimaries::Unspecified
            &&& c.transfer_characteristics == TransferCharacteristics::Unspecified
            &&& c.matrix_coefficients == MatrixCoefficients::Unspecified
            &&& !c.color_range
        },
    }
    &&& c.subsampling_x
    &&& c.subsampling_y
    &&& c.chroma_sample_position == 0
    &&& !c.separate_uv_delta_q
}

/// The colour configuration for a bit depth and a colour description.
fn build_color(bit_depth: BitDepth, color: Option<EncoderColorInfo>) -> (c: ColorConfig)
    ensures
        color_built(c, bit_depth, color),
{
    let mut color_primaries = ColorPrimaries::Unspecified;
    let mut transfer_characteristics = TransferCharacteristics::Unspecified;
    let mut matrix_coefficients = MatrixCoefficients::Unspecified;
    let mut color_range: bool = false;
    if let Some(info) = color {
        if let Some(x) = ColorPrimaries::from_u8(info.primaries) {
            color_primaries = x;
        }
        if let Some(x) = TransferCharacteristics::from_u8(info.transfer) {
            transfer_characteristics = x;
        }
        if let Some(x) = MatrixCoefficients::from_u8(info.matrix) {
            matrix_coefficients = x;
        }
        color_range = info.full_range;
    }
    ColorConfig {
        high_bitdepth: bit_depth != BitDepth::Depth8,
        twelve_bit: bit_depth == BitDepth::Depth12,
        mono_chrome: false,
        color_description_present_flag: color.is_some(),
        color_primaries,
        transfer_characteristics,
        matrix_coefficients,
        color_range,
        subsampling_x: true,
        subsampling_y: true,
        chroma_sample_position: 0,
        separate_uv_delta_q: false,
    }
}

/// Whether `s` is the sequence header for the configuration.
pub open spec fn sequence_built(s: SequenceHeaderObu, config: EncoderConfig) -> bool {
    &&& s == (SequenceHeaderObu {
        seq_profile: config.profile,
        still_picture: false,
        operating_point_idc: 0,
        seq_level_idx: SEQ_LEVEL_IDX,
        seq_tier: false,
        frame_width_bits_minus_1: FRAME_SIZE_BITS_MINUS_1,
        frame_height_bits_minus_1: FRAME_SIZE_BITS_MINUS_1,
        max_frame_width_minus_1: (config.resolution.width - 1) as u16,
        max_frame_height_minus_1: (config.resolution.height - 1) as u16,
        use_128x128_superblock: false,
        enable_filter_intra: false,
        enable_intra_edge_filter: false,
        enable_interintra_compound: false,
        enable_masked_compound: false,
        enable_warped_motion: false,
        enable_dual_filter: false,
        enable_order_hint: true,
        enable_jnt_comp: false,
        enable_ref_frame_mvs: false,
        seq_choose_screen_content_tools: false,
        seq_force_screen_content_tools: false,
        seq_choose_integer_mv: true,
        seq_force_integer_mv: false,
        order_hint_bits_minus_1: ORDER_HINT_BITS_MINUS_1,
        enable_superres: false,
        enable_cdef: false,
        enable_restoration: false,
        color_config: s.color_config,
        film_grain_params_present: false,
        bit_depth: config.bit_depth,
    })
    &&& color_built(s.color_config, config.bit_depth, config.color)
}

/// Whether a sequence header can be built: 4:2:0 video of the main profile, of at most ten
/// bits, in a frame that has samples and whose size fits in the sequence header.
pub open spec fn sequence_buildable(config: EncoderConfig) -> bool {
    &&& config.profile == Profile::Profile0
    &&& config.bit_depth != BitDepth::Depth12
    &&& 1 <= config.resolution.width <= 0x1_0000
    &&& 1 <= config.resolution.height <= 0x1_0000
}

/// The sequence header for the configuration.
fn build_sequence(config: &EncoderConfig) -> (s: SequenceHeaderObu)
    requires
        sequence_buildable(*config),
    ensures
        sequence_built(s, *config),
{
    SequenceHeaderObu {
        seq_profile: config.profile,
        still_picture: false,
        operating_point_idc: 0,
        seq_level_idx: SEQ_LEVEL_IDX,
        seq_tier: false,
        frame_width_bits_minus_1: FRAME_SIZE_BITS_MINUS_1,
        frame_height_bits_minus_1: FRAME_SIZE_BITS_MINUS_1,
        max_frame_width_minus_1: (config.resolution.width - 1) as u16,
        max_frame_height_minus_1: (config.resolution.height - 1) as u16,
        use_128x128_superblock: false,
        enable_filter_intra: false,
        enable_intra_edge_filter: false,
        enable_interintra_compound: false,
        enable_masked_compound: false,
        enable_warped_motion: false,
        enable_dual_filter: false,
        enable_order_hint: true,
        enable_jnt_comp: false,
        enable_ref_frame_mvs: false,
        seq_choose_screen_content_tools: false,
        seq_force_screen_content_tools: false,
        seq_choose_integer_mv: true,
        seq_force_integer_mv: false,
        order_hint_bits_minus_1: ORDER_HINT_BITS_MINUS_1,
        enable_superres: false,
        enable_cdef: false,
        enable_restoration: false,
        color_config: build_color(config.bit_depth, config.color),
        film_grain_params_present: false,
        bit_depth: config.bit_depth,
    }
}

/// The part of the predictor's state that is specific to AV1.
pub struct LowDelayAV1Delegate {
    /// Encoder config.
    config: EncoderConfig,
}

pub type LowDelayAV1<Picture, Reference> = LowDelay<
    Picture,
    DpbEntry<Reference>,
    LowDelayAV1Delegate,
    BackendRequest<Picture, Reference>,
>;

impl<Picture, Reference> LowDelay<
    Picture,
    DpbEntry<Reference>,
    LowDelayAV1Delegate,
    BackendRequest<Picture, Reference>,
> {
    /// The configuration.
    pub closed spec fn config(&self) -> EncoderConfig {
        self.delegate.config
    }

    /// A predictor before its first frame.
    pub fn new(config: EncoderConfig, limit: u16) -> (p: Self)
        ensures
            p.queue@.len() == 0,
            p.references@.len() == 0,
            p.counter == 0,
            p.limit == limit,
            p.tunings == config.initial_tunings,
            p.tunings_queue@.len() == 0,
            p.config() == config,
    {
        LowDelay {
            queue: VecDeque::new(),
            references: VecDeque::new(),
            counter: 0,
            limit,
            tunings: config.initial_tunings,
            delegate: LowDelayAV1Delegate { config },
            tunings_queue: VecDeque::new(),
            _phantom: PhantomData,
        }
    }

    /// The request for a keyframe. A bitrate target, and a configuration for which there is
    /// no sequence header, are refused.
    pub fn request_keyframe(
        &mut self,
        input: Picture,
        input_meta: FrameMetadata,
        _idr: bool,
    ) -> (r: EncodeResult<
        BackendRequest<Picture, Reference>,
    >)
        ensures
            *final(self) == *old(self),
            match r {
                Ok(req) => {
                    &&& sequence_buildable(old(self).config())
                    &&& sequence_built(req.sequence, old(self).config())
                    &&& spec_base_q_idx(old(self).tunings) == Some(req.base_q_idx as int)
                    &&& req.input == input
                    &&& req.input_meta == input_meta
                    &&& req.references@.len() == 0
                    &&& req.intra_period == old(self).limit
                    &&& req.ip_period == 1
                    &&& req.tunings == old(self).tunings
                    &&& req.coded_output@.len() == 0
                },
                Err(e) => {
                    &&& e == EncodeError::Unsupported
                    &&& !sequence_buildable(old(self).config())
                        || spec_base_q_idx(old(self).tunings) is None
                },
            },
    {
        let config = self.delegate.config;
        let size = config.resolution;
        if config.profile != Profile::Profile0 || config.bit_depth == BitDepth::Depth12
            || size.width < 1
            || size.width > 0x1_0000 || size.height < 1 || size.height > 0x1_0000 {
            return Err(EncodeError::Unsupported);
        }
        let base_q_idx: u8 = match base_q_idx(&self.tunings) {
            Some(q) => q,
            None => return Err(EncodeError::Unsupported),
        };
        Ok(
            BackendRequest {
                sequence: build_sequence(&config),
                base_q_idx,
                input,
                input_meta,
                references: Vec::new(),
                intra_period: self.limit as u32,
                ip_period: 1,
                tunings: self.tunings,
                coded_output: Vec::new(),
            },
        )
    }
}

/// The sequence header of every configuration can be written in full, and is consistent; so
/// it round-trips through the parser: 10-bit video and the colour description survive.
pub proof fn law_built_sequence_round_trips(s: SequenceHeaderObu, config: EncoderConfig)
    requires
        sequence_buildable(config),
        sequence_built(s, config),
    ensures
        s.inferred(),
        sequence_header_syntax(s).fits(),
        forall|r: Option<SequenceHeaderObu>| #[trigger]
            sequence_parsed(obu_payload(sequence_header_syntax(s)), r) ==> {
                &&& r is Some
                &&& sequence_same(r->0, s)
            },
{
    broadcast use group_onto;

    lemma_pow2_values();
    reveal(sequence_header_syntax);
    reveal(seq_general_syntax);
    reveal(seq_frame_syntax);
    reveal(seq_inter_syntax);
    reveal(seq_screen_syntax);
    reveal(seq_filter_syntax);
    reveal(color_config_syntax);
    reveal(color_head_syntax);
    reveal(color_tail_syntax);
    lemma_pow2_pos(12);
    assert(s.inferred());
    assert(sequence_header_syntax(s).fits());
    law_sequence_header_round_trip(s);
    lemma_synthesized_payload(s);
}

} // verus!
