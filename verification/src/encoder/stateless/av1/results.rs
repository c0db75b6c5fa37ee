//! What the predictor hands out, in terms of the configuration and the tunings.

use crate::codec::av1::types::{
    BitDepth, ColorPrimaries, MatrixCoefficients, Profile, TransferCharacteristics,
};
use crate::encoder::{EncodeError, RateControl};
use crate::encoder::stateless::FrameMetadata;
use crate::encoder::stateless::av1::BackendRequest;
use crate::encoder::stateless::av1::predictor::LowDelayAV1;
use vstd::prelude::*;

verus! {

/// The sequence header has the size and the profile of the configuration. The size is coded in
/// sixteen bits each way.
pub proof fn law_sequence_has_the_size_of_the_frame<P, R>(
    input: P,
    meta: FrameMetadata,
    idr: bool,
    request: BackendRequest<P, R>,
)
    ensures
        forall|predictor: &mut LowDelayAV1<P, R>|
            #[trigger] call_ensures(
                LowDelayAV1::<P, R>::request_keyframe,
                (predictor, input, meta, idr),
                Ok::<BackendRequest<P, R>, EncodeError>(request),
            ) ==> {
                let s = request.sequence;
                let size = predictor.config().resolution;
                &&& s.max_frame_width_minus_1 + 1 == size.width
                &&& s.max_frame_height_minus_1 + 1 == size.height
                &&& s.frame_width_bits_minus_1 + 1 == 16
                &&& s.frame_height_bits_minus_1 + 1 == 16
                &&& s.seq_profile == Profile::Profile0
                &&& predictor.config().profile == Profile::Profile0
                &&& s.seq_level_idx == 7
                &&& !s.seq_tier
                &&& s.operating_point_idc == 0
                &&& !s.still_picture
            },
{
}

/// The bit depth of the sequence header is that of the configuration, eight or ten bits, in
/// 4:2:0 sampling.
pub proof fn law_sequence_has_the_bit_depth<P, R>(
    input: P,
    meta: FrameMetadata,
    idr: bool,
    request: BackendRequest<P, R>,
)
    ensures
        forall|predictor: &mut LowDelayAV1<P, R>|
            #[trigger] call_ensures(
                LowDelayAV1::<P, R>::request_keyframe,
                (predictor, input, meta, idr),
                Ok::<BackendRequest<P, R>, EncodeError>(request),
            ) ==> {
                let s = request.sequence;
                let depth = predictor.config().bit_depth;
                &&& s.bit_depth == depth
                &&& depth == BitDepth::Depth8 || depth == BitDepth::Depth10
                &&& s.color_config.high_bitdepth <==> depth == BitDepth::Depth10
                &&& !s.color_config.twelve_bit
                &&& !s.color_config.mono_chrome
                &&& s.color_config.subsampling_x
                &&& s.color_config.subsampling_y
                &&& s.color_config.chroma_sample_position == 0
                &&& !s.color_config.separate_uv_delta_q
            },
{
}

/// The colour description of the configuration is that of the sequence header: each code point
/// that is known, and the range. Without a description there is none.
pub proof fn law_colours_are_signalled<P, R>(
    input: P,
    meta: FrameMetadata,
    idr: bool,
    request: BackendRequest<P, R>,
)
    ensures
        forall|predictor: &mut LowDelayAV1<P, R>|
            #[trigger] call_ensures(
                LowDelayAV1::<P, R>::request_keyframe,
                (predictor, input, meta, idr),
                Ok::<BackendRequest<P, R>, EncodeError>(request),
            ) ==> {
                let c = request.sequence.color_config;
                let color = predictor.config().color;
                &&& c.color_description_present_flag <==> color is Some
                &&& color matches Some(info) ==> {
                    &&& c.color_range == info.full_range
                    &&& forall|x: ColorPrimaries| #[trigger]
                        x.code() == info.primaries ==> c.color_primaries == x
                    &&& forall|x: TransferCharacteristics| #[trigger]
                        x.code() == info.transfer ==> c.transfer_characteristics == x
                    &&& forall|x: MatrixCoefficients| #[trigger]
                        x.code() == info.matrix ==> c.matrix_coefficients == x
                    &&& c.color_primaries.code() == info.primaries || c.color_primaries
                        == ColorPrimaries::Unspecified
                    &&& c.transfer_characteristics.code() == info.transfer
                        || c.transfer_characteristics == TransferCharacteristics::Unspecified
                    &&& c.matrix_coefficients.code() == info.matrix || c.matrix_coefficients
                        == MatrixCoefficients::Unspecified
                }
                &&& color is None ==> {
                    &&& !c.color_range
                    &&& c.color_primaries == ColorPrimaries::Unspecified
                    &&& c.transfer_characteristics == TransferCharacteristics::Unspecified
                    &&& c.matrix_coefficients == MatrixCoefficients::Unspecified
                }
            },
{
    assert forall|x: ColorPrimaries, y: ColorPrimaries| #[trigger] x.code() == #[trigger] y.code()
        implies x == y by {}
    assert forall|x: TransferCharacteristics, y: TransferCharacteristics| #[trigger]
        x.code() == #[trigger] y.code() implies x == y by {}
    assert forall|x: MatrixCoefficients, y: MatrixCoefficients| #[trigger] x.code()
        == #[trigger] y.code() implies x == y by {}
}

/// Of the tools of a sequence only the order hint, of eight bits, and the choice of integer
/// motion vectors by the frame are on.
pub proof fn law_tools_of_the_sequence<P, R>(
    input: P,
    meta: FrameMetadata,
    idr: bool,
    request: BackendRequest<P, R>,
)
    ensures
        forall|predictor: &mut LowDelayAV1<P, R>|
            #[trigger] call_ensures(
                LowDelayAV1::<P, R>::request_keyframe,
                (predictor, input, meta, idr),
                Ok::<BackendRequest<P, R>, EncodeError>(request),
            ) ==> {
                let s = request.sequence;
                &&& s.enable_order_hint
                &&& s.order_hint_bits_minus_1 + 1 == 8
                &&& s.seq_choose_integer_mv
                &&& !s.seq_force_integer_mv
                &&& !s.seq_choose_screen_content_tools
                &&& !s.seq_force_screen_content_tools
                &&& !s.use_128x128_superblock
                &&& !s.enable_filter_intra
                &&& !s.enable_intra_edge_filter
                &&& !s.enable_interintra_compound
                &&& !s.enable_masked_compound
                &&& !s.enable_warped_motion
                &&& !s.enable_dual_filter
                &&& !s.enable_jnt_comp
                &&& !s.enable_ref_frame_mvs
                &&& !s.enable_superres
                &&& !s.enable_cdef
                &&& !s.enable_restoration
                &&& !s.film_grain_params_present
            },
{
}

/// The quantizer index of a keyframe is the constant quality where the bounds of the tunings
/// admit it, and otherwise the bound that it passes. It is never above 255.
pub proof fn law_quantizer_index<P, R>(
    input: P,
    meta: FrameMetadata,
    idr: bool,
    request: BackendRequest<P, R>,
)
    ensures
        forall|predictor: &mut LowDelayAV1<P, R>|
            #[trigger] call_ensures(
                LowDelayAV1::<P, R>::request_keyframe,
                (predictor, input, meta, idr),
                Ok::<BackendRequest<P, R>, EncodeError>(request),
            ) ==> {
                let tunings = predictor.tunings;
                let (least, most) = (tunings.min_quality, tunings.max_quality);
                &&& tunings.rate_control matches RateControl::ConstantQuality(q) && {
                    &&& least <= q <= most && q <= 255 ==> request.base_q_idx == q
                    &&& q < least <= 255 ==> request.base_q_idx == least
                    &&& least <= most < q && most <= 255 ==> request.base_q_idx == most
                    &&& least > 255 ==> request.base_q_idx == 255
                    &&& q > 255 && most >= 255 ==> request.base_q_idx == 255
                    &&& most < least <= 255 ==> request.base_q_idx == least
                }
            },
{
}

/// A request hands on what it was made for: the frame and its metadata, the tunings and the
/// period of the keyframes. It has no references.
pub proof fn law_keyframe_request<P, R>(
    input: P,
    meta: FrameMetadata,
    idr: bool,
    request: BackendRequest<P, R>,
)
    ensures
        forall|predictor: &mut LowDelayAV1<P, R>|
            #[trigger] call_ensures(
                LowDelayAV1::<P, R>::request_keyframe,
                (predictor, input, meta, idr),
                Ok::<BackendRequest<P, R>, EncodeError>(request),
            ) ==> {
                &&& request.input == input
                &&& request.input_meta == meta
                &&& request.tunings == predictor.tunings
                &&& request.intra_period == predictor.limit
                &&& request.ip_period == 1
                &&& request.references@.len() == 0
                &&& request.coded_output@.len() == 0
            },
{
}

/// A keyframe is refused exactly for a bitrate target, for another profile than the main one,
/// for twelve bits, and for a frame that has no samples or does not fit in sixteen bits.
pub proof fn law_keyframe_refusals<P, R>(
    input: P,
    meta: FrameMetadata,
    idr: bool,
    r: Result<BackendRequest<P, R>, EncodeError>,
)
    ensures
        forall|predictor: &mut LowDelayAV1<P, R>|
            #[trigger] call_ensures(
                LowDelayAV1::<P, R>::request_keyframe,
                (predictor, input, meta, idr),
                r,
            ) ==> {
                let config = predictor.config();
                &&& r is Err <==> {
                    ||| predictor.tunings.rate_control is ConstantBitrate
                    ||| config.profile != Profile::Profile0
                    ||| config.bit_depth == BitDepth::Depth12
                    ||| config.resolution.width == 0
                    ||| config.resolution.height == 0
                    ||| config.resolution.width - 1 >= 0x1_0000
                    ||| config.resolution.height - 1 >= 0x1_0000
                }
                &&& r matches Err(e) ==> e == EncodeError::Unsupported
            },
{
}

} // verus!
