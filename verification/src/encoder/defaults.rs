//! The configurations that are meant where nothing is chosen.

use crate::codec::av1::types::{BitDepth, Profile as ProfileOfAv1};
use crate::codec::h264::types::{Level as LevelOfH264, Profile as ProfileOfH264};
use crate::codec::h265::types::{Level, Profile};
use crate::encoder::{PredictionStructure, RateControl, Tunings};
use crate::encoder::{av1, h264, h265};
use vstd::prelude::*;

verus! {

/// Whether the tunings are 200 kilobits and 30 frames a second, of any quality.
pub open spec fn are_default(t: Tunings) -> bool {
    &&& t.rate_control == RateControl::ConstantBitrate(200_000)
    &&& t.framerate == 30
    &&& t.min_quality == 0
    &&& t.max_quality == u32::MAX
}

/// The default tunings are 200 kilobits and 30 frames a second, of any quality.
pub proof fn law_default_tunings(t: Tunings)
    requires
        call_ensures(Tunings::default, (), t),
    ensures
        are_default(t),
{
}

/// The default of H.265 is a frame of 320 by 240 samples, in the main profile at level 4, with an
/// intra frame every 2048 frames.
pub proof fn law_default_h265_config(c: h265::EncoderConfig)
    requires
        call_ensures(h265::EncoderConfig::default, (), c),
    ensures
        c.resolution.width == 320,
        c.resolution.height == 240,
        c.profile == Profile::Main,
        c.level == Level::L4,
        c.pred_structure == (PredictionStructure::LowDelay { limit: 2048 }),
        are_default(c.initial_tunings),
        c.color is None,
{
}

/// The default of H.264 is a frame of 320 by 240 samples, in the baseline profile at level 4, with
/// an intra frame every 2048 frames.
pub proof fn law_default_h264_config(c: h264::EncoderConfig)
    requires
        call_ensures(h264::EncoderConfig::default, (), c),
    ensures
        c.resolution.width == 320,
        c.resolution.height == 240,
        c.profile == ProfileOfH264::Baseline,
        c.level == LevelOfH264::L4,
        c.pred_structure == (PredictionStructure::LowDelay { limit: 2048 }),
        are_default(c.initial_tunings),
        c.color is None,
{
}

/// The default of AV1 is a frame of 320 by 240 samples of eight bits, in the main profile, with an
/// intra frame every 1024 frames.
pub proof fn law_default_av1_config(c: av1::EncoderConfig)
    requires
        call_ensures(av1::EncoderConfig::default, (), c),
    ensures
        c.resolution.width == 320,
        c.resolution.height == 240,
        c.profile == ProfileOfAv1::Profile0,
        c.bit_depth == BitDepth::Depth8,
        c.pred_structure == (PredictionStructure::LowDelay { limit: 1024 }),
        are_default(c.initial_tunings),
        c.color is None,
{
}

/// A rate control aims at a bitrate exactly where that is constant, and then at that one.
pub proof fn law_bitrate_target(rate_control: &RateControl, r: Option<u64>)
    requires
        call_ensures(RateControl::bitrate_target, (rate_control,), r),
    ensures
        r is Some <==> *rate_control is ConstantBitrate,
        r matches Some(target) ==> *rate_control == RateControl::ConstantBitrate(target),
{
}

} // verus!
