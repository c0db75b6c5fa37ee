//! The configuration of an H.264 encoder.

use crate::codec::h264::types::{Level, Profile};
use crate::encoder::{EncoderColorInfo, PredictionStructure, Tunings};
use crate::frame::Resolution;
use vstd::prelude::*;

verus! {

/// The H.264 codec.
pub struct H264;

#[derive(Clone, Copy)]
pub struct EncoderConfig {
    pub resolution: Resolution,
    pub profile: Profile,
    pub level: Level,
    pub pred_structure: PredictionStructure,
    /// Initial tunings values
    pub initial_tunings: Tunings,
    /// Optional colour description, carried in the video usability information.
    /// Without it no colour is signalled.
    pub color: Option<EncoderColorInfo>,
}

impl EncoderConfig {
    /// A configuration with intent to be widely supported.
    pub open spec fn initial() -> Self {
        EncoderConfig {
            resolution: Resolution { width: 320, height: 240 },
            profile: Profile::Baseline,
            level: Level::L4,
            pred_structure: PredictionStructure::LowDelay { limit: 2048 },
            initial_tunings: Tunings::initial(),
            color: None,
        }
    }
}

impl Default for EncoderConfig {
    fn default() -> (r: Self)
        ensures
            r == Self::initial(),
    {
        EncoderConfig {
            resolution: Resolution { width: 320, height: 240 },
            profile: Profile::Baseline,
            level: Level::L4,
            pred_structure: PredictionStructure::LowDelay { limit: 2048 },
            initial_tunings: Tunings::default(),
            color: None,
        }
    }
}

} // verus!
