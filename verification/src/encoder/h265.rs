//! The configuration of an H.265 encoder.

use crate::codec::h265::types::{Level, Profile};
use crate::encoder::{EncoderColorInfo, PredictionStructure, Tunings};
use crate::frame::Resolution;
use vstd::prelude::*;

verus! {

/// The H.265 codec.
pub struct H265;

#[derive(Clone, Copy)]
pub struct EncoderConfig {
    pub resolution: Resolution,
    /// General profile: `Main` (8-bit 4:2:0), `Main10` (10-bit 4:2:0), or
    /// `RangeExtensions` (Main 4:2:2 10). The bit depth and the chroma format follow
    /// from it.
    pub profile: Profile,
    pub level: Level,
    pub pred_structure: PredictionStructure,
    /// Initial tunings values
    pub initial_tunings: Tunings,
    /// Optional colour description, carried in the video usability information.
    /// Without it that information is absent.
    pub color: Option<EncoderColorInfo>,
}

impl EncoderConfig {
    /// A configuration with intent to be widely supported.
    pub open spec fn initial() -> Self {
        EncoderConfig {
            resolution: Resolution { width: 320, height: 240 },
            profile: Profile::Main,
            level: Level::L4,
            pred_structure: PredictionStructure::LowDelay { limit: 2048 },
            initial_tunings: Tunings::initial(),
            color: None,
        }
    }
}

impl Default for EncoderConfig {
    fn default() -> (r: Self)
        ensures
            r == Self::initial(),
    {
        EncoderConfig {
            resolution: Resolution { width: 320, height: 240 },
            profile: Profile::Main,
            level: Level::L4,
            pred_structure: PredictionStructure::LowDelay { limit: 2048 },
            initial_tunings: Tunings::default(),
            color: None,
        }
    }
}

} // verus!
