//! The configuration of an AV1 encoder.

use crate::codec::av1::types::{BitDepth, Profile};
use crate::encoder::{EncoderColorInfo, PredictionStructure, Tunings};
use crate::frame::Resolution;
use vstd::prelude::*;

verus! {

/// The AV1 codec.
pub struct AV1;

#[derive(Clone, Copy)]
pub struct EncoderConfig {
    pub profile: Profile,
    pub bit_depth: BitDepth,
    pub resolution: Resolution,
    pub pred_structure: PredictionStructure,
    /// Initial tunings values
    pub initial_tunings: Tunings,
    /// Optional colour description, carried in the sequence header.
    pub color: Option<EncoderColorInfo>,
}

impl EncoderConfig {
    /// A configuration with intent to be widely supported.
    pub open spec fn initial() -> Self {
        EncoderConfig {
            profile: Profile::Profile0,
            bit_depth: BitDepth::Depth8,
            resolution: Resolution { width: 320, height: 240 },
            pred_structure: PredictionStructure::LowDelay { limit: 1024 },
            initial_tunings: Tunings::initial(),
            color: None,
        }
    }
}

impl Default for EncoderConfig {
    fn default() -> (r: Self)
        ensures
            r == Self::initial(),
    {
        EncoderConfig {
            profile: Profile::Profile0,
            bit_depth: BitDepth::Depth8,
            resolution: Resolution { width: 320, height: 240 },
            pred_structure: PredictionStructure::LowDelay { limit: 1024 },
            initial_tunings: Tunings::default(),
            color: None,
        }
    }
}

} // verus!
