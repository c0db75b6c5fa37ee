//! Encoders: their configuration, and the requests to encode a frame.

use crate::codec::h265::synthesizer::SynthesizerError;
use vstd::prelude::*;
use vstd::string::*;

pub mod av1;
pub mod defaults;
pub mod h264;
pub mod h265;
pub mod stateless;

verus! {

/// What the rate control aims at.
#[derive(Clone, Copy, Debug, PartialEq, Eq)]
pub enum RateControl {
    /// A constant number of bits per second.
    ConstantBitrate(u64),
    /// A constant quality parameter, whose meaning depends on the codec.
    ConstantQuality(u32),
}

impl RateControl {
    /// The bitrate that the rate control aims at, if it aims at one.
    pub fn bitrate_target(&self) -> (r: Option<u64>)
        ensures
            r == match *self {
                RateControl::ConstantBitrate(target) => Some(target),
                RateControl::ConstantQuality(_) => None,
            },
    {
        match self {
            RateControl::ConstantBitrate(target) => Some(*target),
            RateControl::ConstantQuality(_) => None,
        }
    }
}

/// Encoding parameters that can change between frames.
#[derive(Clone, Copy, Debug, PartialEq, Eq)]
pub struct Tunings {
    pub rate_control: RateControl,
    /// Frames per second.
    pub framerate: u32,
    /// The least value of the quality parameter.
    pub min_quality: u32,
    /// The greatest value of the quality parameter.
    pub max_quality: u32,
}

impl Tunings {
    /// The default tunings.
    pub open spec fn initial() -> Self {
        Tunings {
            rate_control: RateControl::ConstantBitrate(200_000),
            framerate: 30,
            min_quality: 0,
            max_quality: u32::MAX,
        }
    }
}

impl Default for Tunings {
    fn default() -> (r: Self)
        ensures
            r == Self::initial(),
    {
        Tunings {
            rate_control: RateControl::ConstantBitrate(200_000),
            framerate: 30,
            min_quality: 0,
            max_quality: u32::MAX,
        }
    }
}

/// How frames are predicted from each other.
#[derive(Clone, Copy, Debug, PartialEq, Eq)]
pub enum PredictionStructure {
    /// An intra frame every `limit` frames, and each other frame predicted from the
    /// one before.
    LowDelay { limit: u16 },
}

/// A colour description by code points (ITU-T H.273).
#[derive(Clone, Copy, Debug, PartialEq, Eq)]
pub struct EncoderColorInfo {
    pub primaries: u8,
    pub transfer: u8,
    pub matrix: u8,
    pub full_range: bool,
}

/// Why a frame could not be encoded.
#[derive(Clone, Copy, Debug, PartialEq, Eq, Structural)]
pub enum EncodeError {
    /// The configuration is not supported.
    Unsupported,
    /// The encoder is not in a state in which it can do what was asked.
    InvalidInternalState,
    /// The backend failed.
    Backend(StatelessBackendError),
}

pub type EncodeResult<T> = Result<T, EncodeError>;

/// Why a backend failed.
#[derive(Clone, Copy, Debug, PartialEq, Eq, Structural)]
pub enum StatelessBackendError {
    /// The device lacks a resource.
    OutOfResources,
    /// The profile is not supported.
    UnsupportedProfile,
    /// The format is not supported.
    UnsupportedFormat,
    /// Anything else.
    Other(BackendFailure),
}

/// A failure that is not one of the kinds a backend tells apart.
#[derive(Clone, Copy, Debug, PartialEq, Eq, Structural)]
pub enum BackendFailure {
    /// A packed header could not be synthesized.
    PackedHeader(SynthesizerError),
    /// The device failed.
    Device,
}

impl StatelessBackendError {
    /// The text that a packed header brings which could not be synthesized. The other errors
    /// bring none.
    pub fn message(&self) -> (s: Option<String>)
        ensures
            match *self {
                StatelessBackendError::Other(BackendFailure::PackedHeader(e)) => {
                    s matches Some(text) && text@ == "hevc packed header: "@ + e.text()
                },
                _ => s is None,
            },
    {
        match self {
            StatelessBackendError::Other(BackendFailure::PackedHeader(e)) => {
                let mut text = String::from_str("hevc packed header: ");
                text.append(e.message());
                Some(text)
            },
            _ => None,
        }
    }
}

pub type StatelessBackendResult<T> = Result<T, StatelessBackendError>;

} // verus!
