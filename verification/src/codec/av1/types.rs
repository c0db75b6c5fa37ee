//! The AV1 sequence header and its parts.

use vstd::prelude::*;

verus! {

/// The type of an OBU (6.2.2).
#[derive(Clone, Copy, Debug, PartialEq, Eq, Structural)]
pub enum ObuType {
    SequenceHeader,
    TemporalDelimiter,
    FrameHeader,
    TileGroup,
    Metadata,
    Frame,
    RedundantFrameHeader,
    TileList,
    Padding,
}

impl ObuType {
    /// The coded value.
    pub open spec fn code(self) -> u8 {
        match self {
            ObuType::SequenceHeader => 1u8,
            ObuType::TemporalDelimiter => 2u8,
            ObuType::FrameHeader => 3u8,
            ObuType::TileGroup => 4u8,
            ObuType::Metadata => 5u8,
            ObuType::Frame => 6u8,
            ObuType::RedundantFrameHeader => 7u8,
            ObuType::TileList => 8u8,
            ObuType::Padding => 15u8,
        }
    }

    /// The coded value.
    pub fn to_u8(self) -> (v: u8)
        ensures
            v == self.code(),
    {
        match self {
            ObuType::SequenceHeader => 1,
            ObuType::TemporalDelimiter => 2,
            ObuType::FrameHeader => 3,
            ObuType::TileGroup => 4,
            ObuType::Metadata => 5,
            ObuType::Frame => 6,
            ObuType::RedundantFrameHeader => 7,
            ObuType::TileList => 8,
            ObuType::Padding => 15,
        }
    }

    /// The variant with the coded value `v`, where there is one.
    pub fn from_u8(v: u8) -> (r: Option<ObuType>)
        ensures
            r matches Some(x) ==> x.code() == v,
            r is None ==> forall|x: ObuType| #[trigger] x.code() != v,
    {
        match v {
            1 => Some(ObuType::SequenceHeader),
            2 => Some(ObuType::TemporalDelimiter),
            3 => Some(ObuType::FrameHeader),
            4 => Some(ObuType::TileGroup),
            5 => Some(ObuType::Metadata),
            6 => Some(ObuType::Frame),
            7 => Some(ObuType::RedundantFrameHeader),
            8 => Some(ObuType::TileList),
            15 => Some(ObuType::Padding),
            _ => None,
        }
    }
}

/// `seq_profile` (6.4.1).
#[derive(Clone, Copy, Debug, PartialEq, Eq, Structural)]
pub enum Profile {
    Profile0,
    Profile1,
    Profile2,
}

impl Profile {
    /// The coded value.
    pub open spec fn code(self) -> u8 {
        match self {
            Profile::Profile0 => 0u8,
            Profile::Profile1 => 1u8,
            Profile::Profile2 => 2u8,
        }
    }

    /// The coded value.
    pub fn to_u8(self) -> (v: u8)
        ensures
            v == self.code(),
    {
        match self {
            Profile::Profile0 => 0,
            Profile::Profile1 => 1,
            Profile::Profile2 => 2,
        }
    }

    /// The variant with the coded value `v`, where there is one.
    pub fn from_u8(v: u8) -> (r: Option<Profile>)
        ensures
            r matches Some(x) ==> x.code() == v,
            r is None ==> forall|x: Profile| #[trigger] x.code() != v,
    {
        match v {
            0 => Some(Profile::Profile0),
            1 => Some(Profile::Profile1),
            2 => Some(Profile::Profile2),
            _ => None,
        }
    }
}

/// The number of bits of a sample.
#[derive(Clone, Copy, Debug, PartialEq, Eq, Structural)]
pub enum BitDepth {
    Depth8,
    Depth10,
    Depth12,
}

/// `color_primaries` (6.4.2).
#[derive(Clone, Copy, Debug, PartialEq, Eq, Structural)]
pub enum ColorPrimaries {
    Bt709,
    Unspecified,
    Bt470M,
    Bt470bg,
    Bt601,
    Smpte240,
    GenericFilm,
    Bt2020,
    Xyz,
    Smpte431,
    Smpte432,
    Ebu3213,
}

impl ColorPrimaries {
    /// The coded value.
    pub open spec fn code(self) -> u8 {
        match self {
            ColorPrimaries::Bt709 => 1u8,
            ColorPrimaries::Unspecified => 2u8,
            ColorPrimaries::Bt470M => 4u8,
            ColorPrimaries::Bt470bg => 5u8,
            ColorPrimaries::Bt601 => 6u8,
            ColorPrimaries::Smpte240 => 7u8,
            ColorPrimaries::GenericFilm => 8u8,
            ColorPrimaries::Bt2020 => 9u8,
            ColorPrimaries::Xyz => 10u8,
            ColorPrimaries::Smpte431 => 11u8,
            ColorPrimaries::Smpte432 => 12u8,
            ColorPrimaries::Ebu3213 => 22u8,
        }
    }

    /// The coded value.
    pub fn to_u8(self) -> (v: u8)
        ensures
            v == self.code(),
    {
        match self {
            ColorPrimaries::Bt709 => 1,
            ColorPrimaries::Unspecified => 2,
            ColorPrimaries::Bt470M => 4,
            ColorPrimaries::Bt470bg => 5,
            ColorPrimaries::Bt601 => 6,
            ColorPrimaries::Smpte240 => 7,
            ColorPrimaries::GenericFilm => 8,
            ColorPrimaries::Bt2020 => 9,
            ColorPrimaries::Xyz => 10,
            ColorPrimaries::Smpte431 => 11,
            ColorPrimaries::Smpte432 => 12,
            ColorPrimaries::Ebu3213 => 22,
        }
    }

    /// The variant with the coded value `v`, where there is one.
    pub fn from_u8(v: u8) -> (r: Option<ColorPrimaries>)
        ensures
            r matches Some(x) ==> x.code() == v,
            r is None ==> forall|x: ColorPrimaries| #[trigger] x.code() != v,
    {
        match v {
            1 => Some(ColorPrimaries::Bt709),
            2 => Some(ColorPrimaries::Unspecified),
            4 => Some(ColorPrimaries::Bt470M),
            5 => Some(ColorPrimaries::Bt470bg),
            6 => Some(ColorPrimaries::Bt601),
            7 => Some(ColorPrimaries::Smpte240),
            8 => Some(ColorPrimaries::GenericFilm),
            9 => Some(ColorPrimaries::Bt2020),
            10 => Some(ColorPrimaries::Xyz),
            11 => Some(ColorPrimaries::Smpte431),
            12 => Some(ColorPrimaries::Smpte432),
            22 => Some(ColorPrimaries::Ebu3213),
            _ => None,
        }
    }
}

/// `transfer_characteristics` (6.4.2).
#[derive(Clone, Copy, Debug, PartialEq, Eq, Structural)]
pub enum TransferCharacteristics {
    Reserved0,
    Bt709,
    Unspecified,
    Reserved3,
    Bt470m,
    Bt470bg,
    Bt601,
    Smpte240,
    Linear,
    Log100,
    Log100Sqrt10,
    Iec61966,
    Bt1361,
    Srgb,
    Bt2020TenBit,
    Bt2020TwelveBit,
    Smpte2084,
    Smpte428,
    Hlg,
}

impl TransferCharacteristics {
    /// The coded value.
    pub open spec fn code(self) -> u8 {
        match self {
            TransferCharacteristics::Reserved0 => 0u8,
            TransferCharacteristics::Bt709 => 1u8,
            TransferCharacteristics::Unspecified => 2u8,
            TransferCharacteristics::Reserved3 => 3u8,
            TransferCharacteristics::Bt470m => 4u8,
            TransferCharacteristics::Bt470bg => 5u8,
            TransferCharacteristics::Bt601 => 6u8,
            TransferCharacteristics::Smpte240 => 7u8,
            TransferCharacteristics::Linear => 8u8,
            TransferCharacteristics::Log100 => 9u8,
            TransferCharacteristics::Log100Sqrt10 => 10u8,
            TransferCharacteristics::Iec61966 => 11u8,
            TransferCharacteristics::Bt1361 => 12u8,
            TransferCharacteristics::Srgb => 13u8,
            TransferCharacteristics::Bt2020TenBit => 14u8,
            TransferCharacteristics::Bt2020TwelveBit => 15u8,
            TransferCharacteristics::Smpte2084 => 16u8,
            TransferCharacteristics::Smpte428 => 17u8,
            TransferCharacteristics::Hlg => 18u8,
        }
    }

    /// The coded value.
    pub fn to_u8(self) -> (v: u8)
        ensures
            v == self.code(),
    {
        match self {
            TransferCharacteristics::Reserved0 => 0,
            TransferCharacteristics::Bt709 => 1,
            TransferCharacteristics::Unspecified => 2,
            TransferCharacteristics::Reserved3 => 3,
            TransferCharacteristics::Bt470m => 4,
            TransferCharacteristics::Bt470bg => 5,
            TransferCharacteristics::Bt601 => 6,
            TransferCharacteristics::Smpte240 => 7,
            TransferCharacteristics::Linear => 8,
            TransferCharacteristics::Log100 => 9,
            TransferCharacteristics::Log100Sqrt10 => 10,
            TransferCharacteristics::Iec61966 => 11,
            TransferCharacteristics::Bt1361 => 12,
            TransferCharacteristics::Srgb => 13,
            TransferCharacteristics::Bt2020TenBit => 14,
            TransferCharacteristics::Bt2020TwelveBit => 15,
            TransferCharacteristics::Smpte2084 => 16,
            TransferCharacteristics::Smpte428 => 17,
            TransferCharacteristics::Hlg => 18,
        }
    }

    /// The variant with the coded value `v`, where there is one.
    pub fn from_u8(v: u8) -> (r: Option<TransferCharacteristics>)
        ensures
            r matches Some(x) ==> x.code() == v,
            r is None ==> forall|x: TransferCharacteristics| #[trigger] x.code() != v,
    {
        match v {
            0 => Some(TransferCharacteristics::Reserved0),
            1 => Some(TransferCharacteristics::Bt709),
            2 => Some(TransferCharacteristics::Unspecified),
            3 => Some(TransferCharacteristics::Reserved3),
            4 => Some(TransferCharacteristics::Bt470m),
            5 => Some(TransferCharacteristics::Bt470bg),
            6 => Some(TransferCharacteristics::Bt601),
            7 => Some(TransferCharacteristics::Smpte240),
            8 => Some(TransferCharacteristics::Linear),
            9 => Some(TransferCharacteristics::Log100),
            10 => Some(TransferCharacteristics::Log100Sqrt10),
            11 => Some(TransferCharacteristics::Iec61966),
            12 => Some(TransferCharacteristics::Bt1361),
            13 => Some(TransferCharacteristics::Srgb),
            14 => Some(TransferCharacteristics::Bt2020TenBit),
            15 => Some(TransferCharacteristics::Bt2020TwelveBit),
            16 => Some(TransferCharacteristics::Smpte2084),
            17 => Some(TransferCharacteristics::Smpte428),
            18 => Some(TransferCharacteristics::Hlg),
            _ => None,
        }
    }
}

/// `matrix_coefficients` (6.4.2).
#[derive(Clone, Copy, Debug, PartialEq, Eq, Structural)]
pub enum MatrixCoefficients {
    Identity,
    Bt709,
    Unspecified,
    Reserved3,
    Fcc,
    Bt470bg,
    Bt601,
    Smpte240,
    Ycgco,
    Bt2020Ncl,
    Bt2020Cl,
    Smpte2085,
    ChromaDerivedNcl,
    ChromaDerivedCl,
    Ictcp,
}

impl MatrixCoefficients {
    /// The coded value.
    pub open spec fn code(self) -> u8 {
        match self {
            MatrixCoefficients::Identity => 0u8,
            MatrixCoefficients::Bt709 => 1u8,
            MatrixCoefficients::Unspecified => 2u8,
            MatrixCoefficients::Reserved3 => 3u8,
            MatrixCoefficients::Fcc => 4u8,
            MatrixCoefficients::Bt470bg => 5u8,
            MatrixCoefficients::Bt601 => 6u8,
            MatrixCoefficients::Smpte240 => 7u8,
            MatrixCoefficients::Ycgco => 8u8,
            MatrixCoefficients::Bt2020Ncl => 9u8,
            MatrixCoefficients::Bt2020Cl => 10u8,
            MatrixCoefficients::Smpte2085 => 11u8,
            MatrixCoefficients::ChromaDerivedNcl => 12u8,
            MatrixCoefficients::ChromaDerivedCl => 13u8,
            MatrixCoefficients::Ictcp => 14u8,
        }
    }

    /// The coded value.
    pub fn to_u8(self) -> (v: u8)
        ensures
            v == self.code(),
    {
        match self {
            MatrixCoefficients::Identity => 0,
            MatrixCoefficients::Bt709 => 1,
            MatrixCoefficients::Unspecified => 2,
            MatrixCoefficients::Reserved3 => 3,
            MatrixCoefficients::Fcc => 4,
            MatrixCoefficients::Bt470bg => 5,
            MatrixCoefficients::Bt601 => 6,
            MatrixCoefficients::Smpte240 => 7,
            MatrixCoefficients::Ycgco => 8,
            MatrixCoefficients::Bt2020Ncl => 9,
            MatrixCoefficients::Bt2020Cl => 10,
            MatrixCoefficients::Smpte2085 => 11,
            MatrixCoefficients::ChromaDerivedNcl => 12,
            MatrixCoefficients::ChromaDerivedCl => 13,
            MatrixCoefficients::Ictcp => 14,
        }
    }

    /// The variant with the coded value `v`, where there is one.
    pub fn from_u8(v: u8) -> (r: Option<MatrixCoefficients>)
        ensures
            r matches Some(x) ==> x.code() == v,
            r is None ==> forall|x: MatrixCoefficients| #[trigger] x.code() != v,
    {
        match v {
            0 => Some(MatrixCoefficients::Identity),
            1 => Some(MatrixCoefficients::Bt709),
            2 => Some(MatrixCoefficients::Unspecified),
            3 => Some(MatrixCoefficients::Reserved3),
            4 => Some(MatrixCoefficients::Fcc),
            5 => Some(MatrixCoefficients::Bt470bg),
            6 => Some(MatrixCoefficients::Bt601),
            7 => Some(MatrixCoefficients::Smpte240),
            8 => Some(MatrixCoefficients::Ycgco),
            9 => Some(MatrixCoefficients::Bt2020Ncl),
            10 => Some(MatrixCoefficients::Bt2020Cl),
            11 => Some(MatrixCoefficients::Smpte2085),
            12 => Some(MatrixCoefficients::ChromaDerivedNcl),
            13 => Some(MatrixCoefficients::ChromaDerivedCl),
            14 => Some(MatrixCoefficients::Ictcp),
            _ => None,
        }
    }
}

/// `color_config()` (5.5.2).
#[derive(Clone, Copy, Debug, PartialEq, Eq)]
pub struct ColorConfig {
    pub high_bitdepth: bool,
    pub twelve_bit: bool,
    pub mono_chrome: bool,
    pub color_description_present_flag: bool,
    pub color_primaries: ColorPrimaries,
    pub transfer_characteristics: TransferCharacteristics,
    pub matrix_coefficients: MatrixCoefficients,
    /// Whether samples use the full range.
    pub color_range: bool,
    pub subsampling_x: bool,
    pub subsampling_y: bool,
    pub chroma_sample_position: u8,
    pub separate_uv_delta_q: bool,
}

/// `sequence_header_obu()` (5.5.1) of a sequence with one operating point, without timing
/// information and without frame numbers.
#[derive(Clone, Copy, Debug, PartialEq, Eq)]
pub struct SequenceHeaderObu {
    pub seq_profile: Profile,
    pub still_picture: bool,
    pub operating_point_idc: u16,
    pub seq_level_idx: u8,
    pub seq_tier: bool,
    pub frame_width_bits_minus_1: u8,
    pub frame_height_bits_minus_1: u8,
    pub max_frame_width_minus_1: u16,
    pub max_frame_height_minus_1: u16,
    pub use_128x128_superblock: bool,
    pub enable_filter_intra: bool,
    pub enable_intra_edge_filter: bool,
    pub enable_interintra_compound: bool,
    pub enable_masked_compound: bool,
    pub enable_warped_motion: bool,
    pub enable_dual_filter: bool,
    pub enable_order_hint: bool,
    pub enable_jnt_comp: bool,
    pub enable_ref_frame_mvs: bool,
    pub seq_choose_screen_content_tools: bool,
    pub seq_force_screen_content_tools: bool,
    pub seq_choose_integer_mv: bool,
    pub seq_force_integer_mv: bool,
    pub order_hint_bits_minus_1: u8,
    pub enable_superres: bool,
    pub enable_cdef: bool,
    pub enable_restoration: bool,
    pub color_config: ColorConfig,
    pub film_grain_params_present: bool,
    /// `BitDepth`.
    pub bit_depth: BitDepth,
}

impl SequenceHeaderObu {
    /// `BitDepth` (5.5.2).
    pub open spec fn coded_bit_depth(self) -> BitDepth {
        if self.seq_profile == Profile::Profile2 && self.color_config.high_bitdepth {
            if self.color_config.twelve_bit {
                BitDepth::Depth12
            } else {
                BitDepth::Depth10
            }
        } else if self.color_config.high_bitdepth {
            BitDepth::Depth10
        } else {
            BitDepth::Depth8
        }
    }
}

impl ColorConfig {
    /// Whether the colours are sRGB, of which nothing more is coded.
    pub open spec fn srgb(self) -> bool {
        &&& self.color_primaries == ColorPrimaries::Bt709
        &&& self.transfer_characteristics == TransferCharacteristics::Srgb
        &&& self.matrix_coefficients == MatrixCoefficients::Identity
    }
}

} // verus!
