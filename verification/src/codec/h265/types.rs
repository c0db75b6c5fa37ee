//! The H.265 parameter sets and slice segment header as plain data.

use std::rc::Rc;
use vstd::prelude::*;

verus! {

/// The type of a NAL unit (Table 7-1).
#[derive(Clone, Copy, Debug, PartialEq, Eq, Structural)]
pub enum NaluType {
    TrailN,
    TrailR,
    TsaN,
    TsaR,
    StsaN,
    StsaR,
    RadlN,
    RadlR,
    RaslN,
    RaslR,
    RsvVclN10,
    RsvVclR11,
    RsvVclN12,
    RsvVclR13,
    RsvVclN14,
    RsvVclR15,
    BlaWLp,
    BlaWRadl,
    BlaNLp,
    IdrWRadl,
    IdrNLp,
    CraNut,
    RsvIrapVcl22,
    RsvIrapVcl23,
    VpsNut,
    SpsNut,
    PpsNut,
    AudNut,
    EosNut,
    EobNut,
    FdNut,
    PrefixSeiNut,
    SuffixSeiNut,
}

impl NaluType {
    /// The coded value.
    pub open spec fn code(self) -> u8 {
        match self {
            NaluType::TrailN => 0u8,
            NaluType::TrailR => 1u8,
            NaluType::TsaN => 2u8,
            NaluType::TsaR => 3u8,
            NaluType::StsaN => 4u8,
            NaluType::StsaR => 5u8,
            NaluType::RadlN => 6u8,
            NaluType::RadlR => 7u8,
            NaluType::RaslN => 8u8,
            NaluType::RaslR => 9u8,
            NaluType::RsvVclN10 => 10u8,
            NaluType::RsvVclR11 => 11u8,
            NaluType::RsvVclN12 => 12u8,
            NaluType::RsvVclR13 => 13u8,
            NaluType::RsvVclN14 => 14u8,
            NaluType::RsvVclR15 => 15u8,
            NaluType::BlaWLp => 16u8,
            NaluType::BlaWRadl => 17u8,
            NaluType::BlaNLp => 18u8,
            NaluType::IdrWRadl => 19u8,
            NaluType::IdrNLp => 20u8,
            NaluType::CraNut => 21u8,
            NaluType::RsvIrapVcl22 => 22u8,
            NaluType::RsvIrapVcl23 => 23u8,
            NaluType::VpsNut => 32u8,
            NaluType::SpsNut => 33u8,
            NaluType::PpsNut => 34u8,
            NaluType::AudNut => 35u8,
            NaluType::EosNut => 36u8,
            NaluType::EobNut => 37u8,
            NaluType::FdNut => 38u8,
            NaluType::PrefixSeiNut => 39u8,
            NaluType::SuffixSeiNut => 40u8,
        }
    }

    /// The coded value.
    pub fn to_u8(self) -> (v: u8)
        ensures
            v == self.code(),
    {
        match self {
            NaluType::TrailN => 0,
            NaluType::TrailR => 1,
            NaluType::TsaN => 2,
            NaluType::TsaR => 3,
            NaluType::StsaN => 4,
            NaluType::StsaR => 5,
            NaluType::RadlN => 6,
            NaluType::RadlR => 7,
            NaluType::RaslN => 8,
            NaluType::RaslR => 9,
            NaluType::RsvVclN10 => 10,
            NaluType::RsvVclR11 => 11,
            NaluType::RsvVclN12 => 12,
            NaluType::RsvVclR13 => 13,
            NaluType::RsvVclN14 => 14,
            NaluType::RsvVclR15 => 15,
            NaluType::BlaWLp => 16,
            NaluType::BlaWRadl => 17,
            NaluType::BlaNLp => 18,
            NaluType::IdrWRadl => 19,
            NaluType::IdrNLp => 20,
            NaluType::CraNut => 21,
            NaluType::RsvIrapVcl22 => 22,
            NaluType::RsvIrapVcl23 => 23,
            NaluType::VpsNut => 32,
            NaluType::SpsNut => 33,
            NaluType::PpsNut => 34,
            NaluType::AudNut => 35,
            NaluType::EosNut => 36,
            NaluType::EobNut => 37,
            NaluType::FdNut => 38,
            NaluType::PrefixSeiNut => 39,
            NaluType::SuffixSeiNut => 40,
        }
    }

    /// The variant with the coded value `v`, where there is one.
    pub fn from_u8(v: u8) -> (r: Option<NaluType>)
        ensures
            r matches Some(x) ==> x.code() == v,
            r is None ==> forall|x: NaluType| #[trigger] x.code() != v,
    {
        match v {
            0 => Some(NaluType::TrailN),
            1 => Some(NaluType::TrailR),
            2 => Some(NaluType::TsaN),
            3 => Some(NaluType::TsaR),
            4 => Some(NaluType::StsaN),
            5 => Some(NaluType::StsaR),
            6 => Some(NaluType::RadlN),
            7 => Some(NaluType::RadlR),
            8 => Some(NaluType::RaslN),
            9 => Some(NaluType::RaslR),
            10 => Some(NaluType::RsvVclN10),
            11 => Some(NaluType::RsvVclR11),
            12 => Some(NaluType::RsvVclN12),
            13 => Some(NaluType::RsvVclR13),
            14 => Some(NaluType::RsvVclN14),
            15 => Some(NaluType::RsvVclR15),
            16 => Some(NaluType::BlaWLp),
            17 => Some(NaluType::BlaWRadl),
            18 => Some(NaluType::BlaNLp),
            19 => Some(NaluType::IdrWRadl),
            20 => Some(NaluType::IdrNLp),
            21 => Some(NaluType::CraNut),
            22 => Some(NaluType::RsvIrapVcl22),
            23 => Some(NaluType::RsvIrapVcl23),
            32 => Some(NaluType::VpsNut),
            33 => Some(NaluType::SpsNut),
            34 => Some(NaluType::PpsNut),
            35 => Some(NaluType::AudNut),
            36 => Some(NaluType::EosNut),
            37 => Some(NaluType::EobNut),
            38 => Some(NaluType::FdNut),
            39 => Some(NaluType::PrefixSeiNut),
            40 => Some(NaluType::SuffixSeiNut),
            _ => None,
        }
    }
}

impl NaluType {
    /// Whether the NAL unit belongs to an intra random access point picture.
    pub open spec fn irap(self) -> bool {
        16 <= self.code() <= 23
    }

    /// Whether the NAL unit belongs to an IDR picture.
    pub open spec fn idr(self) -> bool {
        self == NaluType::IdrWRadl || self == NaluType::IdrNLp
    }

    /// Whether the NAL unit belongs to an intra random access point picture.
    pub fn is_irap(self) -> (r: bool)
        ensures
            r == self.irap(),
    {
        let v: u8 = self.to_u8();
        16 <= v && v <= 23
    }

    /// Whether the NAL unit belongs to an IDR picture.
    pub fn is_idr(self) -> (r: bool)
        ensures
            r == self.idr(),
    {
        self == NaluType::IdrWRadl || self == NaluType::IdrNLp
    }
}

/// A general profile (Annex A.3).
#[derive(Clone, Copy, Debug, PartialEq, Eq, Structural)]
pub enum Profile {
    Main,
    Main10,
    MainStill,
    RangeExtensions,
    HighThroughput,
    MultiviewMain,
    ScalableMain,
    ThreeDMain,
    ScreenContentCoding,
    ScalableRangeExtensions,
    HighThroughputScreenContentCoding,
}

impl Profile {
    /// The coded value.
    pub open spec fn code(self) -> u8 {
        match self {
            Profile::Main => 1u8,
            Profile::Main10 => 2u8,
            Profile::MainStill => 3u8,
            Profile::RangeExtensions => 4u8,
            Profile::HighThroughput => 5u8,
            Profile::MultiviewMain => 6u8,
            Profile::ScalableMain => 7u8,
            Profile::ThreeDMain => 8u8,
            Profile::ScreenContentCoding => 9u8,
            Profile::ScalableRangeExtensions => 10u8,
            Profile::HighThroughputScreenContentCoding => 11u8,
        }
    }

    /// The coded value.
    pub fn to_u8(self) -> (v: u8)
        ensures
            v == self.code(),
    {
        match self {
            Profile::Main => 1,
            Profile::Main10 => 2,
            Profile::MainStill => 3,
            Profile::RangeExtensions => 4,
            Profile::HighThroughput => 5,
            Profile::MultiviewMain => 6,
            Profile::ScalableMain => 7,
            Profile::ThreeDMain => 8,
            Profile::ScreenContentCoding => 9,
            Profile::ScalableRangeExtensions => 10,
            Profile::HighThroughputScreenContentCoding => 11,
        }
    }

    /// The variant with the coded value `v`, where there is one.
    pub fn from_u8(v: u8) -> (r: Option<Profile>)
        ensures
            r matches Some(x) ==> x.code() == v,
            r is None ==> forall|x: Profile| #[trigger] x.code() != v,
    {
        match v {
            1 => Some(Profile::Main),
            2 => Some(Profile::Main10),
            3 => Some(Profile::MainStill),
            4 => Some(Profile::RangeExtensions),
            5 => Some(Profile::HighThroughput),
            6 => Some(Profile::MultiviewMain),
            7 => Some(Profile::ScalableMain),
            8 => Some(Profile::ThreeDMain),
            9 => Some(Profile::ScreenContentCoding),
            10 => Some(Profile::ScalableRangeExtensions),
            11 => Some(Profile::HighThroughputScreenContentCoding),
            _ => None,
        }
    }
}

/// A level: thirty times the level number (Annex A.4).
#[allow(non_camel_case_types)]
#[derive(Clone, Copy, Debug, PartialEq, Eq, Structural)]
pub enum Level {
    L1,
    L2,
    L2_1,
    L3,
    L3_1,
    L4,
    L4_1,
    L5,
    L5_1,
    L5_2,
    L6,
    L6_1,
    L6_2,
}

impl Level {
    /// The coded value.
    pub open spec fn code(self) -> u8 {
        match self {
            Level::L1 => 30u8,
            Level::L2 => 60u8,
            Level::L2_1 => 63u8,
            Level::L3 => 90u8,
            Level::L3_1 => 93u8,
            Level::L4 => 120u8,
            Level::L4_1 => 123u8,
            Level::L5 => 150u8,
            Level::L5_1 => 153u8,
            Level::L5_2 => 156u8,
            Level::L6 => 180u8,
            Level::L6_1 => 183u8,
            Level::L6_2 => 186u8,
        }
    }

    /// The coded value.
    pub fn to_u8(self) -> (v: u8)
        ensures
            v == self.code(),
    {
        match self {
            Level::L1 => 30,
            Level::L2 => 60,
            Level::L2_1 => 63,
            Level::L3 => 90,
            Level::L3_1 => 93,
            Level::L4 => 120,
            Level::L4_1 => 123,
            Level::L5 => 150,
            Level::L5_1 => 153,
            Level::L5_2 => 156,
            Level::L6 => 180,
            Level::L6_1 => 183,
            Level::L6_2 => 186,
        }
    }

    /// The variant with the coded value `v`, where there is one.
    pub fn from_u8(v: u8) -> (r: Option<Level>)
        ensures
            r matches Some(x) ==> x.code() == v,
            r is None ==> forall|x: Level| #[trigger] x.code() != v,
    {
        match v {
            30 => Some(Level::L1),
            60 => Some(Level::L2),
            63 => Some(Level::L2_1),
            90 => Some(Level::L3),
            93 => Some(Level::L3_1),
            120 => Some(Level::L4),
            123 => Some(Level::L4_1),
            150 => Some(Level::L5),
            153 => Some(Level::L5_1),
            156 => Some(Level::L5_2),
            180 => Some(Level::L6),
            183 => Some(Level::L6_1),
            186 => Some(Level::L6_2),
            _ => None,
        }
    }

    /// The value of a field that is not coded.
    pub open spec fn initial() -> Self {
        Level::L1
    }
}

impl Default for Level {
    fn default() -> (r: Self)
        ensures
            r == Self::initial(),
    {
        Level::L1
    }
}

/// The type of a slice (Table 7-7).
#[derive(Clone, Copy, Debug, PartialEq, Eq, Structural)]
pub enum SliceType {
    B,
    P,
    I,
}

impl SliceType {
    /// The coded value.
    pub open spec fn code(self) -> u8 {
        match self {
            SliceType::B => 0u8,
            SliceType::P => 1u8,
            SliceType::I => 2u8,
        }
    }

    /// The coded value.
    pub fn to_u8(self) -> (v: u8)
        ensures
            v == self.code(),
    {
        match self {
            SliceType::B => 0,
            SliceType::P => 1,
            SliceType::I => 2,
        }
    }

    /// The variant with the coded value `v`, where there is one.
    pub fn from_u8(v: u8) -> (r: Option<SliceType>)
        ensures
            r matches Some(x) ==> x.code() == v,
            r is None ==> forall|x: SliceType| #[trigger] x.code() != v,
    {
        match v {
            0 => Some(SliceType::B),
            1 => Some(SliceType::P),
            2 => Some(SliceType::I),
            _ => None,
        }
    }

    /// The value of a field that is not coded.
    pub open spec fn initial() -> Self {
        SliceType::I
    }
}

impl Default for SliceType {
    fn default() -> (r: Self)
        ensures
            r == Self::initial(),
    {
        SliceType::I
    }
}

impl SliceType {
    /// Whether this is a P slice.
    pub fn is_p(self) -> (r: bool)
        ensures
            r == (self == SliceType::P),
    {
        self == SliceType::P
    }

    /// Whether this is a B slice.
    pub fn is_b(self) -> (r: bool)
        ensures
            r == (self == SliceType::B),
    {
        self == SliceType::B
    }
}

/// `profile_tier_level()` (7.3.3).
#[derive(Clone, Debug, PartialEq, Eq)]
pub struct ProfileTierLevel {
    pub general_profile_space: u8,
    pub general_tier_flag: bool,
    pub general_profile_idc: u8,
    pub general_profile_compatibility_flag: [bool; 32],
    pub general_progressive_source_flag: bool,
    pub general_interlaced_source_flag: bool,
    pub general_non_packed_constraint_flag: bool,
    pub general_frame_only_constraint_flag: bool,
    pub general_max_12bit_constraint_flag: bool,
    pub general_max_10bit_constraint_flag: bool,
    pub general_max_8bit_constraint_flag: bool,
    pub general_max_422chroma_constraint_flag: bool,
    pub general_max_420chroma_constraint_flag: bool,
    pub general_max_monochrome_constraint_flag: bool,
    pub general_intra_constraint_flag: bool,
    pub general_one_picture_only_constraint_flag: bool,
    pub general_lower_bit_rate_constraint_flag: bool,
    pub general_max_14bit_constraint_flag: bool,
    pub general_inbld_flag: bool,
    pub general_level_idc: Level,
    pub sub_layer_profile_present_flag: [bool; 6],
    pub sub_layer_level_present_flag: [bool; 6],
    pub sub_layer_profile_space: [u8; 6],
    pub sub_layer_tier_flag: [bool; 6],
    pub sub_layer_profile_idc: [u8; 6],
    pub sub_layer_profile_compatibility_flag: [[bool; 32]; 6],
    pub sub_layer_progressive_source_flag: [bool; 6],
    pub sub_layer_interlaced_source_flag: [bool; 6],
    pub sub_layer_non_packed_constraint_flag: [bool; 6],
    pub sub_layer_frame_only_constraint_flag: [bool; 6],
    pub sub_layer_max_12bit_constraint_flag: [bool; 6],
    pub sub_layer_max_10bit_constraint_flag: [bool; 6],
    pub sub_layer_max_8bit_constraint_flag: [bool; 6],
    pub sub_layer_max_422chroma_constraint_flag: [bool; 6],
    pub sub_layer_max_420chroma_constraint_flag: [bool; 6],
    pub sub_layer_max_monochrome_constraint_flag: [bool; 6],
    pub sub_layer_intra_constraint_flag: [bool; 6],
    pub sub_layer_one_picture_only_constraint_flag: [bool; 6],
    pub sub_layer_lower_bit_rate_constraint_flag: [bool; 6],
    pub sub_layer_max_14bit_constraint_flag: [bool; 6],
    pub sub_layer_inbld_flag: [bool; 6],
    pub sub_layer_level_idc: [Level; 6],
}

impl ProfileTierLevel {
    /// The value of a structure of which nothing is coded.
    pub open spec fn initial() -> Self {
        ProfileTierLevel {
            general_profile_space: 0,
            general_tier_flag: false,
            general_profile_idc: 0,
            general_profile_compatibility_flag: [false; 32usize],
            general_progressive_source_flag: false,
            general_interlaced_source_flag: false,
            general_non_packed_constraint_flag: false,
            general_frame_only_constraint_flag: false,
            general_max_12bit_constraint_flag: false,
            general_max_10bit_constraint_flag: false,
            general_max_8bit_constraint_flag: false,
            general_max_422chroma_constraint_flag: false,
            general_max_420chroma_constraint_flag: false,
            general_max_monochrome_constraint_flag: false,
            general_intra_constraint_flag: false,
            general_one_picture_only_constraint_flag: false,
            general_lower_bit_rate_constraint_flag: false,
            general_max_14bit_constraint_flag: false,
            general_inbld_flag: false,
            general_level_idc: Level::initial(),
            sub_layer_profile_present_flag: [false; 6usize],
            sub_layer_level_present_flag: [false; 6usize],
            sub_layer_profile_space: [0u8; 6usize],
            sub_layer_tier_flag: [false; 6usize],
            sub_layer_profile_idc: [0u8; 6usize],
            sub_layer_profile_compatibility_flag: [[false; 32usize]; 6usize],
            sub_layer_progressive_source_flag: [false; 6usize],
            sub_layer_interlaced_source_flag: [false; 6usize],
            sub_layer_non_packed_constraint_flag: [false; 6usize],
            sub_layer_frame_only_constraint_flag: [false; 6usize],
            sub_layer_max_12bit_constraint_flag: [false; 6usize],
            sub_layer_max_10bit_constraint_flag: [false; 6usize],
            sub_layer_max_8bit_constraint_flag: [false; 6usize],
            sub_layer_max_422chroma_constraint_flag: [false; 6usize],
            sub_layer_max_420chroma_constraint_flag: [false; 6usize],
            sub_layer_max_monochrome_constraint_flag: [false; 6usize],
            sub_layer_intra_constraint_flag: [false; 6usize],
            sub_layer_one_picture_only_constraint_flag: [false; 6usize],
            sub_layer_lower_bit_rate_constraint_flag: [false; 6usize],
            sub_layer_max_14bit_constraint_flag: [false; 6usize],
            sub_layer_inbld_flag: [false; 6usize],
            sub_layer_level_idc: [Level::L1; 6usize],
        }
    }
}

impl Default for ProfileTierLevel {
    fn default() -> (r: Self)
        ensures
            r == Self::initial(),
    {
        ProfileTierLevel {
            general_profile_space: 0,
            general_tier_flag: false,
            general_profile_idc: 0,
            general_profile_compatibility_flag: [false; 32],
            general_progressive_source_flag: false,
            general_interlaced_source_flag: false,
            general_non_packed_constraint_flag: false,
            general_frame_only_constraint_flag: false,
            general_max_12bit_constraint_flag: false,
            general_max_10bit_constraint_flag: false,
            general_max_8bit_constraint_flag: false,
            general_max_422chroma_constraint_flag: false,
            general_max_420chroma_constraint_flag: false,
            general_max_monochrome_constraint_flag: false,
            general_intra_constraint_flag: false,
            general_one_picture_only_constraint_flag: false,
            general_lower_bit_rate_constraint_flag: false,
            general_max_14bit_constraint_flag: false,
            general_inbld_flag: false,
            general_level_idc: Level::default(),
            sub_layer_profile_present_flag: [false; 6],
            sub_layer_level_present_flag: [false; 6],
            sub_layer_profile_space: [0u8; 6],
            sub_layer_tier_flag: [false; 6],
            sub_layer_profile_idc: [0u8; 6],
            sub_layer_profile_compatibility_flag: [[false; 32]; 6],
            sub_layer_progressive_source_flag: [false; 6],
            sub_layer_interlaced_source_flag: [false; 6],
            sub_layer_non_packed_constraint_flag: [false; 6],
            sub_layer_frame_only_constraint_flag: [false; 6],
            sub_layer_max_12bit_constraint_flag: [false; 6],
            sub_layer_max_10bit_constraint_flag: [false; 6],
            sub_layer_max_8bit_constraint_flag: [false; 6],
            sub_layer_max_422chroma_constraint_flag: [false; 6],
            sub_layer_max_420chroma_constraint_flag: [false; 6],
            sub_layer_max_monochrome_constraint_flag: [false; 6],
            sub_layer_intra_constraint_flag: [false; 6],
            sub_layer_one_picture_only_constraint_flag: [false; 6],
            sub_layer_lower_bit_rate_constraint_flag: [false; 6],
            sub_layer_max_14bit_constraint_flag: [false; 6],
            sub_layer_inbld_flag: [false; 6],
            sub_layer_level_idc: [Level::L1; 6],
        }
    }
}

/// `scaling_list_data()` (7.3.4).
#[derive(Clone, Debug, PartialEq, Eq)]
pub struct ScalingLists {
    pub scaling_list_4x4: [[u8; 16]; 6],
    pub scaling_list_8x8: [[u8; 64]; 6],
    pub scaling_list_16x16: [[u8; 64]; 6],
    pub scaling_list_32x32: [[u8; 64]; 6],
    pub scaling_list_dc_coef_minus8_16x16: [i16; 6],
    pub scaling_list_dc_coef_minus8_32x32: [i16; 6],
}

impl ScalingLists {
    /// The value of a structure of which nothing is coded.
    pub open spec fn initial() -> Self {
        ScalingLists {
            scaling_list_4x4: [[0u8; 16usize]; 6usize],
            scaling_list_8x8: [[0u8; 64usize]; 6usize],
            scaling_list_16x16: [[0u8; 64usize]; 6usize],
            scaling_list_32x32: [[0u8; 64usize]; 6usize],
            scaling_list_dc_coef_minus8_16x16: [0i16; 6usize],
            scaling_list_dc_coef_minus8_32x32: [0i16; 6usize],
        }
    }
}

impl Default for ScalingLists {
    fn default() -> (r: Self)
        ensures
            r == Self::initial(),
    {
        ScalingLists {
            scaling_list_4x4: [[0u8; 16]; 6],
            scaling_list_8x8: [[0u8; 64]; 6],
            scaling_list_16x16: [[0u8; 64]; 6],
            scaling_list_32x32: [[0u8; 64]; 6],
            scaling_list_dc_coef_minus8_16x16: [0i16; 6],
            scaling_list_dc_coef_minus8_32x32: [0i16; 6],
        }
    }
}

/// `st_ref_pic_set()` (7.3.7).
#[derive(Clone, Debug, PartialEq, Eq)]
pub struct ShortTermRefPicSet {
    pub inter_ref_pic_set_prediction_flag: bool,
    /// `NumDeltaPocs`.
    pub num_delta_pocs: u8,
    pub num_negative_pics: u8,
    pub num_positive_pics: u8,
    /// `UsedByCurrPicS0`.
    pub used_by_curr_pic_s0: [bool; 16],
    /// `UsedByCurrPicS1`.
    pub used_by_curr_pic_s1: [bool; 16],
    /// `DeltaPocS0`.
    pub delta_poc_s0: [i32; 16],
    /// `DeltaPocS1`.
    pub delta_poc_s1: [i32; 16],
}

impl ShortTermRefPicSet {
    /// The value of a structure of which nothing is coded.
    pub open spec fn initial() -> Self {
        ShortTermRefPicSet {
            inter_ref_pic_set_prediction_flag: false,
            num_delta_pocs: 0,
            num_negative_pics: 0,
            num_positive_pics: 0,
            used_by_curr_pic_s0: [false; 16usize],
            used_by_curr_pic_s1: [false; 16usize],
            delta_poc_s0: [0i32; 16usize],
            delta_poc_s1: [0i32; 16usize],
        }
    }
}

impl Default for ShortTermRefPicSet {
    fn default() -> (r: Self)
        ensures
            r == Self::initial(),
    {
        ShortTermRefPicSet {
            inter_ref_pic_set_prediction_flag: false,
            num_delta_pocs: 0,
            num_negative_pics: 0,
            num_positive_pics: 0,
            used_by_curr_pic_s0: [false; 16],
            used_by_curr_pic_s1: [false; 16],
            delta_poc_s0: [0i32; 16],
            delta_poc_s1: [0i32; 16],
        }
    }
}

/// `sub_layer_hrd_parameters()` (E.2.3).
#[derive(Clone, Copy, Debug, PartialEq, Eq)]
pub struct SublayerHrdParameters {
    pub bit_rate_value_minus1: [u32; 32],
    pub cpb_size_value_minus1: [u32; 32],
    pub cpb_size_du_value_minus1: [u32; 32],
    pub bit_rate_du_value_minus1: [u32; 32],
    pub cbr_flag: [bool; 32],
}

impl SublayerHrdParameters {
    /// The value of a structure of which nothing is coded.
    pub open spec fn initial() -> Self {
        SublayerHrdParameters {
            bit_rate_value_minus1: [0u32; 32usize],
            cpb_size_value_minus1: [0u32; 32usize],
            cpb_size_du_value_minus1: [0u32; 32usize],
            bit_rate_du_value_minus1: [0u32; 32usize],
            cbr_flag: [false; 32usize],
        }
    }
}

impl Default for SublayerHrdParameters {
    fn default() -> (r: Self)
        ensures
            r == Self::initial(),
    {
        SublayerHrdParameters {
            bit_rate_value_minus1: [0u32; 32],
            cpb_size_value_minus1: [0u32; 32],
            cpb_size_du_value_minus1: [0u32; 32],
            bit_rate_du_value_minus1: [0u32; 32],
            cbr_flag: [false; 32],
        }
    }
}

/// `hrd_parameters()` (E.2.2).
#[derive(Clone, Debug, PartialEq, Eq)]
pub struct HrdParams {
    pub nal_hrd_parameters_present_flag: bool,
    pub vcl_hrd_parameters_present_flag: bool,
    pub sub_pic_hrd_params_present_flag: bool,
    pub tick_divisor_minus2: u8,
    pub du_cpb_removal_delay_increment_length_minus1: u8,
    pub sub_pic_cpb_params_in_pic_timing_sei_flag: bool,
    pub dpb_output_delay_du_length_minus1: u8,
    pub bit_rate_scale: u8,
    pub cpb_size_scale: u8,
    pub cpb_size_du_scale: u8,
    pub initial_cpb_removal_delay_length_minus1: u8,
    pub au_cpb_removal_delay_length_minus1: u8,
    pub dpb_output_delay_length_minus1: u8,
    pub fixed_pic_rate_general_flag: [bool; 7],
    pub fixed_pic_rate_within_cvs_flag: [bool; 7],
    pub elemental_duration_in_tc_minus1: [u32; 7],
    pub low_delay_hrd_flag: [bool; 7],
    pub cpb_cnt_minus1: [u32; 7],
    pub nal_hrd: [SublayerHrdParameters; 7],
    pub vcl_hrd: [SublayerHrdParameters; 7],
}

impl HrdParams {
    /// The value of a structure of which nothing is coded.
    pub open spec fn initial() -> Self {
        HrdParams {
            nal_hrd_parameters_present_flag: false,
            vcl_hrd_parameters_present_flag: false,
            sub_pic_hrd_params_present_flag: false,
            tick_divisor_minus2: 0,
            du_cpb_removal_delay_increment_length_minus1: 0,
            sub_pic_cpb_params_in_pic_timing_sei_flag: false,
            dpb_output_delay_du_length_minus1: 0,
            bit_rate_scale: 0,
            cpb_size_scale: 0,
            cpb_size_du_scale: 0,
            initial_cpb_removal_delay_length_minus1: 23,
            au_cpb_removal_delay_length_minus1: 23,
            dpb_output_delay_length_minus1: 23,
            fixed_pic_rate_general_flag: [false; 7usize],
            fixed_pic_rate_within_cvs_flag: [false; 7usize],
            elemental_duration_in_tc_minus1: [0u32; 7usize],
            low_delay_hrd_flag: [false; 7usize],
            cpb_cnt_minus1: [0u32; 7usize],
            nal_hrd: [SublayerHrdParameters::initial(); 7usize],
            vcl_hrd: [SublayerHrdParameters::initial(); 7usize],
        }
    }
}

impl Default for HrdParams {
    fn default() -> (r: Self)
        ensures
            r == Self::initial(),
    {
        HrdParams {
            nal_hrd_parameters_present_flag: false,
            vcl_hrd_parameters_present_flag: false,
            sub_pic_hrd_params_present_flag: false,
            tick_divisor_minus2: 0,
            du_cpb_removal_delay_increment_length_minus1: 0,
            sub_pic_cpb_params_in_pic_timing_sei_flag: false,
            dpb_output_delay_du_length_minus1: 0,
            bit_rate_scale: 0,
            cpb_size_scale: 0,
            cpb_size_du_scale: 0,
            initial_cpb_removal_delay_length_minus1: 23,
            au_cpb_removal_delay_length_minus1: 23,
            dpb_output_delay_length_minus1: 23,
            fixed_pic_rate_general_flag: [false; 7],
            fixed_pic_rate_within_cvs_flag: [false; 7],
            elemental_duration_in_tc_minus1: [0u32; 7],
            low_delay_hrd_flag: [false; 7],
            cpb_cnt_minus1: [0u32; 7],
            nal_hrd: [SublayerHrdParameters::default(); 7],
            vcl_hrd: [SublayerHrdParameters::default(); 7],
        }
    }
}

/// `vui_parameters()` (E.2.1).
#[derive(Clone, Debug, PartialEq, Eq)]
pub struct VuiParams {
    pub aspect_ratio_info_present_flag: bool,
    pub aspect_ratio_idc: u32,
    pub sar_width: u32,
    pub sar_height: u32,
    pub overscan_info_present_flag: bool,
    pub overscan_appropriate_flag: bool,
    pub video_signal_type_present_flag: bool,
    pub video_format: u8,
    pub video_full_range_flag: bool,
    pub colour_description_present_flag: bool,
    pub colour_primaries: u32,
    pub transfer_characteristics: u32,
    pub matrix_coeffs: u32,
    pub chroma_loc_info_present_flag: bool,
    pub chroma_sample_loc_type_top_field: u32,
    pub chroma_sample_loc_type_bottom_field: u32,
    pub neutral_chroma_indication_flag: bool,
    pub field_seq_flag: bool,
    pub frame_field_info_present_flag: bool,
    pub default_display_window_flag: bool,
    pub def_disp_win_left_offset: u32,
    pub def_disp_win_right_offset: u32,
    pub def_disp_win_top_offset: u32,
    pub def_disp_win_bottom_offset: u32,
    pub timing_info_present_flag: bool,
    pub num_units_in_tick: u32,
    pub time_scale: u32,
    pub poc_proportional_to_timing_flag: bool,
    pub num_ticks_poc_diff_one_minus1: u32,
    pub hrd_parameters_present_flag: bool,
    pub hrd: HrdParams,
    pub bitstream_restriction_flag: bool,
    pub tiles_fixed_structure_flag: bool,
    pub motion_vectors_over_pic_boundaries_flag: bool,
    pub restricted_ref_pic_lists_flag: bool,
    pub min_spatial_segmentation_idc: u32,
    pub max_bytes_per_pic_denom: u32,
    pub max_bits_per_min_cu_denom: u32,
    pub log2_max_mv_length_horizontal: u32,
    pub log2_max_mv_length_vertical: u32,
}

impl VuiParams {
    /// The value of a structure of which nothing is coded.
    pub open spec fn initial() -> Self {
        VuiParams {
            aspect_ratio_info_present_flag: false,
            aspect_ratio_idc: 0,
            sar_width: 0,
            sar_height: 0,
            overscan_info_present_flag: false,
            overscan_appropriate_flag: false,
            video_signal_type_present_flag: false,
            video_format: 5,
            video_full_range_flag: false,
            colour_description_present_flag: false,
            colour_primaries: 2,
            transfer_characteristics: 2,
            matrix_coeffs: 2,
            chroma_loc_info_present_flag: false,
            chroma_sample_loc_type_top_field: 0,
            chroma_sample_loc_type_bottom_field: 0,
            neutral_chroma_indication_flag: false,
            field_seq_flag: false,
            frame_field_info_present_flag: false,
            default_display_window_flag: false,
            def_disp_win_left_offset: 0,
            def_disp_win_right_offset: 0,
            def_disp_win_top_offset: 0,
            def_disp_win_bottom_offset: 0,
            timing_info_present_flag: false,
            num_units_in_tick: 0,
            time_scale: 0,
            poc_proportional_to_timing_flag: false,
            num_ticks_poc_diff_one_minus1: 0,
            hrd_parameters_present_flag: false,
            hrd: HrdParams::initial(),
            bitstream_restriction_flag: false,
            tiles_fixed_structure_flag: false,
            motion_vectors_over_pic_boundaries_flag: true,
            restricted_ref_pic_lists_flag: false,
            min_spatial_segmentation_idc: 0,
            max_bytes_per_pic_denom: 2,
            max_bits_per_min_cu_denom: 1,
            log2_max_mv_length_horizontal: 15,
            log2_max_mv_length_vertical: 15,
        }
    }
}

impl Default for VuiParams {
    fn default() -> (r: Self)
        ensures
            r == Self::initial(),
    {
        VuiParams {
            aspect_ratio_info_present_flag: false,
            aspect_ratio_idc: 0,
            sar_width: 0,
            sar_height: 0,
            overscan_info_present_flag: false,
            overscan_appropriate_flag: false,
            video_signal_type_present_flag: false,
            video_format: 5,
            video_full_range_flag: false,
            colour_description_present_flag: false,
            colour_primaries: 2,
            transfer_characteristics: 2,
            matrix_coeffs: 2,
            chroma_loc_info_present_flag: false,
            chroma_sample_loc_type_top_field: 0,
            chroma_sample_loc_type_bottom_field: 0,
            neutral_chroma_indication_flag: false,
            field_seq_flag: false,
            frame_field_info_present_flag: false,
            default_display_window_flag: false,
            def_disp_win_left_offset: 0,
            def_disp_win_right_offset: 0,
            def_disp_win_top_offset: 0,
            def_disp_win_bottom_offset: 0,
            timing_info_present_flag: false,
            num_units_in_tick: 0,
            time_scale: 0,
            poc_proportional_to_timing_flag: false,
            num_ticks_poc_diff_one_minus1: 0,
            hrd_parameters_present_flag: false,
            hrd: HrdParams::default(),
            bitstream_restriction_flag: false,
            tiles_fixed_structure_flag: false,
            motion_vectors_over_pic_boundaries_flag: true,
            restricted_ref_pic_lists_flag: false,
            min_spatial_segmentation_idc: 0,
            max_bytes_per_pic_denom: 2,
            max_bits_per_min_cu_denom: 1,
            log2_max_mv_length_horizontal: 15,
            log2_max_mv_length_vertical: 15,
        }
    }
}

/// A video parameter set (7.3.2.1).
#[derive(Clone, Debug, PartialEq, Eq)]
pub struct Vps {
    pub video_parameter_set_id: u8,
    pub base_layer_internal_flag: bool,
    pub base_layer_available_flag: bool,
    pub max_layers_minus1: u8,
    pub max_sub_layers_minus1: u8,
    pub temporal_id_nesting_flag: bool,
    pub profile_tier_level: ProfileTierLevel,
    pub sub_layer_ordering_info_present_flag: bool,
    pub max_dec_pic_buffering_minus1: [u32; 7],
    pub max_num_reorder_pics: [u32; 7],
    pub max_latency_increase_plus1: [u32; 7],
    pub max_layer_id: u8,
    pub num_layer_sets_minus1: u32,
    pub timing_info_present_flag: bool,
    pub num_units_in_tick: u32,
    pub time_scale: u32,
    pub poc_proportional_to_timing_flag: bool,
    pub num_ticks_poc_diff_one_minus1: u32,
    pub num_hrd_parameters: u32,
    pub hrd_layer_set_idx: Vec<u16>,
    pub cprms_present_flag: Vec<bool>,
    pub hrd_parameters: Vec<HrdParams>,
    pub extension_flag: bool,
}

impl Vps {
    /// Whether this is the value of a structure of which nothing is coded.
    pub open spec fn is_initial(self) -> bool {
        &&& self.video_parameter_set_id == 0
        &&& self.base_layer_internal_flag == false
        &&& self.base_layer_available_flag == false
        &&& self.max_layers_minus1 == 0
        &&& self.max_sub_layers_minus1 == 0
        &&& self.temporal_id_nesting_flag == false
        &&& self.profile_tier_level == ProfileTierLevel::initial()
        &&& self.sub_layer_ordering_info_present_flag == false
        &&& self.max_dec_pic_buffering_minus1 == [0u32; 7usize]
        &&& self.max_num_reorder_pics == [0u32; 7usize]
        &&& self.max_latency_increase_plus1 == [0u32; 7usize]
        &&& self.max_layer_id == 0
        &&& self.num_layer_sets_minus1 == 0
        &&& self.timing_info_present_flag == false
        &&& self.num_units_in_tick == 0
        &&& self.time_scale == 0
        &&& self.poc_proportional_to_timing_flag == false
        &&& self.num_ticks_poc_diff_one_minus1 == 0
        &&& self.num_hrd_parameters == 0
        &&& self.hrd_layer_set_idx@ == Seq::<u16>::empty()
        &&& self.cprms_present_flag@ == Seq::<bool>::empty()
        &&& self.hrd_parameters@ == Seq::<HrdParams>::empty()
        &&& self.extension_flag == false
    }
}

impl Default for Vps {
    fn default() -> (r: Self)
        ensures
            r.is_initial(),
    {
        Vps {
            video_parameter_set_id: 0,
            base_layer_internal_flag: false,
            base_layer_available_flag: false,
            max_layers_minus1: 0,
            max_sub_layers_minus1: 0,
            temporal_id_nesting_flag: false,
            profile_tier_level: ProfileTierLevel::default(),
            sub_layer_ordering_info_present_flag: false,
            max_dec_pic_buffering_minus1: [0u32; 7],
            max_num_reorder_pics: [0u32; 7],
            max_latency_increase_plus1: [0u32; 7],
            max_layer_id: 0,
            num_layer_sets_minus1: 0,
            timing_info_present_flag: false,
            num_units_in_tick: 0,
            time_scale: 0,
            poc_proportional_to_timing_flag: false,
            num_ticks_poc_diff_one_minus1: 0,
            num_hrd_parameters: 0,
            hrd_layer_set_idx: Vec::new(),
            cprms_present_flag: Vec::new(),
            hrd_parameters: Vec::new(),
            extension_flag: false,
        }
    }
}

/// `sps_range_extension()` (7.3.2.2.2).
#[derive(Clone, Copy, Debug, PartialEq, Eq)]
pub struct SpsRangeExtension {
    pub transform_skip_rotation_enabled_flag: bool,
    pub transform_skip_context_enabled_flag: bool,
    pub implicit_rdpcm_enabled_flag: bool,
    pub explicit_rdpcm_enabled_flag: bool,
    pub extended_precision_processing_flag: bool,
    pub intra_smoothing_disabled_flag: bool,
    pub high_precision_offsets_enabled_flag: bool,
    pub persistent_rice_adaptation_enabled_flag: bool,
    pub cabac_bypass_alignment_enabled_flag: bool,
}

impl SpsRangeExtension {
    /// The value of a structure of which nothing is coded.
    pub open spec fn initial() -> Self {
        SpsRangeExtension {
            transform_skip_rotation_enabled_flag: false,
            transform_skip_context_enabled_flag: false,
            implicit_rdpcm_enabled_flag: false,
            explicit_rdpcm_enabled_flag: false,
            extended_precision_processing_flag: false,
            intra_smoothing_disabled_flag: false,
            high_precision_offsets_enabled_flag: false,
            persistent_rice_adaptation_enabled_flag: false,
            cabac_bypass_alignment_enabled_flag: false,
        }
    }
}

impl Default for SpsRangeExtension {
    fn default() -> (r: Self)
        ensures
            r == Self::initial(),
    {
        SpsRangeExtension {
            transform_skip_rotation_enabled_flag: false,
            transform_skip_context_enabled_flag: false,
            implicit_rdpcm_enabled_flag: false,
            explicit_rdpcm_enabled_flag: false,
            extended_precision_processing_flag: false,
            intra_smoothing_disabled_flag: false,
            high_precision_offsets_enabled_flag: false,
            persistent_rice_adaptation_enabled_flag: false,
            cabac_bypass_alignment_enabled_flag: false,
        }
    }
}

/// The part of `sps_scc_extension()` (7.3.2.2.3) that slice segment headers depend on.
#[derive(Clone, Copy, Debug, PartialEq, Eq)]
pub struct SpsSccExtension {
    pub curr_pic_ref_enabled_flag: bool,
    pub motion_vector_resolution_control_idc: u8,
}

impl SpsSccExtension {
    /// The value of a structure of which nothing is coded.
    pub open spec fn initial() -> Self {
        SpsSccExtension {
            curr_pic_ref_enabled_flag: false,
            motion_vector_resolution_control_idc: 0,
        }
    }
}

impl Default for SpsSccExtension {
    fn default() -> (r: Self)
        ensures
            r == Self::initial(),
    {
        SpsSccExtension {
            curr_pic_ref_enabled_flag: false,
            motion_vector_resolution_control_idc: 0,
        }
    }
}

/// A sequence parameter set (7.3.2.2).
#[derive(Clone, Debug, PartialEq, Eq)]
pub struct Sps {
    pub video_parameter_set_id: u8,
    pub max_sub_layers_minus1: u8,
    pub temporal_id_nesting_flag: bool,
    pub profile_tier_level: ProfileTierLevel,
    pub seq_parameter_set_id: u8,
    pub chroma_format_idc: u8,
    pub separate_colour_plane_flag: bool,
    pub pic_width_in_luma_samples: u16,
    pub pic_height_in_luma_samples: u16,
    pub conformance_window_flag: bool,
    pub conf_win_left_offset: u32,
    pub conf_win_right_offset: u32,
    pub conf_win_top_offset: u32,
    pub conf_win_bottom_offset: u32,
    pub bit_depth_luma_minus8: u8,
    pub bit_depth_chroma_minus8: u8,
    pub log2_max_pic_order_cnt_lsb_minus4: u8,
    pub sub_layer_ordering_info_present_flag: bool,
    pub max_dec_pic_buffering_minus1: [u8; 7],
    pub max_num_reorder_pics: [u8; 7],
    pub max_latency_increase_plus1: [u8; 7],
    pub log2_min_luma_coding_block_size_minus3: u8,
    pub log2_diff_max_min_luma_coding_block_size: u8,
    pub log2_min_luma_transform_block_size_minus2: u8,
    pub log2_diff_max_min_luma_transform_block_size: u8,
    pub max_transform_hierarchy_depth_inter: u8,
    pub max_transform_hierarchy_depth_intra: u8,
    pub scaling_list_enabled_flag: bool,
    pub scaling_list_data_present_flag: bool,
    pub scaling_list: ScalingLists,
    pub amp_enabled_flag: bool,
    pub sample_adaptive_offset_enabled_flag: bool,
    pub pcm_enabled_flag: bool,
    pub pcm_sample_bit_depth_luma_minus1: u8,
    pub pcm_sample_bit_depth_chroma_minus1: u8,
    pub log2_min_pcm_luma_coding_block_size_minus3: u8,
    pub log2_diff_max_min_pcm_luma_coding_block_size: u8,
    pub pcm_loop_filter_disabled_flag: bool,
    pub num_short_term_ref_pic_sets: u8,
    pub short_term_ref_pic_set: Vec<ShortTermRefPicSet>,
    pub long_term_ref_pics_present_flag: bool,
    pub num_long_term_ref_pics_sps: u8,
    pub lt_ref_pic_poc_lsb_sps: [u32; 32],
    pub used_by_curr_pic_lt_sps_flag: [bool; 32],
    pub temporal_mvp_enabled_flag: bool,
    pub strong_intra_smoothing_enabled_flag: bool,
    pub vui_parameters_present_flag: bool,
    pub vui_parameters: VuiParams,
    pub extension_present_flag: bool,
    pub range_extension_flag: bool,
    pub range_extension: SpsRangeExtension,
    pub scc_extension_flag: bool,
    pub scc_extension: SpsSccExtension,
    /// `ChromaArrayType`.
    pub chroma_array_type: u8,
    /// `MinCbLog2SizeY`.
    pub min_cb_log2_size_y: u32,
    /// `CtbLog2SizeY`.
    pub ctb_log2_size_y: u32,
    /// `CtbSizeY`.
    pub ctb_size_y: u32,
    /// `PicWidthInCtbsY`.
    pub pic_width_in_ctbs_y: u32,
    /// `PicHeightInCtbsY`.
    pub pic_height_in_ctbs_y: u32,
    /// `PicSizeInCtbsY`.
    pub pic_size_in_ctbs_y: u32,
    /// `PicSizeInSamplesY`.
    pub pic_size_in_samples_y: u32,
    /// `MaxTbLog2SizeY`.
    pub max_tb_log2_size_y: u32,
    /// The video parameter set that this set refers to.
    pub vps: Option<Rc<Vps>>,
}

impl Sps {
    /// Whether this is the value of a structure of which nothing is coded.
    pub open spec fn is_initial(self) -> bool {
        &&& self.video_parameter_set_id == 0
        &&& self.max_sub_layers_minus1 == 0
        &&& self.temporal_id_nesting_flag == false
        &&& self.profile_tier_level == ProfileTierLevel::initial()
        &&& self.seq_parameter_set_id == 0
        &&& self.chroma_format_idc == 0
        &&& self.separate_colour_plane_flag == false
        &&& self.pic_width_in_luma_samples == 0
        &&& self.pic_height_in_luma_samples == 0
        &&& self.conformance_window_flag == false
        &&& self.conf_win_left_offset == 0
        &&& self.conf_win_right_offset == 0
        &&& self.conf_win_top_offset == 0
        &&& self.conf_win_bottom_offset == 0
        &&& self.bit_depth_luma_minus8 == 0
        &&& self.bit_depth_chroma_minus8 == 0
        &&& self.log2_max_pic_order_cnt_lsb_minus4 == 0
        &&& self.sub_layer_ordering_info_present_flag == false
        &&& self.max_dec_pic_buffering_minus1 == [0u8; 7usize]
        &&& self.max_num_reorder_pics == [0u8; 7usize]
        &&& self.max_latency_increase_plus1 == [0u8; 7usize]
        &&& self.log2_min_luma_coding_block_size_minus3 == 0
        &&& self.log2_diff_max_min_luma_coding_block_size == 0
        &&& self.log2_min_luma_transform_block_size_minus2 == 0
        &&& self.log2_diff_max_min_luma_transform_block_size == 0
        &&& self.max_transform_hierarchy_depth_inter == 0
        &&& self.max_transform_hierarchy_depth_intra == 0
        &&& self.scaling_list_enabled_flag == false
        &&& self.scaling_list_data_present_flag == false
        &&& self.scaling_list == ScalingLists::initial()
        &&& self.amp_enabled_flag == false
        &&& self.sample_adaptive_offset_enabled_flag == false
        &&& self.pcm_enabled_flag == false
        &&& self.pcm_sample_bit_depth_luma_minus1 == 0
        &&& self.pcm_sample_bit_depth_chroma_minus1 == 0
        &&& self.log2_min_pcm_luma_coding_block_size_minus3 == 0
        &&& self.log2_diff_max_min_pcm_luma_coding_block_size == 0
        &&& self.pcm_loop_filter_disabled_flag == false
        &&& self.num_short_term_ref_pic_sets == 0
        &&& self.short_term_ref_pic_set@ == Seq::<ShortTermRefPicSet>::empty()
        &&& self.long_term_ref_pics_present_flag == false
        &&& self.num_long_term_ref_pics_sps == 0
        &&& self.lt_ref_pic_poc_lsb_sps == [0u32; 32usize]
        &&& self.used_by_curr_pic_lt_sps_flag == [false; 32usize]
        &&& self.temporal_mvp_enabled_flag == false
        &&& self.strong_intra_smoothing_enabled_flag == false
        &&& self.vui_parameters_present_flag == false
        &&& self.vui_parameters == VuiParams::initial()
        &&& self.extension_present_flag == false
        &&& self.range_extension_flag == false
        &&& self.range_extension == SpsRangeExtension::initial()
        &&& self.scc_extension_flag == false
        &&& self.scc_extension == SpsSccExtension::initial()
        &&& self.chroma_array_type == 0
        &&& self.min_cb_log2_size_y == 0
        &&& self.ctb_log2_size_y == 0
        &&& self.ctb_size_y == 0
        &&& self.pic_width_in_ctbs_y == 0
        &&& self.pic_height_in_ctbs_y == 0
        &&& self.pic_size_in_ctbs_y == 0
        &&& self.pic_size_in_samples_y == 0
        &&& self.max_tb_log2_size_y == 0
        &&& self.vps == None::<Rc<Vps>>
    }
}

impl Default for Sps {
    fn default() -> (r: Self)
        ensures
            r.is_initial(),
    {
        Sps {
            video_parameter_set_id: 0,
            max_sub_layers_minus1: 0,
            temporal_id_nesting_flag: false,
            profile_tier_level: ProfileTierLevel::default(),
            seq_parameter_set_id: 0,
            chroma_format_idc: 0,
            separate_colour_plane_flag: false,
            pic_width_in_luma_samples: 0,
            pic_height_in_luma_samples: 0,
            conformance_window_flag: false,
            conf_win_left_offset: 0,
            conf_win_right_offset: 0,
            conf_win_top_offset: 0,
            conf_win_bottom_offset: 0,
            bit_depth_luma_minus8: 0,
            bit_depth_chroma_minus8: 0,
            log2_max_pic_order_cnt_lsb_minus4: 0,
            sub_layer_ordering_info_present_flag: false,
            max_dec_pic_buffering_minus1: [0u8; 7],
            max_num_reorder_pics: [0u8; 7],
            max_latency_increase_plus1: [0u8; 7],
            log2_min_luma_coding_block_size_minus3: 0,
            log2_diff_max_min_luma_coding_block_size: 0,
            log2_min_luma_transform_block_size_minus2: 0,
            log2_diff_max_min_luma_transform_block_size: 0,
            max_transform_hierarchy_depth_inter: 0,
            max_transform_hierarchy_depth_intra: 0,
            scaling_list_enabled_flag: false,
            scaling_list_data_present_flag: false,
            scaling_list: ScalingLists::default(),
            amp_enabled_flag: false,
            sample_adaptive_offset_enabled_flag: false,
            pcm_enabled_flag: false,
            pcm_sample_bit_depth_luma_minus1: 0,
            pcm_sample_bit_depth_chroma_minus1: 0,
            log2_min_pcm_luma_coding_block_size_minus3: 0,
            log2_diff_max_min_pcm_luma_coding_block_size: 0,
            pcm_loop_filter_disabled_flag: false,
            num_short_term_ref_pic_sets: 0,
            short_term_ref_pic_set: Vec::new(),
            long_term_ref_pics_present_flag: false,
            num_long_term_ref_pics_sps: 0,
            lt_ref_pic_poc_lsb_sps: [0u32; 32],
            used_by_curr_pic_lt_sps_flag: [false; 32],
            temporal_mvp_enabled_flag: false,
            strong_intra_smoothing_enabled_flag: false,
            vui_parameters_present_flag: false,
            vui_parameters: VuiParams::default(),
            extension_present_flag: false,
            range_extension_flag: false,
            range_extension: SpsRangeExtension::default(),
            scc_extension_flag: false,
            scc_extension: SpsSccExtension::default(),
            chroma_array_type: 0,
            min_cb_log2_size_y: 0,
            ctb_log2_size_y: 0,
            ctb_size_y: 0,
            pic_width_in_ctbs_y: 0,
            pic_height_in_ctbs_y: 0,
            pic_size_in_ctbs_y: 0,
            pic_size_in_samples_y: 0,
            max_tb_log2_size_y: 0,
            vps: None,
        }
    }
}

/// `pps_range_extension()` (7.3.2.3.2).
#[derive(Clone, Copy, Debug, PartialEq, Eq)]
pub struct PpsRangeExtension {
    pub log2_max_transform_skip_block_size_minus2: u32,
    pub cross_component_prediction_enabled_flag: bool,
    pub chroma_qp_offset_list_enabled_flag: bool,
    pub diff_cu_chroma_qp_offset_depth: u32,
    pub chroma_qp_offset_list_len_minus1: u32,
    pub cb_qp_offset_list: [i32; 6],
    pub cr_qp_offset_list: [i32; 6],
    pub log2_sao_offset_scale_luma: u32,
    pub log2_sao_offset_scale_chroma: u32,
}

impl PpsRangeExtension {
    /// The value of a structure of which nothing is coded.
    pub open spec fn initial() -> Self {
        PpsRangeExtension {
            log2_max_transform_skip_block_size_minus2: 0,
            cross_component_prediction_enabled_flag: false,
            chroma_qp_offset_list_enabled_flag: false,
            diff_cu_chroma_qp_offset_depth: 0,
            chroma_qp_offset_list_len_minus1: 0,
            cb_qp_offset_list: [0i32; 6usize],
            cr_qp_offset_list: [0i32; 6usize],
            log2_sao_offset_scale_luma: 0,
            log2_sao_offset_scale_chroma: 0,
        }
    }
}

impl Default for PpsRangeExtension {
    fn default() -> (r: Self)
        ensures
            r == Self::initial(),
    {
        PpsRangeExtension {
            log2_max_transform_skip_block_size_minus2: 0,
            cross_component_prediction_enabled_flag: false,
            chroma_qp_offset_list_enabled_flag: false,
            diff_cu_chroma_qp_offset_depth: 0,
            chroma_qp_offset_list_len_minus1: 0,
            cb_qp_offset_list: [0i32; 6],
            cr_qp_offset_list: [0i32; 6],
            log2_sao_offset_scale_luma: 0,
            log2_sao_offset_scale_chroma: 0,
        }
    }
}

/// The part of `pps_scc_extension()` (7.3.2.3.3) that slice segment headers depend on.
#[derive(Clone, Copy, Debug, PartialEq, Eq)]
pub struct PpsSccExtension {
    pub curr_pic_ref_enabled_flag: bool,
    pub slice_act_qp_offsets_present_flag: bool,
}

impl PpsSccExtension {
    /// The value of a structure of which nothing is coded.
    pub open spec fn initial() -> Self {
        PpsSccExtension {
            curr_pic_ref_enabled_flag: false,
            slice_act_qp_offsets_present_flag: false,
        }
    }
}

impl Default for PpsSccExtension {
    fn default() -> (r: Self)
        ensures
            r == Self::initial(),
    {
        PpsSccExtension {
            curr_pic_ref_enabled_flag: false,
            slice_act_qp_offsets_present_flag: false,
        }
    }
}

/// A picture parameter set (7.3.2.3).
#[derive(Clone, Debug, PartialEq, Eq)]
pub struct Pps {
    pub pic_parameter_set_id: u8,
    pub seq_parameter_set_id: u8,
    pub dependent_slice_segments_enabled_flag: bool,
    pub output_flag_present_flag: bool,
    pub num_extra_slice_header_bits: u8,
    pub sign_data_hiding_enabled_flag: bool,
    pub cabac_init_present_flag: bool,
    pub num_ref_idx_l0_default_active_minus1: u8,
    pub num_ref_idx_l1_default_active_minus1: u8,
    pub init_qp_minus26: i8,
    pub constrained_intra_pred_flag: bool,
    pub transform_skip_enabled_flag: bool,
    pub cu_qp_delta_enabled_flag: bool,
    pub diff_cu_qp_delta_depth: u8,
    pub cb_qp_offset: i8,
    pub cr_qp_offset: i8,
    pub slice_chroma_qp_offsets_present_flag: bool,
    pub weighted_pred_flag: bool,
    pub weighted_bipred_flag: bool,
    pub transquant_bypass_enabled_flag: bool,
    pub tiles_enabled_flag: bool,
    pub entropy_coding_sync_enabled_flag: bool,
    pub num_tile_columns_minus1: u8,
    pub num_tile_rows_minus1: u8,
    pub uniform_spacing_flag: bool,
    pub column_width_minus1: [u32; 19],
    pub row_height_minus1: [u32; 21],
    pub loop_filter_across_tiles_enabled_flag: bool,
    pub loop_filter_across_slices_enabled_flag: bool,
    pub deblocking_filter_control_present_flag: bool,
    pub deblocking_filter_override_enabled_flag: bool,
    pub deblocking_filter_disabled_flag: bool,
    pub beta_offset_div2: i8,
    pub tc_offset_div2: i8,
    pub scaling_list_data_present_flag: bool,
    pub scaling_list: ScalingLists,
    pub lists_modification_present_flag: bool,
    pub log2_parallel_merge_level_minus2: u8,
    pub slice_segment_header_extension_present_flag: bool,
    pub extension_present_flag: bool,
    pub range_extension_flag: bool,
    pub range_extension: PpsRangeExtension,
    pub scc_extension_flag: bool,
    pub scc_extension: PpsSccExtension,
    /// `QpBdOffsetY`.
    pub qp_bd_offset_y: u32,
    /// The sequence parameter set that this set refers to.
    pub sps: Rc<Sps>,
}

/// `ref_pic_lists_modification()` (7.3.6.2).
#[derive(Clone, Debug, PartialEq, Eq)]
pub struct RefPicListModification {
    pub ref_pic_list_modification_flag_l0: bool,
    pub list_entry_l0: [u32; 16],
    pub ref_pic_list_modification_flag_l1: bool,
    pub list_entry_l1: [u32; 16],
}

impl RefPicListModification {
    /// The value of a structure of which nothing is coded.
    pub open spec fn initial() -> Self {
        RefPicListModification {
            ref_pic_list_modification_flag_l0: false,
            list_entry_l0: [0u32; 16usize],
            ref_pic_list_modification_flag_l1: false,
            list_entry_l1: [0u32; 16usize],
        }
    }
}

impl Default for RefPicListModification {
    fn default() -> (r: Self)
        ensures
            r == Self::initial(),
    {
        RefPicListModification {
            ref_pic_list_modification_flag_l0: false,
            list_entry_l0: [0u32; 16],
            ref_pic_list_modification_flag_l1: false,
            list_entry_l1: [0u32; 16],
        }
    }
}

/// `pred_weight_table()` (7.3.6.3).
#[derive(Clone, Debug, PartialEq, Eq)]
pub struct PredWeightTable {
    pub luma_log2_weight_denom: u8,
    pub delta_chroma_log2_weight_denom: i8,
    pub luma_weight_l0_flag: [bool; 15],
    pub chroma_weight_l0_flag: [bool; 15],
    pub delta_luma_weight_l0: [i8; 15],
    pub luma_offset_l0: [i8; 15],
    pub delta_chroma_weight_l0: [[i8; 2]; 15],
    pub delta_chroma_offset_l0: [[i16; 2]; 15],
    pub luma_weight_l1_flag: [bool; 15],
    pub chroma_weight_l1_flag: [bool; 15],
    pub delta_luma_weight_l1: [i8; 15],
    pub luma_offset_l1: [i8; 15],
    pub delta_chroma_weight_l1: [[i8; 2]; 15],
    pub delta_chroma_offset_l1: [[i16; 2]; 15],
}

impl PredWeightTable {
    /// The value of a structure of which nothing is coded.
    pub open spec fn initial() -> Self {
        PredWeightTable {
            luma_log2_weight_denom: 0,
            delta_chroma_log2_weight_denom: 0,
            luma_weight_l0_flag: [false; 15usize],
            chroma_weight_l0_flag: [false; 15usize],
            delta_luma_weight_l0: [0i8; 15usize],
            luma_offset_l0: [0i8; 15usize],
            delta_chroma_weight_l0: [[0i8; 2usize]; 15usize],
            delta_chroma_offset_l0: [[0i16; 2usize]; 15usize],
            luma_weight_l1_flag: [false; 15usize],
            chroma_weight_l1_flag: [false; 15usize],
            delta_luma_weight_l1: [0i8; 15usize],
            luma_offset_l1: [0i8; 15usize],
            delta_chroma_weight_l1: [[0i8; 2usize]; 15usize],
            delta_chroma_offset_l1: [[0i16; 2usize]; 15usize],
        }
    }
}

impl Default for PredWeightTable {
    fn default() -> (r: Self)
        ensures
            r == Self::initial(),
    {
        PredWeightTable {
            luma_log2_weight_denom: 0,
            delta_chroma_log2_weight_denom: 0,
            luma_weight_l0_flag: [false; 15],
            chroma_weight_l0_flag: [false; 15],
            delta_luma_weight_l0: [0i8; 15],
            luma_offset_l0: [0i8; 15],
            delta_chroma_weight_l0: [[0i8; 2]; 15],
            delta_chroma_offset_l0: [[0i16; 2]; 15],
            luma_weight_l1_flag: [false; 15],
            chroma_weight_l1_flag: [false; 15],
            delta_luma_weight_l1: [0i8; 15],
            luma_offset_l1: [0i8; 15],
            delta_chroma_weight_l1: [[0i8; 2]; 15],
            delta_chroma_offset_l1: [[0i16; 2]; 15],
        }
    }
}

/// A slice segment header (7.3.6.1).
#[derive(Clone, Debug, PartialEq, Eq)]
pub struct SliceHeader {
    pub first_slice_segment_in_pic_flag: bool,
    pub no_output_of_prior_pics_flag: bool,
    pub pic_parameter_set_id: u8,
    pub dependent_slice_segment_flag: bool,
    pub segment_address: u32,
    pub type_: SliceType,
    pub pic_output_flag: bool,
    pub colour_plane_id: u8,
    pub pic_order_cnt_lsb: u16,
    pub short_term_ref_pic_set_sps_flag: bool,
    pub short_term_ref_pic_set: ShortTermRefPicSet,
    pub short_term_ref_pic_set_idx: u8,
    pub num_long_term_sps: u8,
    pub num_long_term_pics: u8,
    pub lt_idx_sps: [u8; 16],
    pub poc_lsb_lt: [u32; 16],
    /// `UsedByCurrPicLt`.
    pub used_by_curr_pic_lt: [bool; 16],
    pub delta_poc_msb_present_flag: [bool; 16],
    /// `DeltaPocMsbCycleLt` (7-52).
    pub delta_poc_msb_cycle_lt: [u32; 16],
    pub temporal_mvp_enabled_flag: bool,
    pub sao_luma_flag: bool,
    pub sao_chroma_flag: bool,
    pub num_ref_idx_active_override_flag: bool,
    pub num_ref_idx_l0_active_minus1: u8,
    pub num_ref_idx_l1_active_minus1: u8,
    pub ref_pic_list_modification: RefPicListModification,
    pub mvd_l1_zero_flag: bool,
    pub cabac_init_flag: bool,
    pub collocated_from_l0_flag: bool,
    pub collocated_ref_idx: u8,
    pub pred_weight_table: PredWeightTable,
    pub five_minus_max_num_merge_cand: u8,
    pub use_integer_mv_flag: bool,
    pub qp_delta: i8,
    pub cb_qp_offset: i8,
    pub cr_qp_offset: i8,
    pub slice_act_y_qp_offset: i8,
    pub slice_act_cb_qp_offset: i8,
    pub slice_act_cr_qp_offset: i8,
    pub cu_chroma_qp_offset_enabled_flag: bool,
    pub deblocking_filter_override_flag: bool,
    pub deblocking_filter_disabled_flag: bool,
    pub beta_offset_div2: i8,
    pub tc_offset_div2: i8,
    pub loop_filter_across_slices_enabled_flag: bool,
    pub num_entry_point_offsets: u32,
    pub offset_len_minus1: u8,
    pub entry_point_offset_minus1: [u32; 32],
    /// `NumPicTotalCurr` (7-55).
    pub num_pic_total_curr: u32,
    /// `CurrRpsIdx`.
    pub curr_rps_idx: u8,
}

impl SliceHeader {
    /// The value of a structure of which nothing is coded.
    pub open spec fn initial() -> Self {
        SliceHeader {
            first_slice_segment_in_pic_flag: false,
            no_output_of_prior_pics_flag: false,
            pic_parameter_set_id: 0,
            dependent_slice_segment_flag: false,
            segment_address: 0,
            type_: SliceType::initial(),
            pic_output_flag: true,
            colour_plane_id: 0,
            pic_order_cnt_lsb: 0,
            short_term_ref_pic_set_sps_flag: false,
            short_term_ref_pic_set: ShortTermRefPicSet::initial(),
            short_term_ref_pic_set_idx: 0,
            num_long_term_sps: 0,
            num_long_term_pics: 0,
            lt_idx_sps: [0u8; 16usize],
            poc_lsb_lt: [0u32; 16usize],
            used_by_curr_pic_lt: [false; 16usize],
            delta_poc_msb_present_flag: [false; 16usize],
            delta_poc_msb_cycle_lt: [0u32; 16usize],
            temporal_mvp_enabled_flag: false,
            sao_luma_flag: false,
            sao_chroma_flag: false,
            num_ref_idx_active_override_flag: false,
            num_ref_idx_l0_active_minus1: 0,
            num_ref_idx_l1_active_minus1: 0,
            ref_pic_list_modification: RefPicListModification::initial(),
            mvd_l1_zero_flag: false,
            cabac_init_flag: false,
            collocated_from_l0_flag: true,
            collocated_ref_idx: 0,
            pred_weight_table: PredWeightTable::initial(),
            five_minus_max_num_merge_cand: 0,
            use_integer_mv_flag: false,
            qp_delta: 0,
            cb_qp_offset: 0,
            cr_qp_offset: 0,
            slice_act_y_qp_offset: 0,
            slice_act_cb_qp_offset: 0,
            slice_act_cr_qp_offset: 0,
            cu_chroma_qp_offset_enabled_flag: false,
            deblocking_filter_override_flag: false,
            deblocking_filter_disabled_flag: false,
            beta_offset_div2: 0,
            tc_offset_div2: 0,
            loop_filter_across_slices_enabled_flag: false,
            num_entry_point_offsets: 0,
            offset_len_minus1: 0,
            entry_point_offset_minus1: [0u32; 32usize],
            num_pic_total_curr: 0,
            curr_rps_idx: 0,
        }
    }
}

impl Default for SliceHeader {
    fn default() -> (r: Self)
        ensures
            r == Self::initial(),
    {
        SliceHeader {
            first_slice_segment_in_pic_flag: false,
            no_output_of_prior_pics_flag: false,
            pic_parameter_set_id: 0,
            dependent_slice_segment_flag: false,
            segment_address: 0,
            type_: SliceType::default(),
            pic_output_flag: true,
            colour_plane_id: 0,
            pic_order_cnt_lsb: 0,
            short_term_ref_pic_set_sps_flag: false,
            short_term_ref_pic_set: ShortTermRefPicSet::default(),
            short_term_ref_pic_set_idx: 0,
            num_long_term_sps: 0,
            num_long_term_pics: 0,
            lt_idx_sps: [0u8; 16],
            poc_lsb_lt: [0u32; 16],
            used_by_curr_pic_lt: [false; 16],
            delta_poc_msb_present_flag: [false; 16],
            delta_poc_msb_cycle_lt: [0u32; 16],
            temporal_mvp_enabled_flag: false,
            sao_luma_flag: false,
            sao_chroma_flag: false,
            num_ref_idx_active_override_flag: false,
            num_ref_idx_l0_active_minus1: 0,
            num_ref_idx_l1_active_minus1: 0,
            ref_pic_list_modification: RefPicListModification::default(),
            mvd_l1_zero_flag: false,
            cabac_init_flag: false,
            collocated_from_l0_flag: true,
            collocated_ref_idx: 0,
            pred_weight_table: PredWeightTable::default(),
            five_minus_max_num_merge_cand: 0,
            use_integer_mv_flag: false,
            qp_delta: 0,
            cb_qp_offset: 0,
            cr_qp_offset: 0,
            slice_act_y_qp_offset: 0,
            slice_act_cb_qp_offset: 0,
            slice_act_cr_qp_offset: 0,
            cu_chroma_qp_offset_enabled_flag: false,
            deblocking_filter_override_flag: false,
            deblocking_filter_disabled_flag: false,
            beta_offset_div2: 0,
            tc_offset_div2: 0,
            loop_filter_across_slices_enabled_flag: false,
            num_entry_point_offsets: 0,
            offset_len_minus1: 0,
            entry_point_offset_minus1: [0u32; 32],
            num_pic_total_curr: 0,
            curr_rps_idx: 0,
        }
    }
}

} // verus!
