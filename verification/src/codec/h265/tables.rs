//! The H.265 syntax tables: the sequence of syntax elements that a parameter set or
//! a slice segment header is coded as.

use crate::bits::{bit_length, pow2};
use crate::codec::h265::types::{
    HrdParams, NaluType, Pps, PpsRangeExtension, PredWeightTable, ProfileTierLevel,
    RefPicListModification, ScalingLists, ShortTermRefPicSet, SliceHeader, SliceType, Sps,
    SpsRangeExtension, SublayerHrdParameters, Vps, VuiParams,
};
use crate::syntax::{reserved_zero, syntax, Syntax};
use vstd::prelude::*;

verus! {

/// Extended Sample Aspect Ratio (Table E-1).
pub const EXTENDED_SAR: u32 = 255;

/// `Ceil(Log2(n))`, and `0` for `0`.
pub open spec fn spec_ceil_log2(n: int) -> int {
    if n <= 1 {
        0
    } else {
        bit_length((n - 1) as nat) as int
    }
}

/// A signed 32-bit difference as the unsigned value with the same bits.
pub open spec fn as_unsigned(v: int) -> int {
    v % 0x1_0000_0000
}

// ---------------------------------------------------------------------------
// profile_tier_level()
// ---------------------------------------------------------------------------
/// The profile fields of `profile_tier_level()`, of the whole stream or of one
/// sub-layer.
#[derive(Clone, Copy)]
pub struct ProfileFields {
    pub profile_space: u8,
    pub tier_flag: bool,
    pub profile_idc: u8,
    pub profile_compatibility_flag: [bool; 32],
    pub progressive_source_flag: bool,
    pub interlaced_source_flag: bool,
    pub non_packed_constraint_flag: bool,
    pub frame_only_constraint_flag: bool,
    pub max_12bit_constraint_flag: bool,
    pub max_10bit_constraint_flag: bool,
    pub max_8bit_constraint_flag: bool,
    pub max_422chroma_constraint_flag: bool,
    pub max_420chroma_constraint_flag: bool,
    pub max_monochrome_constraint_flag: bool,
    pub intra_constraint_flag: bool,
    pub one_picture_only_constraint_flag: bool,
    pub lower_bit_rate_constraint_flag: bool,
    pub max_14bit_constraint_flag: bool,
    pub inbld_flag: bool,
}

impl ProfileTierLevel {
    /// The profile fields of the whole stream.
    pub open spec fn general(self) -> ProfileFields {
        ProfileFields {
            profile_space: self.general_profile_space,
            tier_flag: self.general_tier_flag,
            profile_idc: self.general_profile_idc,
            profile_compatibility_flag: self.general_profile_compatibility_flag,
            progressive_source_flag: self.general_progressive_source_flag,
            interlaced_source_flag: self.general_interlaced_source_flag,
            non_packed_constraint_flag: self.general_non_packed_constraint_flag,
            frame_only_constraint_flag: self.general_frame_only_constraint_flag,
            max_12bit_constraint_flag: self.general_max_12bit_constraint_flag,
            max_10bit_constraint_flag: self.general_max_10bit_constraint_flag,
            max_8bit_constraint_flag: self.general_max_8bit_constraint_flag,
            max_422chroma_constraint_flag: self.general_max_422chroma_constraint_flag,
            max_420chroma_constraint_flag: self.general_max_420chroma_constraint_flag,
            max_monochrome_constraint_flag: self.general_max_monochrome_constraint_flag,
            intra_constraint_flag: self.general_intra_constraint_flag,
            one_picture_only_constraint_flag: self.general_one_picture_only_constraint_flag,
            lower_bit_rate_constraint_flag: self.general_lower_bit_rate_constraint_flag,
            max_14bit_constraint_flag: self.general_max_14bit_constraint_flag,
            inbld_flag: self.general_inbld_flag,
        }
    }

    /// The profile fields of sub-layer `i`.
    pub open spec fn sub_layer(self, i: int) -> ProfileFields {
        ProfileFields {
            profile_space: self.sub_layer_profile_space[i],
            tier_flag: self.sub_layer_tier_flag[i],
            profile_idc: self.sub_layer_profile_idc[i],
            profile_compatibility_flag: self.sub_layer_profile_compatibility_flag[i],
            progressive_source_flag: self.sub_layer_progressive_source_flag[i],
            interlaced_source_flag: self.sub_layer_interlaced_source_flag[i],
            non_packed_constraint_flag: self.sub_layer_non_packed_constraint_flag[i],
            frame_only_constraint_flag: self.sub_layer_frame_only_constraint_flag[i],
            max_12bit_constraint_flag: self.sub_layer_max_12bit_constraint_flag[i],
            max_10bit_constraint_flag: self.sub_layer_max_10bit_constraint_flag[i],
            max_8bit_constraint_flag: self.sub_layer_max_8bit_constraint_flag[i],
            max_422chroma_constraint_flag: self.sub_layer_max_422chroma_constraint_flag[i],
            max_420chroma_constraint_flag: self.sub_layer_max_420chroma_constraint_flag[i],
            max_monochrome_constraint_flag: self.sub_layer_max_monochrome_constraint_flag[i],
            intra_constraint_flag: self.sub_layer_intra_constraint_flag[i],
            one_picture_only_constraint_flag: self.sub_layer_one_picture_only_constraint_flag[i],
            lower_bit_rate_constraint_flag: self.sub_layer_lower_bit_rate_constraint_flag[i],
            max_14bit_constraint_flag: self.sub_layer_max_14bit_constraint_flag[i],
            inbld_flag: self.sub_layer_inbld_flag[i],
        }
    }
}

impl ProfileTierLevel {
    /// The profile fields of the whole stream.
    pub fn general_fields(&self) -> (p: ProfileFields)
        ensures
            p == self.general(),
    {
        ProfileFields {
            profile_space: self.general_profile_space,
            tier_flag: self.general_tier_flag,
            profile_idc: self.general_profile_idc,
            profile_compatibility_flag: self.general_profile_compatibility_flag,
            progressive_source_flag: self.general_progressive_source_flag,
            interlaced_source_flag: self.general_interlaced_source_flag,
            non_packed_constraint_flag: self.general_non_packed_constraint_flag,
            frame_only_constraint_flag: self.general_frame_only_constraint_flag,
            max_12bit_constraint_flag: self.general_max_12bit_constraint_flag,
            max_10bit_constraint_flag: self.general_max_10bit_constraint_flag,
            max_8bit_constraint_flag: self.general_max_8bit_constraint_flag,
            max_422chroma_constraint_flag: self.general_max_422chroma_constraint_flag,
            max_420chroma_constraint_flag: self.general_max_420chroma_constraint_flag,
            max_monochrome_constraint_flag: self.general_max_monochrome_constraint_flag,
            intra_constraint_flag: self.general_intra_constraint_flag,
            one_picture_only_constraint_flag: self.general_one_picture_only_constraint_flag,
            lower_bit_rate_constraint_flag: self.general_lower_bit_rate_constraint_flag,
            max_14bit_constraint_flag: self.general_max_14bit_constraint_flag,
            inbld_flag: self.general_inbld_flag,
        }
    }

    /// The profile fields of sub-layer `i`.
    pub fn sub_layer_fields(&self, i: usize) -> (p: ProfileFields)
        requires
            i < 6,
        ensures
            p == self.sub_layer(i as int),
    {
        ProfileFields {
            profile_space: self.sub_layer_profile_space[i],
            tier_flag: self.sub_layer_tier_flag[i],
            profile_idc: self.sub_layer_profile_idc[i],
            profile_compatibility_flag: self.sub_layer_profile_compatibility_flag[i],
            progressive_source_flag: self.sub_layer_progressive_source_flag[i],
            interlaced_source_flag: self.sub_layer_interlaced_source_flag[i],
            non_packed_constraint_flag: self.sub_layer_non_packed_constraint_flag[i],
            frame_only_constraint_flag: self.sub_layer_frame_only_constraint_flag[i],
            max_12bit_constraint_flag: self.sub_layer_max_12bit_constraint_flag[i],
            max_10bit_constraint_flag: self.sub_layer_max_10bit_constraint_flag[i],
            max_8bit_constraint_flag: self.sub_layer_max_8bit_constraint_flag[i],
            max_422chroma_constraint_flag: self.sub_layer_max_422chroma_constraint_flag[i],
            max_420chroma_constraint_flag: self.sub_layer_max_420chroma_constraint_flag[i],
            max_monochrome_constraint_flag: self.sub_layer_max_monochrome_constraint_flag[i],
            intra_constraint_flag: self.sub_layer_intra_constraint_flag[i],
            one_picture_only_constraint_flag: self.sub_layer_one_picture_only_constraint_flag[i],
            lower_bit_rate_constraint_flag: self.sub_layer_lower_bit_rate_constraint_flag[i],
            max_14bit_constraint_flag: self.sub_layer_max_14bit_constraint_flag[i],
            inbld_flag: self.sub_layer_inbld_flag[i],
        }
    }
}

/// Whether `idc` is one of `candidates`, or the compatibility flag of one of them
/// is set.
#[verifier::opaque]
pub open spec fn spec_profile_match(idc: u8, compat: Seq<bool>, candidates: Seq<usize>) -> bool {
    exists|k: int|
        0 <= k < candidates.len() && (idc as int == candidates[k] as int
            || compat[#[trigger] candidates[k] as int])
}

/// The profiles that code the range extensions constraint flags.
#[verifier::opaque]
pub open spec fn has_range_flags(idc: u8, compat: Seq<bool>) -> bool {
    spec_profile_match(idc, compat, seq![4usize, 5, 6, 7, 8, 9, 10, 11])
}

/// The profiles that code `max_14bit_constraint_flag`.
#[verifier::opaque]
pub open spec fn has_14bit_flag(idc: u8, compat: Seq<bool>) -> bool {
    spec_profile_match(idc, compat, seq![5usize, 9, 10, 11])
}

/// The profiles that code `one_picture_only_constraint_flag` alone.
#[verifier::opaque]
pub open spec fn has_one_picture_flag(idc: u8, compat: Seq<bool>) -> bool {
    spec_profile_match(idc, compat, seq![2usize])
}

/// The profiles that code `inbld_flag`.
#[verifier::opaque]
pub open spec fn has_inbld_flag(idc: u8, compat: Seq<bool>) -> bool {
    spec_profile_match(idc, compat, seq![1usize, 2, 3, 4, 5, 9, 11])
}

/// The flags `s[i..n]`.
pub open spec fn flags_from(s: Seq<bool>, i: int, n: int) -> Syntax
    decreases n - i,
{
    if i >= n {
        syntax()
    } else {
        syntax().flag(s[i]).part(flags_from(s, i + 1, n))
    }
}

/// The flags that constrain the range extensions profiles.
#[verifier::opaque]
pub open spec fn range_flags_syntax(p: ProfileFields) -> Syntax {
    syntax()
        .flag(p.max_12bit_constraint_flag)
        .flag(p.max_10bit_constraint_flag)
        .flag(p.max_8bit_constraint_flag)
        .flag(p.max_422chroma_constraint_flag)
        .flag(p.max_420chroma_constraint_flag)
        .flag(p.max_monochrome_constraint_flag)
        .flag(p.intra_constraint_flag)
        .flag(p.one_picture_only_constraint_flag)
        .flag(p.lower_bit_rate_constraint_flag)
}

/// The 43 bits of constraint flags.
#[verifier::opaque]
pub open spec fn constraint_syntax(p: ProfileFields) -> Syntax {
    let compat = p.profile_compatibility_flag@;
    if has_range_flags(p.profile_idc, compat) {
        range_flags_syntax(p).part(
            if has_14bit_flag(p.profile_idc, compat) {
                syntax().flag(p.max_14bit_constraint_flag).part(reserved_zero(33))
            } else {
                reserved_zero(34)
            },
        )
    } else if has_one_picture_flag(p.profile_idc, compat) {
        reserved_zero(7).flag(p.one_picture_only_constraint_flag).part(reserved_zero(35))
    } else {
        reserved_zero(43)
    }
}

/// `general_inbld_flag`, or the reserved bit in its place.
#[verifier::opaque]
pub open spec fn inbld_syntax(p: ProfileFields) -> Syntax {
    if has_inbld_flag(p.profile_idc, p.profile_compatibility_flag@) {
        syntax().flag(p.inbld_flag)
    } else {
        reserved_zero(1)
    }
}

/// The profile, its compatibility flags and the source flags.
#[verifier::opaque]
pub open spec fn profile_head_syntax(p: ProfileFields) -> Syntax {
    syntax()
        .u(2, p.profile_space as int)
        .flag(p.tier_flag)
        .u(5, p.profile_idc as int)
        .part(flags_from(p.profile_compatibility_flag@, 0, 32))
        .flag(p.progressive_source_flag)
        .flag(p.interlaced_source_flag)
        .flag(p.non_packed_constraint_flag)
        .flag(p.frame_only_constraint_flag)
}

/// The profile fields of one layer, 88 bits.
#[verifier::opaque]
pub open spec fn profile_syntax(p: ProfileFields) -> Syntax {
    profile_head_syntax(p).part(constraint_syntax(p)).part(inbld_syntax(p))
}

/// The present flags of the sub-layers from `i`.
pub open spec fn sub_layer_flags_from(ptl: ProfileTierLevel, i: int, n: int) -> Syntax
    decreases n - i,
{
    if i >= n {
        syntax()
    } else {
        syntax()
            .flag(ptl.sub_layer_profile_present_flag[i])
            .flag(ptl.sub_layer_level_present_flag[i])
            .part(sub_layer_flags_from(ptl, i + 1, n))
    }
}

/// `reserved_zero_2bits` for each sub-layer from `i` up to eight.
pub open spec fn reserved_pairs_from(i: int) -> Syntax
    decreases 8 - i,
{
    if i >= 8 {
        syntax()
    } else {
        reserved_zero(2).part(reserved_pairs_from(i + 1))
    }
}

/// Sub-layer `i`: the profile fields and the level, each where its flag is set.
#[verifier::opaque]
pub open spec fn sub_layer_syntax(ptl: ProfileTierLevel, i: int) -> Syntax {
    syntax()
        .when(ptl.sub_layer_profile_present_flag[i], profile_syntax(ptl.sub_layer(i)))
        .when(
            ptl.sub_layer_level_present_flag[i],
            syntax().u(8, ptl.sub_layer_level_idc[i].code() as int),
        )
}

/// The sub-layers from `i`.
pub open spec fn sub_layers_from(ptl: ProfileTierLevel, i: int, n: int) -> Syntax
    decreases n - i,
{
    if i >= n {
        syntax()
    } else {
        sub_layer_syntax(ptl, i).part(sub_layers_from(ptl, i + 1, n))
    }
}

/// `profile_tier_level( profilePresentFlag, maxNumSubLayersMinus1 )` (7.3.3). There are at most
/// seven sub-layers.
#[verifier::opaque]
pub open spec fn ptl_syntax(
    ptl: ProfileTierLevel,
    profile_present_flag: bool,
    max_sub_layers_minus1: int,
) -> Syntax {
    if max_sub_layers_minus1 > 6 {
        syntax().missing()
    } else {
        syntax()
            .when(profile_present_flag, profile_syntax(ptl.general()))
            .u(8, ptl.general_level_idc.code() as int)
            .part(sub_layer_flags_from(ptl, 0, max_sub_layers_minus1))
            .when(max_sub_layers_minus1 > 0, reserved_pairs_from(max_sub_layers_minus1))
            .part(sub_layers_from(ptl, 0, max_sub_layers_minus1))
    }
}

// ---------------------------------------------------------------------------
// scaling_list_data()
// ---------------------------------------------------------------------------
/// The representative of `v` modulo 256 in `-128..=127`.
pub open spec fn wrapped(v: int) -> int {
    if v % 256 >= 128 {
        v % 256 - 256
    } else {
        v % 256
    }
}

impl ScalingLists {
    /// The coefficients of one list.
    pub open spec fn list(self, size_id: int, matrix_id: int) -> Seq<u8> {
        if size_id == 0 {
            self.scaling_list_4x4[matrix_id]@
        } else if size_id == 1 {
            self.scaling_list_8x8[matrix_id]@
        } else if size_id == 2 {
            self.scaling_list_16x16[matrix_id]@
        } else {
            self.scaling_list_32x32[matrix_id]@
        }
    }

    /// The DC coefficient of one list, minus 8.
    pub open spec fn dc(self, size_id: int, matrix_id: int) -> i16 {
        if size_id == 2 {
            self.scaling_list_dc_coef_minus8_16x16[matrix_id]
        } else {
            self.scaling_list_dc_coef_minus8_32x32[matrix_id]
        }
    }
}

/// The coefficients from `i`, each as its difference from the one before.
pub open spec fn coefs_from(list: Seq<u8>, previous: int, i: int, n: int) -> Syntax
    decreases n - i,
{
    if i >= n {
        syntax()
    } else {
        syntax().se(wrapped(list[i] - previous)).part(coefs_from(list, list[i] as int, i + 1, n))
    }
}

/// The number of coefficients of a list.
pub open spec fn coef_num(size_id: int) -> int {
    if size_id == 0 {
        16
    } else {
        64
    }
}

/// One scaling list with explicit coefficients.
#[verifier::opaque]
pub open spec fn scaling_list_syntax(sl: ScalingLists, size_id: int, matrix_id: int) -> Syntax {
    let list = sl.list(size_id, matrix_id);
    if size_id > 1 {
        syntax()
            .flag(true)
            .se(sl.dc(size_id, matrix_id) as int)
            .part(coefs_from(list, sl.dc(size_id, matrix_id) + 8, 0, coef_num(size_id)))
    } else {
        syntax().flag(true).part(coefs_from(list, 8, 0, coef_num(size_id)))
    }
}

/// The scaling lists from `matrix_id` of size `size_id`. Of the largest size, only
/// every third list is coded.
pub open spec fn scaling_lists_from(sl: ScalingLists, size_id: int, matrix_id: int) -> Syntax
    decreases 4 - size_id, 9 - matrix_id,
{
    if size_id >= 4 {
        syntax()
    } else if matrix_id >= 6 {
        scaling_lists_from(sl, size_id + 1, 0)
    } else {
        scaling_list_syntax(sl, size_id, matrix_id).part(
            scaling_lists_from(sl, size_id, matrix_id + if size_id == 3 { 3int } else { 1int }),
        )
    }
}

/// `scaling_list_data()` (7.3.4), always with explicit coefficients.
#[verifier::opaque]
pub open spec fn scaling_list_data_syntax(sl: ScalingLists) -> Syntax {
    scaling_lists_from(sl, 0, 0)
}

// ---------------------------------------------------------------------------
// st_ref_pic_set()
// ---------------------------------------------------------------------------
impl ShortTermRefPicSet {
    /// `delta_poc_s0_minus1[i]`.
    pub open spec fn s0_minus1(self, i: int) -> int {
        if i == 0 {
            -self.delta_poc_s0[0] - 1
        } else {
            self.delta_poc_s0[i - 1] - self.delta_poc_s0[i] - 1
        }
    }

    /// `delta_poc_s1_minus1[i]`.
    pub open spec fn s1_minus1(self, i: int) -> int {
        if i == 0 {
            self.delta_poc_s1[0] - 1
        } else {
            self.delta_poc_s1[i] - self.delta_poc_s1[i - 1] - 1
        }
    }

    /// Whether the counts lie within the arrays and the pictures are ordered by their
    /// distance.
    pub open spec fn valid(self) -> bool {
        &&& self.num_negative_pics <= 16
        &&& self.num_positive_pics <= 16
        &&& ordered_s0(self, self.num_negative_pics as int)
        &&& ordered_s1(self, self.num_positive_pics as int)
    }

    /// Whether picture `i` before the current one is there, and its distance can be computed in
    /// 32 bits.
    pub open spec fn has_s0(self, i: int) -> bool {
        &&& i < 16
        &&& i32::MIN <= self.s0_minus1(i)
        &&& self.s0_minus1(i) + 1 <= i32::MAX
    }

    /// Whether picture `i` after the current one is there, and its distance can be computed in
    /// 32 bits.
    pub open spec fn has_s1(self, i: int) -> bool {
        &&& i < 16
        &&& i32::MIN <= self.s1_minus1(i)
        &&& self.s1_minus1(i) + 1 <= i32::MAX
    }
}

/// Whether the first `n` pictures before the current one are ordered by their distance,
/// which lies within 32 bits.
pub open spec fn ordered_s0(s: ShortTermRefPicSet, n: int) -> bool {
    forall|k: int| 0 <= k < n ==> 0 <= #[trigger] s.s0_minus1(k) < i32::MAX
}

/// Whether the first `n` pictures after the current one are ordered by their distance,
/// which lies within 32 bits.
pub open spec fn ordered_s1(s: ShortTermRefPicSet, n: int) -> bool {
    forall|k: int| 0 <= k < n ==> 0 <= #[trigger] s.s1_minus1(k) < i32::MAX
}

/// The pictures before the current one, from `i`.
pub open spec fn s0_from(st: ShortTermRefPicSet, i: int, n: int) -> Syntax
    decreases n - i,
{
    if i >= n {
        syntax()
    } else if !st.has_s0(i) {
        syntax().missing()
    } else {
        syntax().ue(as_unsigned(st.s0_minus1(i))).flag(st.used_by_curr_pic_s0[i]).part(
            s0_from(st, i + 1, n),
        )
    }
}

/// The pictures after the current one, from `i`.
pub open spec fn s1_from(st: ShortTermRefPicSet, i: int, n: int) -> Syntax
    decreases n - i,
{
    if i >= n {
        syntax()
    } else if !st.has_s1(i) {
        syntax().missing()
    } else {
        syntax().ue(as_unsigned(st.s1_minus1(i))).flag(st.used_by_curr_pic_s1[i]).part(
            s1_from(st, i + 1, n),
        )
    }
}

/// `st_ref_pic_set( stRpsIdx )` (7.3.7), in explicit form only.
#[verifier::opaque]
pub open spec fn st_ref_pic_set_syntax(st: ShortTermRefPicSet, st_rps_idx: int) -> Syntax {
    syntax()
        .when(st_rps_idx != 0, syntax().flag(st.inter_ref_pic_set_prediction_flag))
        .part(
            if st.inter_ref_pic_set_prediction_flag {
                syntax().unsupported()
            } else {
                syntax()
                    .ue(st.num_negative_pics as int)
                    .ue(st.num_positive_pics as int)
                    .part(s0_from(st, 0, st.num_negative_pics as int))
                    .part(s1_from(st, 0, st.num_positive_pics as int))
            },
        )
}

// ---------------------------------------------------------------------------
// hrd_parameters()
// ---------------------------------------------------------------------------
/// The coded picture buffers from `i`.
pub open spec fn cpbs_from(h: SublayerHrdParameters, sub_pic: bool, i: int, n: int) -> Syntax
    decreases n - i,
{
    if i >= n {
        syntax()
    } else if i >= 32 {
        syntax().missing()
    } else {
        syntax()
            .ue(h.bit_rate_value_minus1[i] as int)
            .ue(h.cpb_size_value_minus1[i] as int)
            .when(
                sub_pic,
                syntax()
                    .ue(h.cpb_size_du_value_minus1[i] as int)
                    .ue(h.bit_rate_du_value_minus1[i] as int),
            )
            .flag(h.cbr_flag[i])
            .part(cpbs_from(h, sub_pic, i + 1, n))
    }
}

/// `sub_layer_hrd_parameters( subLayerId )` (E.2.3). The number of buffers is one that can be
/// computed in 32 bits.
#[verifier::opaque]
pub open spec fn sublayer_hrd_syntax(
    h: SublayerHrdParameters,
    cpb_cnt: int,
    sub_pic: bool,
) -> Syntax {
    if cpb_cnt > u32::MAX {
        syntax().missing()
    } else {
        cpbs_from(h, sub_pic, 0, cpb_cnt)
    }
}

/// The lengths and scales that a sub-picture buffer brings.
#[verifier::opaque]
pub open spec fn hrd_sub_pic_syntax(h: HrdParams) -> Syntax {
    syntax()
        .u(8, h.tick_divisor_minus2 as int)
        .u(5, h.du_cpb_removal_delay_increment_length_minus1 as int)
        .flag(h.sub_pic_cpb_params_in_pic_timing_sei_flag)
        .u(5, h.dpb_output_delay_du_length_minus1 as int)
}

/// The common information of `hrd_parameters()`.
#[verifier::opaque]
pub open spec fn hrd_common_syntax(h: HrdParams) -> Syntax {
    syntax()
        .flag(h.nal_hrd_parameters_present_flag)
        .flag(h.vcl_hrd_parameters_present_flag)
        .when(
            h.nal_hrd_parameters_present_flag || h.vcl_hrd_parameters_present_flag,
            syntax()
                .flag(h.sub_pic_hrd_params_present_flag)
                .when(h.sub_pic_hrd_params_present_flag, hrd_sub_pic_syntax(h))
                .u(4, h.bit_rate_scale as int)
                .u(4, h.cpb_size_scale as int)
                .when(h.sub_pic_hrd_params_present_flag, syntax().u(4, h.cpb_size_du_scale as int))
                .u(5, h.initial_cpb_removal_delay_length_minus1 as int)
                .u(5, h.au_cpb_removal_delay_length_minus1 as int)
                .u(5, h.dpb_output_delay_length_minus1 as int),
        )
}

impl HrdParams {
    /// The picture rate of sub-layer `i` is fixed within the sequence: coded, or
    /// inferred where it is fixed in general (E.2.2).
    pub open spec fn within_cvs(self, i: int) -> bool {
        self.fixed_pic_rate_general_flag[i] || self.fixed_pic_rate_within_cvs_flag[i]
    }

    /// Whether what is not coded of sub-layer `i` has its inferred value.
    pub open spec fn inferred_row(self, i: int) -> bool {
        &&& self.within_cvs(i) ==> !self.low_delay_hrd_flag[i]
        &&& self.low_delay_hrd_flag[i] ==> self.cpb_cnt_minus1[i] == 0
        &&& self.cpb_cnt_minus1[i] < 32
    }

    /// Whether what is not coded of the sub-layers has its inferred value.
    pub open spec fn inferred(self, max_sub_layers_minus1: int) -> bool {
        forall|i: int| 0 <= i <= max_sub_layers_minus1 ==> #[trigger] self.inferred_row(i)
    }

    /// Whether the fields that the sub-layers depend on are those of `other`.
    pub open spec fn same_common(self, other: HrdParams) -> bool {
        &&& self.nal_hrd_parameters_present_flag == other.nal_hrd_parameters_present_flag
        &&& self.vcl_hrd_parameters_present_flag == other.vcl_hrd_parameters_present_flag
        &&& self.nal_hrd_parameters_present_flag || self.vcl_hrd_parameters_present_flag
            ==> self.sub_pic_hrd_params_present_flag == other.sub_pic_hrd_params_present_flag
    }
}

/// The picture rate of sub-layer `i`.
#[verifier::opaque]
pub open spec fn hrd_rate_syntax(h: HrdParams, i: int) -> Syntax {
    syntax()
        .flag(h.fixed_pic_rate_general_flag[i])
        .when(!h.fixed_pic_rate_general_flag[i], syntax().flag(h.fixed_pic_rate_within_cvs_flag[i]))
        .part(
            if h.within_cvs(i) {
                syntax().ue(h.elemental_duration_in_tc_minus1[i] as int)
            } else {
                syntax().flag(h.low_delay_hrd_flag[i])
            },
        )
        .when(!h.low_delay_hrd_flag[i], syntax().ue(h.cpb_cnt_minus1[i] as int))
}

/// The coded picture buffers of sub-layer `i`.
#[verifier::opaque]
pub open spec fn hrd_buffers_syntax(h: HrdParams, i: int) -> Syntax {
    syntax()
        .when(
            h.nal_hrd_parameters_present_flag,
            sublayer_hrd_syntax(
                h.nal_hrd[i],
                h.cpb_cnt_minus1[i] + 1,
                h.sub_pic_hrd_params_present_flag,
            ),
        )
        .when(
            h.vcl_hrd_parameters_present_flag,
            sublayer_hrd_syntax(
                h.vcl_hrd[i],
                h.cpb_cnt_minus1[i] + 1,
                h.sub_pic_hrd_params_present_flag,
            ),
        )
}

/// Sub-layer `i` of `hrd_parameters()`.
#[verifier::opaque]
pub open spec fn hrd_row_syntax(h: HrdParams, i: int) -> Syntax {
    hrd_rate_syntax(h, i).part(hrd_buffers_syntax(h, i))
}

/// The sub-layers of `hrd_parameters()` from `i`.
pub open spec fn hrd_rows_from(h: HrdParams, i: int, n: int) -> Syntax
    decreases n - i,
{
    if i >= n {
        syntax()
    } else {
        hrd_row_syntax(h, i).part(hrd_rows_from(h, i + 1, n))
    }
}

/// `hrd_parameters( commonInfPresentFlag, maxNumSubLayersMinus1 )` (E.2.2).
#[verifier::opaque]
pub open spec fn hrd_syntax(
    h: HrdParams,
    common_inf_present_flag: bool,
    max_sub_layers_minus1: int,
) -> Syntax {
    syntax()
        .when(common_inf_present_flag, hrd_common_syntax(h))
        .part(hrd_rows_from(h, 0, max_sub_layers_minus1 + 1))
}

// ---------------------------------------------------------------------------
// vui_parameters()
// ---------------------------------------------------------------------------
/// The sample aspect ratio and the overscan information.
#[verifier::opaque]
pub open spec fn vui_display_syntax(v: VuiParams) -> Syntax {
    syntax()
        .flag(v.aspect_ratio_info_present_flag)
        .when(
            v.aspect_ratio_info_present_flag,
            syntax()
                .u(8, v.aspect_ratio_idc as int)
                .when(
                    v.aspect_ratio_idc == EXTENDED_SAR,
                    syntax().u(16, v.sar_width as int).u(16, v.sar_height as int),
                ),
        )
        .flag(v.overscan_info_present_flag)
        .when(v.overscan_info_present_flag, syntax().flag(v.overscan_appropriate_flag))
}

/// The video signal type and the chroma sample location.
#[verifier::opaque]
pub open spec fn vui_signal_syntax(v: VuiParams) -> Syntax {
    syntax()
        .flag(v.video_signal_type_present_flag)
        .when(
            v.video_signal_type_present_flag,
            syntax()
                .u(3, v.video_format as int)
                .flag(v.video_full_range_flag)
                .flag(v.colour_description_present_flag)
                .when(
                    v.colour_description_present_flag,
                    syntax()
                        .u(8, v.colour_primaries as int)
                        .u(8, v.transfer_characteristics as int)
                        .u(8, v.matrix_coeffs as int),
                ),
        )
        .flag(v.chroma_loc_info_present_flag)
        .when(
            v.chroma_loc_info_present_flag,
            syntax()
                .ue(v.chroma_sample_loc_type_top_field as int)
                .ue(v.chroma_sample_loc_type_bottom_field as int),
        )
}

/// The field flags and the default display window.
#[verifier::opaque]
pub open spec fn vui_window_syntax(v: VuiParams) -> Syntax {
    syntax()
        .flag(v.neutral_chroma_indication_flag)
        .flag(v.field_seq_flag)
        .flag(v.frame_field_info_present_flag)
        .flag(v.default_display_window_flag)
        .when(
            v.default_display_window_flag,
            syntax()
                .ue(v.def_disp_win_left_offset as int)
                .ue(v.def_disp_win_right_offset as int)
                .ue(v.def_disp_win_top_offset as int)
                .ue(v.def_disp_win_bottom_offset as int),
        )
}

/// The timing information, with the hypothetical reference decoder parameters.
#[verifier::opaque]
pub open spec fn vui_timing_syntax(v: VuiParams, max_sub_layers_minus1: int) -> Syntax {
    syntax()
        .flag(v.timing_info_present_flag)
        .when(
            v.timing_info_present_flag,
            syntax()
                .u(32, v.num_units_in_tick as int)
                .u(32, v.time_scale as int)
                .flag(v.poc_proportional_to_timing_flag)
                .when(
                    v.poc_proportional_to_timing_flag,
                    syntax().ue(v.num_ticks_poc_diff_one_minus1 as int),
                )
                .flag(v.hrd_parameters_present_flag)
                .when(
                    v.hrd_parameters_present_flag,
                    hrd_syntax(v.hrd, true, max_sub_layers_minus1),
                ),
        )
}

/// The bitstream restrictions.
#[verifier::opaque]
pub open spec fn vui_restriction_syntax(v: VuiParams) -> Syntax {
    syntax()
        .flag(v.bitstream_restriction_flag)
        .when(
            v.bitstream_restriction_flag,
            syntax()
                .flag(v.tiles_fixed_structure_flag)
                .flag(v.motion_vectors_over_pic_boundaries_flag)
                .flag(v.restricted_ref_pic_lists_flag)
                .ue(v.min_spatial_segmentation_idc as int)
                .ue(v.max_bytes_per_pic_denom as int)
                .ue(v.max_bits_per_min_cu_denom as int)
                .ue(v.log2_max_mv_length_horizontal as int)
                .ue(v.log2_max_mv_length_vertical as int),
        )
}

/// `vui_parameters()` (E.2.1).
#[verifier::opaque]
pub open spec fn vui_syntax(v: VuiParams, max_sub_layers_minus1: int) -> Syntax {
    vui_display_syntax(v)
        .part(vui_signal_syntax(v))
        .part(vui_window_syntax(v))
        .part(vui_timing_syntax(v, max_sub_layers_minus1))
        .part(vui_restriction_syntax(v))
}

impl VuiParams {
    /// Whether what is not coded, and decides on what is, has its inferred value.
    pub open spec fn inferred(self, max_sub_layers_minus1: int) -> bool {
        self.timing_info_present_flag && self.hrd_parameters_present_flag ==> self.hrd.inferred(
            max_sub_layers_minus1,
        )
    }
}

// ---------------------------------------------------------------------------
// video_parameter_set_rbsp()
// ---------------------------------------------------------------------------
/// The sub-layer ordering information from `i`.
pub open spec fn vps_ordering_from(v: Vps, i: int, n: int) -> Syntax
    decreases n - i,
{
    if i >= n {
        syntax()
    } else {
        syntax()
            .ue(v.max_dec_pic_buffering_minus1[i] as int)
            .ue(v.max_num_reorder_pics[i] as int)
            .ue(v.max_latency_increase_plus1[i] as int)
            .part(vps_ordering_from(v, i + 1, n))
    }
}

/// `n` flags, all zero.
pub open spec fn zero_flags(n: int) -> Syntax
    decreases n,
{
    if n <= 0 {
        syntax()
    } else {
        syntax().flag(false).part(zero_flags(n - 1))
    }
}

/// `layer_id_included_flag` of `n` layer sets of `m` layers each.
pub open spec fn layer_sets_from(n: int, m: int) -> Syntax
    decreases n,
{
    if n <= 0 {
        syntax()
    } else {
        zero_flags(m).part(layer_sets_from(n - 1, m))
    }
}

/// Whether the common information of entry `i` is present: always of the first.
pub open spec fn vps_cprms_present(v: Vps, i: int) -> bool {
    i == 0 || v.cprms_present_flag[i]
}

/// Whether entry `i` of the hypothetical reference decoder parameters is there.
pub open spec fn vps_has_hrd(v: Vps, i: int) -> bool {
    &&& i < v.hrd_layer_set_idx.len()
    &&& i > 0 ==> i < v.cprms_present_flag.len()
    &&& i < v.hrd_parameters.len()
}

/// The hypothetical reference decoder parameters from `i`.
pub open spec fn vps_hrds_from(v: Vps, i: int, n: int) -> Syntax
    decreases n - i,
{
    if i >= n {
        syntax()
    } else if !vps_has_hrd(v, i) {
        syntax().missing()
    } else {
        syntax()
            .ue(v.hrd_layer_set_idx[i] as int)
            .when(i > 0, syntax().flag(v.cprms_present_flag[i]))
            .part(
                hrd_syntax(
                    v.hrd_parameters[i],
                    vps_cprms_present(v, i),
                    v.max_sub_layers_minus1 as int,
                ),
            )
            .part(vps_hrds_from(v, i + 1, n))
    }
}

/// What stands in front of the profile.
#[verifier::opaque]
pub open spec fn vps_head_syntax(v: Vps) -> Syntax {
    syntax()
        .u(4, v.video_parameter_set_id as int)
        .flag(v.base_layer_internal_flag)
        .flag(v.base_layer_available_flag)
        .u(6, v.max_layers_minus1 as int)
        .u(3, v.max_sub_layers_minus1 as int)
        .flag(v.temporal_id_nesting_flag)
        .u(16, 0xffff)
}

/// The sub-layer ordering information and the layer sets.
#[verifier::opaque]
pub open spec fn vps_layers_syntax(v: Vps) -> Syntax {
    syntax()
        .flag(v.sub_layer_ordering_info_present_flag)
        .part(
            vps_ordering_from(
                v,
                if v.sub_layer_ordering_info_present_flag {
                    0
                } else {
                    v.max_sub_layers_minus1 as int
                },
                v.max_sub_layers_minus1 + 1,
            ),
        )
        .u(6, v.max_layer_id as int)
        .ue(v.num_layer_sets_minus1 as int)
        .part(layer_sets_from(v.num_layer_sets_minus1 as int, v.max_layer_id + 1))
}

/// The timing information.
#[verifier::opaque]
pub open spec fn vps_timing_syntax(v: Vps) -> Syntax {
    syntax()
        .flag(v.timing_info_present_flag)
        .when(
            v.timing_info_present_flag,
            syntax()
                .u(32, v.num_units_in_tick as int)
                .u(32, v.time_scale as int)
                .flag(v.poc_proportional_to_timing_flag)
                .when(
                    v.poc_proportional_to_timing_flag,
                    syntax().ue(v.num_ticks_poc_diff_one_minus1 as int),
                )
                .ue(v.num_hrd_parameters as int)
                .part(vps_hrds_from(v, 0, v.num_hrd_parameters as int)),
        )
}

/// `video_parameter_set_rbsp()` (7.3.2.1), without the trailing bits.
#[verifier::opaque]
pub open spec fn vps_syntax(v: Vps) -> Syntax {
    vps_head_syntax(v)
        .part(ptl_syntax(v.profile_tier_level, true, v.max_sub_layers_minus1 as int))
        .part(vps_layers_syntax(v))
        .part(vps_timing_syntax(v))
        .flag(v.extension_flag)
}

impl Vps {
    /// Whether the set can be written: up to the first element that has no code, all that is
    /// coded lies within the arrays.
    pub open spec fn writable(self) -> bool {
        vps_syntax(self).complete()
    }

    /// Whether what is not coded, and decides on what is, has its inferred value.
    pub open spec fn inferred(self) -> bool {
        self.timing_info_present_flag ==> {
            &&& forall|i: int|
                0 <= i < self.num_hrd_parameters ==> (#[trigger] self.hrd_parameters[i]).inferred(
                    self.max_sub_layers_minus1 as int,
                )
            &&& forall|i: int|
                0 < i < self.num_hrd_parameters && !self.cprms_present_flag[i] ==> (
                #[trigger] self.hrd_parameters[i]).same_common(self.hrd_parameters[i - 1])
        }
    }
}

// ---------------------------------------------------------------------------
// seq_parameter_set_rbsp()
// ---------------------------------------------------------------------------
/// `sps_range_extension()` (7.3.2.2.2).
#[verifier::opaque]
pub open spec fn sps_range_extension_syntax(e: SpsRangeExtension) -> Syntax {
    syntax()
        .flag(e.transform_skip_rotation_enabled_flag)
        .flag(e.transform_skip_context_enabled_flag)
        .flag(e.implicit_rdpcm_enabled_flag)
        .flag(e.explicit_rdpcm_enabled_flag)
        .flag(e.extended_precision_processing_flag)
        .flag(e.intra_smoothing_disabled_flag)
        .flag(e.high_precision_offsets_enabled_flag)
        .flag(e.persistent_rice_adaptation_enabled_flag)
        .flag(e.cabac_bypass_alignment_enabled_flag)
}

/// The sub-layer ordering information from `i`.
pub open spec fn sps_ordering_from(s: Sps, i: int, n: int) -> Syntax
    decreases n - i,
{
    if i >= n {
        syntax()
    } else {
        syntax()
            .ue(s.max_dec_pic_buffering_minus1[i] as int)
            .ue(s.max_num_reorder_pics[i] as int)
            .ue(s.max_latency_increase_plus1[i] as int)
            .part(sps_ordering_from(s, i + 1, n))
    }
}

/// The short-term reference picture sets from `i`.
pub open spec fn sps_st_rps_from(s: Sps, i: int, n: int) -> Syntax
    decreases n - i,
{
    if i >= n {
        syntax()
    } else if i >= s.short_term_ref_pic_set.len() {
        syntax().missing()
    } else {
        st_ref_pic_set_syntax(s.short_term_ref_pic_set[i], i).part(sps_st_rps_from(s, i + 1, n))
    }
}

/// The long-term reference pictures from `i`.
pub open spec fn sps_lt_from(s: Sps, i: int, n: int) -> Syntax
    decreases n - i,
{
    if i >= n {
        syntax()
    } else {
        syntax()
            .u(s.log2_max_pic_order_cnt_lsb_minus4 + 4, s.lt_ref_pic_poc_lsb_sps[i] as int)
            .flag(s.used_by_curr_pic_lt_sps_flag[i])
            .part(sps_lt_from(s, i + 1, n))
    }
}

/// What stands in front of the profile.
#[verifier::opaque]
pub open spec fn sps_head_syntax(s: Sps) -> Syntax {
    syntax()
        .u(4, s.video_parameter_set_id as int)
        .u(3, s.max_sub_layers_minus1 as int)
        .flag(s.temporal_id_nesting_flag)
}

/// The picture format.
#[verifier::opaque]
pub open spec fn sps_format_syntax(s: Sps) -> Syntax {
    syntax()
        .ue(s.seq_parameter_set_id as int)
        .ue(s.chroma_format_idc as int)
        .when(s.chroma_format_idc == 3, syntax().flag(s.separate_colour_plane_flag))
        .ue(s.pic_width_in_luma_samples as int)
        .ue(s.pic_height_in_luma_samples as int)
        .flag(s.conformance_window_flag)
        .when(
            s.conformance_window_flag,
            syntax()
                .ue(s.conf_win_left_offset as int)
                .ue(s.conf_win_right_offset as int)
                .ue(s.conf_win_top_offset as int)
                .ue(s.conf_win_bottom_offset as int),
        )
        .ue(s.bit_depth_luma_minus8 as int)
        .ue(s.bit_depth_chroma_minus8 as int)
        .ue(s.log2_max_pic_order_cnt_lsb_minus4 as int)
}

/// The sub-layer ordering information.
#[verifier::opaque]
pub open spec fn sps_ordering_syntax(s: Sps) -> Syntax {
    syntax()
        .flag(s.sub_layer_ordering_info_present_flag)
        .part(
            sps_ordering_from(
                s,
                if s.sub_layer_ordering_info_present_flag {
                    0
                } else {
                    s.max_sub_layers_minus1 as int
                },
                s.max_sub_layers_minus1 + 1,
            ),
        )
}

/// The block sizes.
#[verifier::opaque]
pub open spec fn sps_blocks_syntax(s: Sps) -> Syntax {
    syntax()
        .ue(s.log2_min_luma_coding_block_size_minus3 as int)
        .ue(s.log2_diff_max_min_luma_coding_block_size as int)
        .ue(s.log2_min_luma_transform_block_size_minus2 as int)
        .ue(s.log2_diff_max_min_luma_transform_block_size as int)
        .ue(s.max_transform_hierarchy_depth_inter as int)
        .ue(s.max_transform_hierarchy_depth_intra as int)
}

/// The scaling lists.
#[verifier::opaque]
pub open spec fn sps_scaling_syntax(s: Sps) -> Syntax {
    syntax()
        .flag(s.scaling_list_enabled_flag)
        .when(
            s.scaling_list_enabled_flag,
            syntax()
                .flag(s.scaling_list_data_present_flag)
                .when(s.scaling_list_data_present_flag, scaling_list_data_syntax(s.scaling_list)),
        )
}

/// The coding tools and PCM.
#[verifier::opaque]
pub open spec fn sps_tools_syntax(s: Sps) -> Syntax {
    syntax()
        .flag(s.amp_enabled_flag)
        .flag(s.sample_adaptive_offset_enabled_flag)
        .flag(s.pcm_enabled_flag)
        .when(
            s.pcm_enabled_flag,
            syntax()
                .u(4, s.pcm_sample_bit_depth_luma_minus1 as int)
                .u(4, s.pcm_sample_bit_depth_chroma_minus1 as int)
                .ue(s.log2_min_pcm_luma_coding_block_size_minus3 as int)
                .ue(s.log2_diff_max_min_pcm_luma_coding_block_size as int)
                .flag(s.pcm_loop_filter_disabled_flag),
        )
}

/// The short-term reference picture sets.
#[verifier::opaque]
pub open spec fn sps_short_term_syntax(s: Sps) -> Syntax {
    syntax().ue(s.num_short_term_ref_pic_sets as int).part(
        sps_st_rps_from(s, 0, s.num_short_term_ref_pic_sets as int),
    )
}

/// The long-term reference pictures. Where the picture order counts have a code, there are at
/// most 32.
#[verifier::opaque]
pub open spec fn sps_long_term_syntax(s: Sps) -> Syntax {
    syntax()
        .flag(s.long_term_ref_pics_present_flag)
        .when(
            s.long_term_ref_pics_present_flag,
            syntax().ue(s.num_long_term_ref_pics_sps as int).part(
                if s.log2_max_pic_order_cnt_lsb_minus4 + 4 <= 32
                    && s.num_long_term_ref_pics_sps > 32 {
                    syntax().missing()
                } else {
                    sps_lt_from(s, 0, s.num_long_term_ref_pics_sps as int)
                },
            ),
        )
}

/// The extensions. Only the range extension is coded.
#[verifier::opaque]
pub open spec fn sps_extension_syntax(s: Sps) -> Syntax {
    syntax()
        .flag(s.extension_present_flag)
        .when(
            s.extension_present_flag,
            syntax()
                .flag(s.range_extension_flag)
                .when(s.range_extension_flag, sps_range_extension_syntax(s.range_extension))
                .flag(false)
                .flag(false)
                .flag(s.scc_extension_flag)
                .part(
                    if s.scc_extension_flag {
                        syntax().unsupported()
                    } else {
                        syntax().u(4, 0)
                    },
                ),
        )
}

/// The last flags and the video usability information.
#[verifier::opaque]
pub open spec fn sps_vui_syntax(s: Sps) -> Syntax {
    syntax()
        .flag(s.temporal_mvp_enabled_flag)
        .flag(s.strong_intra_smoothing_enabled_flag)
        .flag(s.vui_parameters_present_flag)
        .when(
            s.vui_parameters_present_flag,
            vui_syntax(s.vui_parameters, s.max_sub_layers_minus1 as int),
        )
}

/// What follows the short-term reference picture sets.
#[verifier::opaque]
pub open spec fn sps_tail_syntax(s: Sps) -> Syntax {
    sps_long_term_syntax(s).part(sps_vui_syntax(s)).part(sps_extension_syntax(s))
}

/// `seq_parameter_set_rbsp()` (7.3.2.2), without the trailing bits.
#[verifier::opaque]
pub open spec fn sps_syntax(s: Sps) -> Syntax {
    sps_head_syntax(s)
        .part(ptl_syntax(s.profile_tier_level, true, s.max_sub_layers_minus1 as int))
        .part(sps_format_syntax(s))
        .part(sps_ordering_syntax(s))
        .part(sps_blocks_syntax(s))
        .part(sps_scaling_syntax(s))
        .part(sps_tools_syntax(s))
        .part(sps_short_term_syntax(s))
        .part(sps_tail_syntax(s))
}

impl Sps {
    /// Whether the set can be written: up to the first element that has no code, all that is
    /// coded lies within the arrays.
    pub open spec fn writable(self) -> bool {
        sps_syntax(self).complete()
    }

    /// Whether a slice header can refer to the reference picture sets and the
    /// long-term reference pictures of this parameter set.
    pub open spec fn usable(self) -> bool {
        &&& self.num_short_term_ref_pic_sets <= self.short_term_ref_pic_set.len()
        &&& self.num_long_term_ref_pics_sps <= 32
        &&& forall|i: int|
            0 <= i < self.num_short_term_ref_pic_sets
                ==> (#[trigger] self.short_term_ref_pic_set[i]).valid()
    }

    /// `CtbLog2SizeY` (7-11).
    pub open spec fn ctb_log2(self) -> int {
        self.log2_min_luma_coding_block_size_minus3 + 3 + self.log2_diff_max_min_luma_coding_block_size
    }

    /// Whether the variables that are derived from what is coded have their values
    /// (7.4.3.2.1).
    pub open spec fn derived(self) -> bool {
        let ctb = pow2(self.ctb_log2() as nat) as int;
        &&& self.chroma_array_type == if self.separate_colour_plane_flag {
            0
        } else {
            self.chroma_format_idc
        }
        &&& self.min_cb_log2_size_y == self.log2_min_luma_coding_block_size_minus3 + 3
        &&& self.ctb_log2_size_y == self.ctb_log2()
        &&& self.ctb_size_y == ctb
        &&& self.pic_width_in_ctbs_y == (self.pic_width_in_luma_samples + ctb - 1) / ctb
        &&& self.pic_height_in_ctbs_y == (self.pic_height_in_luma_samples + ctb - 1) / ctb
        &&& self.pic_size_in_ctbs_y == self.pic_width_in_ctbs_y * self.pic_height_in_ctbs_y
        &&& self.pic_size_in_samples_y == self.pic_width_in_luma_samples * self.pic_height_in_luma_samples
        &&& self.max_tb_log2_size_y == self.log2_min_luma_transform_block_size_minus2 + 2
            + self.log2_diff_max_min_luma_transform_block_size
    }

    /// Whether the reference pictures are ordered, and what is not coded, and decides
    /// on what is, has its inferred value.
    pub open spec fn inferred(self) -> bool {
        &&& forall|i: int|
            0 <= i < self.num_short_term_ref_pic_sets
                ==> (#[trigger] self.short_term_ref_pic_set[i]).valid()
        &&& self.vui_parameters_present_flag ==> self.vui_parameters.inferred(
            self.max_sub_layers_minus1 as int,
        )
    }
}

// ---------------------------------------------------------------------------
// pic_parameter_set_rbsp()
// ---------------------------------------------------------------------------
/// The chroma QP offsets from `i`.
pub open spec fn qp_offsets_from(e: PpsRangeExtension, i: int, n: int) -> Syntax
    decreases n - i,
{
    if i >= n {
        syntax()
    } else {
        syntax().se(e.cb_qp_offset_list[i] as int).se(e.cr_qp_offset_list[i] as int).part(
            qp_offsets_from(e, i + 1, n),
        )
    }
}

/// The list of chroma QP offsets.
#[verifier::opaque]
pub open spec fn qp_offset_list_syntax(e: PpsRangeExtension) -> Syntax {
    if e.has_offsets() {
        qp_offsets_from(e, 0, e.chroma_qp_offset_list_len_minus1 + 1)
    } else {
        syntax().missing()
    }
}

/// `pps_range_extension()` (7.3.2.3.2).
#[verifier::opaque]
pub open spec fn pps_range_extension_syntax(
    e: PpsRangeExtension,
    transform_skip_enabled_flag: bool,
) -> Syntax {
    syntax()
        .when(
            transform_skip_enabled_flag,
            syntax().ue(e.log2_max_transform_skip_block_size_minus2 as int),
        )
        .flag(e.cross_component_prediction_enabled_flag)
        .flag(e.chroma_qp_offset_list_enabled_flag)
        .when(
            e.chroma_qp_offset_list_enabled_flag,
            syntax()
                .ue(e.diff_cu_chroma_qp_offset_depth as int)
                .ue(e.chroma_qp_offset_list_len_minus1 as int)
                .part(qp_offset_list_syntax(e)),
        )
        .ue(e.log2_sao_offset_scale_luma as int)
        .ue(e.log2_sao_offset_scale_chroma as int)
}

/// The values `s[i..n]`, each as an Exp-Golomb code.
pub open spec fn ues_from(s: Seq<u32>, i: int, n: int) -> Syntax
    decreases n - i,
{
    if i >= n {
        syntax()
    } else if i >= s.len() {
        syntax().missing()
    } else {
        syntax().ue(s[i] as int).part(ues_from(s, i + 1, n))
    }
}

/// The identifiers and the defaults of the slices.
#[verifier::opaque]
pub open spec fn pps_head_syntax(p: Pps) -> Syntax {
    syntax()
        .ue(p.pic_parameter_set_id as int)
        .ue(p.seq_parameter_set_id as int)
        .flag(p.dependent_slice_segments_enabled_flag)
        .flag(p.output_flag_present_flag)
        .u(3, p.num_extra_slice_header_bits as int)
        .flag(p.sign_data_hiding_enabled_flag)
        .flag(p.cabac_init_present_flag)
        .ue(p.num_ref_idx_l0_default_active_minus1 as int)
        .ue(p.num_ref_idx_l1_default_active_minus1 as int)
        .se(p.init_qp_minus26 as int)
}

/// The coding tools.
#[verifier::opaque]
pub open spec fn pps_tools_syntax(p: Pps) -> Syntax {
    syntax()
        .flag(p.constrained_intra_pred_flag)
        .flag(p.transform_skip_enabled_flag)
        .flag(p.cu_qp_delta_enabled_flag)
        .when(p.cu_qp_delta_enabled_flag, syntax().ue(p.diff_cu_qp_delta_depth as int))
        .se(p.cb_qp_offset as int)
        .se(p.cr_qp_offset as int)
        .flag(p.slice_chroma_qp_offsets_present_flag)
        .flag(p.weighted_pred_flag)
        .flag(p.weighted_bipred_flag)
        .flag(p.transquant_bypass_enabled_flag)
        .flag(p.tiles_enabled_flag)
        .flag(p.entropy_coding_sync_enabled_flag)
}

/// The tiles, where there are any.
#[verifier::opaque]
pub open spec fn pps_tiles_syntax(p: Pps) -> Syntax {
    if p.tiles_enabled_flag {
        syntax()
            .ue(p.num_tile_columns_minus1 as int)
            .ue(p.num_tile_rows_minus1 as int)
            .flag(p.uniform_spacing_flag)
            .when(
                !p.uniform_spacing_flag,
                ues_from(p.column_width_minus1@, 0, p.num_tile_columns_minus1 as int).part(
                    ues_from(p.row_height_minus1@, 0, p.num_tile_rows_minus1 as int),
                ),
            )
            .flag(p.loop_filter_across_tiles_enabled_flag)
    } else {
        syntax()
    }
}

/// The loop filters.
#[verifier::opaque]
pub open spec fn pps_filters_syntax(p: Pps) -> Syntax {
    syntax()
        .flag(p.loop_filter_across_slices_enabled_flag)
        .flag(p.deblocking_filter_control_present_flag)
        .when(
            p.deblocking_filter_control_present_flag,
            syntax()
                .flag(p.deblocking_filter_override_enabled_flag)
                .flag(p.deblocking_filter_disabled_flag)
                .when(
                    !p.deblocking_filter_disabled_flag,
                    syntax().se(p.beta_offset_div2 as int).se(p.tc_offset_div2 as int),
                ),
        )
}

/// The scaling lists, and what follows them up to the extensions.
#[verifier::opaque]
pub open spec fn pps_lists_syntax(p: Pps) -> Syntax {
    syntax()
        .flag(p.scaling_list_data_present_flag)
        .when(p.scaling_list_data_present_flag, scaling_list_data_syntax(p.scaling_list))
        .flag(p.lists_modification_present_flag)
        .ue(p.log2_parallel_merge_level_minus2 as int)
        .flag(p.slice_segment_header_extension_present_flag)
}

/// The extensions. Only the range extension is coded.
#[verifier::opaque]
pub open spec fn pps_extension_syntax(p: Pps) -> Syntax {
    syntax()
        .flag(p.extension_present_flag)
        .when(
            p.extension_present_flag,
            syntax()
                .flag(p.range_extension_flag)
                .when(
                    p.range_extension_flag,
                    pps_range_extension_syntax(p.range_extension, p.transform_skip_enabled_flag),
                )
                .flag(false)
                .flag(false)
                .flag(p.scc_extension_flag)
                .part(
                    if p.scc_extension_flag {
                        syntax().unsupported()
                    } else {
                        syntax().u(4, 0)
                    },
                ),
        )
}

/// `pic_parameter_set_rbsp()` (7.3.2.3.1), without the trailing bits.
#[verifier::opaque]
pub open spec fn pps_syntax(p: Pps) -> Syntax {
    pps_head_syntax(p)
        .part(pps_tools_syntax(p))
        .part(pps_tiles_syntax(p))
        .part(pps_filters_syntax(p))
        .part(pps_lists_syntax(p))
        .part(pps_extension_syntax(p))
}

impl PpsRangeExtension {
    /// Whether the chroma QP offsets are there and have a code.
    pub open spec fn has_offsets(self) -> bool {
        &&& self.chroma_qp_offset_list_len_minus1 < 6
        &&& forall|i: int|
            0 <= i <= self.chroma_qp_offset_list_len_minus1
                ==> #[trigger] self.cb_qp_offset_list[i] > i32::MIN
        &&& forall|i: int|
            0 <= i <= self.chroma_qp_offset_list_len_minus1
                ==> #[trigger] self.cr_qp_offset_list[i] > i32::MIN
    }
}

impl Pps {
    /// Whether the set can be written: up to the first element that has no code, all that is
    /// coded lies within the arrays.
    pub open spec fn writable(self) -> bool {
        pps_syntax(self).complete()
    }
}

// ---------------------------------------------------------------------------
// slice_segment_header()
// ---------------------------------------------------------------------------
/// The values `s[i..n]` of `bits` bits each.
pub open spec fn us_from(bits: int, s: Seq<u32>, i: int, n: int) -> Syntax
    decreases n - i,
{
    if i >= n {
        syntax()
    } else {
        syntax().u(bits, s[i] as int).part(us_from(bits, s, i + 1, n))
    }
}

/// The first `n` entries of a reference list.
pub open spec fn entries_syntax(bits: int, s: Seq<u32>, n: int) -> Syntax {
    if n > s.len() {
        syntax().missing()
    } else {
        us_from(bits, s, 0, n)
    }
}

/// `ref_pic_lists_modification()` (7.3.6.2).
#[verifier::opaque]
pub open spec fn rplm_syntax(
    m: RefPicListModification,
    slice_type: SliceType,
    l0_minus1: int,
    l1_minus1: int,
    num_pic_total_curr: int,
) -> Syntax {
    let bits = spec_ceil_log2(num_pic_total_curr);
    syntax()
        .flag(m.ref_pic_list_modification_flag_l0)
        .when(
            m.ref_pic_list_modification_flag_l0,
            entries_syntax(bits, m.list_entry_l0@, l0_minus1 + 1),
        )
        .when(
            slice_type == SliceType::B,
            syntax()
                .flag(m.ref_pic_list_modification_flag_l1)
                .when(
                    m.ref_pic_list_modification_flag_l1,
                    entries_syntax(bits, m.list_entry_l1@, l1_minus1 + 1),
                ),
        )
}

/// The weights of one reference list.
pub struct Weights {
    pub luma_flag: Seq<bool>,
    pub chroma_flag: Seq<bool>,
    pub luma_weight: Seq<i8>,
    pub luma_offset: Seq<i8>,
    pub chroma_weight: Seq<[i8; 2]>,
    pub chroma_offset: Seq<[i16; 2]>,
}

impl PredWeightTable {
    /// The weights of list 0.
    pub open spec fn l0(self) -> Weights {
        Weights {
            luma_flag: self.luma_weight_l0_flag@,
            chroma_flag: self.chroma_weight_l0_flag@,
            luma_weight: self.delta_luma_weight_l0@,
            luma_offset: self.luma_offset_l0@,
            chroma_weight: self.delta_chroma_weight_l0@,
            chroma_offset: self.delta_chroma_offset_l0@,
        }
    }

    /// The weights of list 1.
    pub open spec fn l1(self) -> Weights {
        Weights {
            luma_flag: self.luma_weight_l1_flag@,
            chroma_flag: self.chroma_weight_l1_flag@,
            luma_weight: self.delta_luma_weight_l1@,
            luma_offset: self.luma_offset_l1@,
            chroma_weight: self.delta_chroma_weight_l1@,
            chroma_offset: self.delta_chroma_offset_l1@,
        }
    }
}

/// Whether the first `n` pictures have no chroma weights.
pub open spec fn no_chroma_weights(w: Weights, n: int) -> bool {
    forall|i: int| 0 <= i < n ==> !#[trigger] w.chroma_flag[i]
}

/// The weights of the pictures from `i`.
pub open spec fn weights_from(w: Weights, i: int, n: int) -> Syntax
    decreases n - i,
{
    if i >= n {
        syntax()
    } else {
        syntax()
            .when(
                w.luma_flag[i],
                syntax().se(w.luma_weight[i] as int).se(w.luma_offset[i] as int),
            )
            .when(
                w.chroma_flag[i],
                syntax()
                    .se(w.chroma_weight[i][0] as int)
                    .se(w.chroma_offset[i][0] as int)
                    .se(w.chroma_weight[i][1] as int)
                    .se(w.chroma_offset[i][1] as int),
            )
            .part(weights_from(w, i + 1, n))
    }
}

/// The flags and the weights of one reference list of `n` pictures.
#[verifier::opaque]
pub open spec fn weight_list_syntax(w: Weights, chroma_array_type: int, n: int) -> Syntax {
    if n > w.luma_flag.len() {
        syntax().missing()
    } else {
        flags_from(w.luma_flag, 0, n)
            .when(chroma_array_type != 0, flags_from(w.chroma_flag, 0, n))
            .part(weights_from(w, 0, n))
    }
}

/// `pred_weight_table()` (7.3.6.3).
#[verifier::opaque]
pub open spec fn pwt_syntax(
    t: PredWeightTable,
    slice_type: SliceType,
    chroma_array_type: int,
    l0_minus1: int,
    l1_minus1: int,
) -> Syntax {
    syntax()
        .ue(t.luma_log2_weight_denom as int)
        .when(chroma_array_type != 0, syntax().se(t.delta_chroma_log2_weight_denom as int))
        .part(weight_list_syntax(t.l0(), chroma_array_type, l0_minus1 + 1))
        .when(
            slice_type == SliceType::B,
            weight_list_syntax(t.l1(), chroma_array_type, l1_minus1 + 1),
        )
}

/// The number of flags set in `s[0..n]`.
pub open spec fn count_true(s: Seq<bool>, n: int) -> int
    decreases n,
{
    if n <= 0 {
        0
    } else {
        count_true(s, n - 1) + if s[n - 1] { 1int } else { 0int }
    }
}

impl SliceHeader {
    /// The number of long-term reference pictures.
    pub open spec fn num_long_term(self) -> int {
        self.num_long_term_sps + self.num_long_term_pics
    }

    /// The short-term reference picture set in use.
    pub open spec fn rps(self, sps: Sps) -> ShortTermRefPicSet {
        if self.short_term_ref_pic_set_sps_flag {
            sps.short_term_ref_pic_set[self.curr_rps_idx as int]
        } else {
            self.short_term_ref_pic_set
        }
    }

    /// `NumPicTotalCurr` (7-55).
    pub open spec fn pic_total_curr(self, sps: Sps, pps: Pps) -> int {
        let rps = self.rps(sps);
        count_true(rps.used_by_curr_pic_s0@, rps.num_negative_pics as int)
            + count_true(rps.used_by_curr_pic_s1@, rps.num_positive_pics as int)
            + count_true(self.used_by_curr_pic_lt@, self.num_long_term())
            + if pps.scc_extension.curr_pic_ref_enabled_flag { 1int } else { 0int }
    }

    /// `num_ref_idx_l0_active_minus1`, of the header or the default.
    pub open spec fn l0_minus1(self, pps: Pps) -> int {
        if self.num_ref_idx_active_override_flag {
            self.num_ref_idx_l0_active_minus1 as int
        } else {
            pps.num_ref_idx_l0_default_active_minus1 as int
        }
    }

    /// `num_ref_idx_l1_active_minus1`, of the header or the default.
    pub open spec fn l1_minus1(self, pps: Pps) -> int {
        if self.num_ref_idx_active_override_flag {
            self.num_ref_idx_l1_active_minus1 as int
        } else {
            pps.num_ref_idx_l1_default_active_minus1 as int
        }
    }

    /// The number of pictures of list 1, less one: `0` where there is no such list.
    pub open spec fn l1_list(self, pps: Pps) -> int {
        if self.type_ == SliceType::B {
            self.l1_minus1(pps)
        } else {
            0
        }
    }

    /// The coded `delta_poc_msb_cycle_lt[i]`: the accumulated value (7-52), less the
    /// one before it unless the accumulation starts afresh.
    pub open spec fn coded_msb_cycle(self, i: int) -> int {
        if i != 0 && i != self.num_long_term_sps {
            self.delta_poc_msb_cycle_lt[i] - self.delta_poc_msb_cycle_lt[i - 1]
        } else {
            self.delta_poc_msb_cycle_lt[i] as int
        }
    }

    /// Whether the slice is predicted from other pictures.
    pub open spec fn is_inter(self) -> bool {
        self.type_ == SliceType::P || self.type_ == SliceType::B
    }

    /// Whether a prediction weight table is coded.
    pub open spec fn is_weighted(self, pps: Pps) -> bool {
        (pps.weighted_pred_flag && self.type_ == SliceType::P)
            || (pps.weighted_bipred_flag && self.type_ == SliceType::B)
    }
}

/// Long-term reference picture `i`.
#[verifier::opaque]
pub open spec fn lt_row_syntax(h: SliceHeader, sps: Sps, i: int) -> Syntax {
    syntax()
        .part(
            if i < h.num_long_term_sps {
                syntax().when(
                    sps.num_long_term_ref_pics_sps > 1,
                    syntax().u(
                        spec_ceil_log2(sps.num_long_term_ref_pics_sps as int),
                        h.lt_idx_sps[i] as int,
                    ),
                )
            } else {
                syntax()
                    .u(sps.log2_max_pic_order_cnt_lsb_minus4 + 4, h.poc_lsb_lt[i] as int)
                    .flag(h.used_by_curr_pic_lt[i])
            },
        )
        .flag(h.delta_poc_msb_present_flag[i])
        .when(
            h.delta_poc_msb_present_flag[i],
            (if h.coded_msb_cycle(i) < 0 {
                syntax().missing()
            } else {
                syntax().ue(h.coded_msb_cycle(i))
            }),
        )
}

/// The long-term reference pictures from `i`.
pub open spec fn lt_rows_from(h: SliceHeader, sps: Sps, i: int, n: int) -> Syntax
    decreases n - i,
{
    if i >= n {
        syntax()
    } else if i >= 16 {
        syntax().missing()
    } else {
        lt_row_syntax(h, sps, i).part(lt_rows_from(h, sps, i + 1, n))
    }
}

/// The long-term reference pictures, where there are any.
#[verifier::opaque]
pub open spec fn slice_lt_syntax(h: SliceHeader, sps: Sps) -> Syntax {
    if sps.long_term_ref_pics_present_flag {
        syntax()
            .when(sps.num_long_term_ref_pics_sps > 0, syntax().ue(h.num_long_term_sps as int))
            .ue(h.num_long_term_pics as int)
            .part(
                if h.num_long_term() > u8::MAX {
                    syntax().missing()
                } else {
                    lt_rows_from(h, sps, 0, h.num_long_term())
                },
            )
    } else {
        syntax()
    }
}

/// The low bits of the picture order count, the number of which is computed in eight bits.
#[verifier::opaque]
pub open spec fn poc_lsb_syntax(h: SliceHeader, sps: Sps) -> Syntax {
    let bits = sps.log2_max_pic_order_cnt_lsb_minus4 + 4;
    if bits > u8::MAX {
        syntax().missing()
    } else {
        syntax().u(bits, h.pic_order_cnt_lsb as int)
    }
}

/// The short-term reference pictures.
#[verifier::opaque]
pub open spec fn slice_st_syntax(h: SliceHeader, sps: Sps) -> Syntax {
    poc_lsb_syntax(h, sps)
        .flag(h.short_term_ref_pic_set_sps_flag)
        .part(
            if !h.short_term_ref_pic_set_sps_flag {
                st_ref_pic_set_syntax(
                    h.short_term_ref_pic_set,
                    sps.num_short_term_ref_pic_sets as int,
                )
            } else if sps.num_short_term_ref_pic_sets > 1 {
                syntax().u(
                    spec_ceil_log2(sps.num_short_term_ref_pic_sets as int),
                    h.short_term_ref_pic_set_idx as int,
                )
            } else {
                syntax()
            },
        )
}

/// The long-term reference pictures and the motion vector prediction.
#[verifier::opaque]
pub open spec fn slice_lt_mvp_syntax(h: SliceHeader, sps: Sps) -> Syntax {
    slice_lt_syntax(h, sps)
        .when(sps.temporal_mvp_enabled_flag, syntax().flag(h.temporal_mvp_enabled_flag))
}

/// The picture order count and the reference pictures, which an IDR picture lacks.
#[verifier::opaque]
pub open spec fn slice_references_syntax(h: SliceHeader, nalu_type: NaluType, sps: Sps) -> Syntax {
    if nalu_type.idr() {
        syntax()
    } else {
        slice_st_syntax(h, sps).part(slice_lt_mvp_syntax(h, sps))
    }
}

/// The sample adaptive offset flags, where there are any.
#[verifier::opaque]
pub open spec fn slice_sao_syntax(h: SliceHeader, sps: Sps) -> Syntax {
    if sps.sample_adaptive_offset_enabled_flag {
        syntax()
            .flag(h.sao_luma_flag)
            .when(sps.chroma_array_type != 0, syntax().flag(h.sao_chroma_flag))
    } else {
        syntax()
    }
}

/// The number of active reference pictures.
#[verifier::opaque]
pub open spec fn slice_active_syntax(h: SliceHeader) -> Syntax {
    syntax()
        .flag(h.num_ref_idx_active_override_flag)
        .when(
            h.num_ref_idx_active_override_flag,
            syntax()
                .ue(h.num_ref_idx_l0_active_minus1 as int)
                .when(h.type_ == SliceType::B, syntax().ue(h.num_ref_idx_l1_active_minus1 as int)),
        )
}

/// The collocated picture.
#[verifier::opaque]
pub open spec fn slice_collocated_syntax(h: SliceHeader, pps: Pps) -> Syntax {
    syntax()
        .when(h.type_ == SliceType::B, syntax().flag(h.collocated_from_l0_flag))
        .when(
            (h.collocated_from_l0_flag && h.l0_minus1(pps) > 0)
                || (!h.collocated_from_l0_flag && h.l1_minus1(pps) > 0),
            syntax().ue(h.collocated_ref_idx as int),
        )
}

/// The reference lists of a P or B slice.
#[verifier::opaque]
pub open spec fn slice_lists_syntax(h: SliceHeader, sps: Sps, pps: Pps) -> Syntax {
    let total = h.pic_total_curr(sps, pps);
    slice_active_syntax(h).part(
        if h.has_references(sps) {
            syntax()
                .when(
                    pps.lists_modification_present_flag && total > 1,
                    rplm_syntax(
                        h.ref_pic_list_modification,
                        h.type_,
                        h.l0_minus1(pps),
                        h.l1_list(pps),
                        total,
                    ),
                )
                .when(h.type_ == SliceType::B, syntax().flag(h.mvd_l1_zero_flag))
                .when(pps.cabac_init_present_flag, syntax().flag(h.cabac_init_flag))
        } else {
            syntax().missing()
        },
    )
}

/// The prediction of a P or B slice.
#[verifier::opaque]
pub open spec fn slice_prediction_syntax(h: SliceHeader, sps: Sps, pps: Pps) -> Syntax {
    syntax()
        .when(h.temporal_mvp_enabled_flag, slice_collocated_syntax(h, pps))
        .when(
            h.is_weighted(pps),
            pwt_syntax(
                h.pred_weight_table,
                h.type_,
                sps.chroma_array_type as int,
                h.l0_minus1(pps),
                h.l1_list(pps),
            ),
        )
        .ue(h.five_minus_max_num_merge_cand as int)
        .when(
            sps.scc_extension.motion_vector_resolution_control_idc == 2,
            syntax().flag(h.use_integer_mv_flag),
        )
}

/// What only P and B slices have.
#[verifier::opaque]
pub open spec fn slice_inter_syntax(h: SliceHeader, sps: Sps, pps: Pps) -> Syntax {
    if h.is_inter() {
        slice_lists_syntax(h, sps, pps).part(slice_prediction_syntax(h, sps, pps))
    } else {
        syntax()
    }
}

/// The quantizer.
#[verifier::opaque]
pub open spec fn slice_qp_syntax(h: SliceHeader, pps: Pps) -> Syntax {
    syntax()
        .se(h.qp_delta as int)
        .when(
            pps.slice_chroma_qp_offsets_present_flag,
            syntax().se(h.cb_qp_offset as int).se(h.cr_qp_offset as int),
        )
        .when(
            pps.scc_extension.slice_act_qp_offsets_present_flag,
            syntax()
                .se(h.slice_act_y_qp_offset as int)
                .se(h.slice_act_cb_qp_offset as int)
                .se(h.slice_act_cr_qp_offset as int),
        )
        .when(
            pps.range_extension.chroma_qp_offset_list_enabled_flag,
            syntax().flag(h.cu_chroma_qp_offset_enabled_flag),
        )
}

/// The loop filters.
#[verifier::opaque]
pub open spec fn slice_filters_syntax(h: SliceHeader, pps: Pps) -> Syntax {
    syntax()
        .when(
            pps.deblocking_filter_override_enabled_flag,
            syntax().flag(h.deblocking_filter_override_flag),
        )
        .when(
            h.deblocking_filter_override_flag,
            syntax()
                .flag(h.deblocking_filter_disabled_flag)
                .when(
                    !h.deblocking_filter_disabled_flag,
                    syntax().se(h.beta_offset_div2 as int).se(h.tc_offset_div2 as int),
                ),
        )
        .when(
            pps.loop_filter_across_slices_enabled_flag && (h.sao_luma_flag || h.sao_chroma_flag
                || !h.deblocking_filter_disabled_flag),
            syntax().flag(h.loop_filter_across_slices_enabled_flag),
        )
}

/// What precedes the reference pictures.
#[verifier::opaque]
pub open spec fn slice_type_syntax(h: SliceHeader, sps: Sps, pps: Pps) -> Syntax {
    reserved_zero(pps.num_extra_slice_header_bits as int)
        .ue(h.type_.code() as int)
        .when(pps.output_flag_present_flag, syntax().flag(h.pic_output_flag))
        .when(sps.separate_colour_plane_flag, syntax().u(2, h.colour_plane_id as int))
}

/// What follows the reference pictures.
#[verifier::opaque]
pub open spec fn slice_body_syntax(h: SliceHeader, sps: Sps, pps: Pps) -> Syntax {
    slice_sao_syntax(h, sps)
        .part(slice_inter_syntax(h, sps, pps))
        .part(slice_qp_syntax(h, pps))
        .part(slice_filters_syntax(h, pps))
}

/// What a dependent slice segment takes over from the one before.
#[verifier::opaque]
pub open spec fn slice_independent_syntax(
    h: SliceHeader,
    nalu_type: NaluType,
    sps: Sps,
    pps: Pps,
) -> Syntax {
    if h.dependent_slice_segment_flag {
        syntax()
    } else {
        slice_type_syntax(h, sps, pps)
            .part(slice_references_syntax(h, nalu_type, sps))
            .part(slice_body_syntax(h, sps, pps))
    }
}

/// Where the slice segment lies.
#[verifier::opaque]
pub open spec fn slice_address_syntax(
    h: SliceHeader,
    nalu_type: NaluType,
    sps: Sps,
    pps: Pps,
) -> Syntax {
    syntax()
        .flag(h.first_slice_segment_in_pic_flag)
        .when(nalu_type.irap(), syntax().flag(h.no_output_of_prior_pics_flag))
        .ue(h.pic_parameter_set_id as int)
        .when(
            !h.first_slice_segment_in_pic_flag,
            syntax()
                .when(
                    pps.dependent_slice_segments_enabled_flag,
                    syntax().flag(h.dependent_slice_segment_flag),
                )
                .u(spec_ceil_log2(sps.pic_size_in_ctbs_y as int), h.segment_address as int),
        )
}

/// The offsets of the entry points, where there are any.
#[verifier::opaque]
pub open spec fn slice_offsets_syntax(h: SliceHeader) -> Syntax {
    if h.num_entry_point_offsets > 0 {
        syntax().ue(h.offset_len_minus1 as int).part(
            if h.has_offsets() {
                us_from(
                    h.offset_len_minus1 + 1,
                    h.entry_point_offset_minus1@,
                    0,
                    h.num_entry_point_offsets as int,
                )
            } else {
                syntax().missing()
            },
        )
    } else {
        syntax()
    }
}

/// The entry points.
#[verifier::opaque]
pub open spec fn slice_entry_points_syntax(h: SliceHeader) -> Syntax {
    syntax().ue(h.num_entry_point_offsets as int).part(slice_offsets_syntax(h))
}

/// The entry points and an empty extension.
#[verifier::opaque]
pub open spec fn slice_end_syntax(h: SliceHeader, pps: Pps) -> Syntax {
    syntax()
        .when(
            pps.tiles_enabled_flag || pps.entropy_coding_sync_enabled_flag,
            slice_entry_points_syntax(h),
        )
        .when(pps.slice_segment_header_extension_present_flag, syntax().ue(0))
}

/// `slice_segment_header()` (7.3.6.1).
#[verifier::opaque]
pub open spec fn slice_syntax(h: SliceHeader, nalu_type: NaluType, sps: Sps, pps: Pps) -> Syntax {
    slice_address_syntax(h, nalu_type, sps, pps)
        .part(slice_independent_syntax(h, nalu_type, sps, pps))
        .part(slice_end_syntax(h, pps))
}

impl SliceHeader {
    /// The long-term reference picture of the parameter set that row `i` stands for.
    pub open spec fn lt_sps_idx(self, sps: Sps, i: int) -> int {
        if sps.num_long_term_ref_pics_sps > 1 {
            self.lt_idx_sps[i] as int
        } else {
            0
        }
    }

    /// Whether what is not coded of long-term reference picture `i` has its inferred
    /// value.
    pub open spec fn inferred_lt_row(self, sps: Sps, i: int) -> bool {
        &&& !self.delta_poc_msb_present_flag[i] ==> self.coded_msb_cycle(i) == 0
        &&& self.coded_msb_cycle(i) >= 0
        &&& i < self.num_long_term_sps ==> {
            &&& self.lt_sps_idx(sps, i) < sps.num_long_term_ref_pics_sps
            &&& self.used_by_curr_pic_lt[i] == sps.used_by_curr_pic_lt_sps_flag[self.lt_sps_idx(sps, i)]
        }
    }

    /// Whether what is not coded of the long-term reference pictures has its inferred
    /// value.
    pub open spec fn inferred_lt(self, sps: Sps) -> bool {
        if sps.long_term_ref_pics_present_flag {
            &&& self.num_long_term() <= 16
            &&& sps.num_long_term_ref_pics_sps == 0 ==> self.num_long_term_sps == 0
            &&& forall|i: int| 0 <= i < self.num_long_term()
                ==> #[trigger] self.inferred_lt_row(sps, i)
        } else {
            self.num_long_term_sps == 0 && self.num_long_term_pics == 0
        }
    }

    /// Whether the short-term reference pictures are valid, and what is not coded of
    /// them has its inferred value.
    pub open spec fn inferred_st(self, sps: Sps) -> bool {
        if self.short_term_ref_pic_set_sps_flag {
            &&& self.curr_rps_idx < sps.num_short_term_ref_pic_sets
            &&& self.curr_rps_idx == if sps.num_short_term_ref_pic_sets > 1 {
                self.short_term_ref_pic_set_idx
            } else {
                0
            }
        } else {
            self.short_term_ref_pic_set.valid()
        }
    }

    /// Whether the reference pictures are valid, and what is not coded of them has its
    /// inferred value: none for an IDR picture.
    pub open spec fn inferred_references(self, nalu_type: NaluType, sps: Sps) -> bool {
        if nalu_type.idr() {
            &&& !self.short_term_ref_pic_set_sps_flag
            &&& self.short_term_ref_pic_set.num_negative_pics == 0
            &&& self.short_term_ref_pic_set.num_positive_pics == 0
            &&& self.num_long_term_sps == 0
            &&& self.num_long_term_pics == 0
            &&& !self.temporal_mvp_enabled_flag
        } else {
            &&& self.inferred_st(sps)
            &&& self.inferred_lt(sps)
            &&& !sps.temporal_mvp_enabled_flag ==> !self.temporal_mvp_enabled_flag
        }
    }

    /// Whether the sample adaptive offset flags that are not coded are zero.
    pub open spec fn inferred_sao(self, sps: Sps) -> bool {
        &&& !sps.sample_adaptive_offset_enabled_flag
            ==> !self.sao_luma_flag && !self.sao_chroma_flag
        &&& sps.chroma_array_type == 0 ==> !self.sao_chroma_flag
    }

    /// Whether what is not coded of the prediction, and decides on what is, has its
    /// inferred value.
    pub open spec fn inferred_prediction(self, sps: Sps, pps: Pps) -> bool {
        &&& self.temporal_mvp_enabled_flag && self.type_ != SliceType::B
            ==> self.collocated_from_l0_flag
        &&& self.is_weighted(pps) && sps.chroma_array_type == 0 ==> {
            &&& no_chroma_weights(self.pred_weight_table.l0(), self.l0_minus1(pps) + 1)
            &&& self.type_ == SliceType::B ==> no_chroma_weights(
                self.pred_weight_table.l1(),
                self.l1_minus1(pps) + 1,
            )
        }
    }

    /// Whether what is not coded of the loop filters has its inferred value.
    pub open spec fn inferred_filters(self, pps: Pps) -> bool {
        &&& !pps.deblocking_filter_override_enabled_flag ==> !self.deblocking_filter_override_flag
        &&& !self.deblocking_filter_override_flag ==> self.deblocking_filter_disabled_flag
            == pps.deblocking_filter_disabled_flag
    }

    /// Whether what is not coded, and decides on what is, has its inferred value.
    pub open spec fn inferred(self, nalu_type: NaluType, sps: Sps, pps: Pps) -> bool {
        &&& self.first_slice_segment_in_pic_flag || !pps.dependent_slice_segments_enabled_flag
            ==> !self.dependent_slice_segment_flag
        &&& !self.dependent_slice_segment_flag ==> {
            &&& self.inferred_references(nalu_type, sps)
            &&& self.inferred_sao(sps)
            &&& self.is_inter() ==> self.inferred_prediction(sps, pps)
            &&& self.inferred_filters(pps)
        }
    }

    /// Whether the reference pictures of a P or B slice are there.
    pub open spec fn has_references(self, sps: Sps) -> bool {
        let rps = self.rps(sps);
        &&& self.short_term_ref_pic_set_sps_flag
            ==> self.curr_rps_idx < sps.short_term_ref_pic_set.len()
        &&& rps.num_negative_pics <= 16
        &&& rps.num_positive_pics <= 16
        &&& self.num_long_term() <= 16
    }

    /// Whether the offsets of the entry points are there, where they have a code. Their length is
    /// computed in eight bits.
    pub open spec fn has_offsets(self) -> bool {
        &&& self.offset_len_minus1 < u8::MAX
        &&& self.offset_len_minus1 + 1 <= 32 ==> self.num_entry_point_offsets <= 32
    }

    /// Whether the header can be written: up to the first element that has no code, all that is
    /// coded lies within the arrays.
    pub open spec fn writable(self, nalu_type: NaluType, sps: Sps, pps: Pps) -> bool {
        slice_syntax(self, nalu_type, sps, pps).complete()
    }
}

} // verus!
