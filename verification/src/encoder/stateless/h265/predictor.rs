//! The low delay predictor of the H.265 encoder: the fields of the parameter sets, and the
//! request for each frame.
//!
//! What it decides (one slice, one tile, one sub-layer):
//! - **Coding block sizes**: the smallest coding block has 8 samples, the coding tree
//!   block 32. Transform blocks have 4 to 32 samples, in a hierarchy of depth 2.
//! - **Decoded pictures**: the current one and one reference, without reordering.
//! - **Reference pictures**: one picture before the current one, carried in the slice
//!   segment header; the sequence parameter set holds no reference picture set.
//! - **Picture order count**: counted from the last IDR picture. The number of its bits
//!   is such that it does not wrap between natural intra frames.
//! - **Off**: sample adaptive offset, temporal motion vector prediction, scaling lists,
//!   PCM, transform skip, sign data hiding and weighted prediction. Asymmetric motion
//!   partitions, and the CU QP delta that rate control needs, are on.

use crate::bits::{lemma_pow2_monotone, lemma_pow2_pos, lemma_pow2_split, lemma_pow2_values, pow2};
use crate::codec::h265::parser::sps::power_of_two;
use crate::codec::h265::types::{
    Level, NaluType, Pps, PpsRangeExtension, PpsSccExtension, Profile, ProfileTierLevel,
    ScalingLists, ShortTermRefPicSet, SliceHeader, SliceType, Sps, SpsRangeExtension,
    SpsSccExtension, Vps, VuiParams,
};
use crate::encoder::{EncodeError, EncodeResult, EncoderColorInfo, RateControl, Tunings};
use crate::encoder::h265::EncoderConfig;
use crate::encoder::stateless::FrameMetadata;
use crate::encoder::stateless::h265::{BackendRequest, DpbEntry, DpbEntryMeta};
use crate::encoder::stateless::predictor::LowDelay;
use crate::shared::share;
use std::collections::VecDeque;
use std::marker::PhantomData;
use std::rc::Rc;
use vstd::prelude::*;

verus! {

/// The slice quantizer is `26 + init_qp_minus26 + slice_qp_delta`. The `pic_init_qp` is clamped
/// into the quantizer range of 8-bit video, without zero, which is an extreme that no
/// configuration asks for.
pub const MIN_QP: u8 = 1;

/// The upper end of the quantizer range of 8-bit video.
pub const MAX_QP: u8 = 51;

/// Min luma coding-block size log2 minus 3: MinCbSizeY is 8.
pub const LOG2_MIN_CB_SIZE_MINUS3: u8 = 0;

/// Max minus min luma coding-block size log2: CtbSizeY is 32.
pub const LOG2_DIFF_MAX_MIN_CB_SIZE: u8 = 2;

pub const MIN_CB_LOG2: u32 = 3;

pub const CTB_LOG2: u32 = 5;

/// CtbSizeY.
pub const CTB_SIZE: u32 = 32;

/// MinCbSizeY: the coded width and height are multiples of it.
pub const MIN_CB_SIZE: u32 = 8;

/// `(SubWidthC, SubHeightC)` of a chroma format.
pub open spec fn spec_sub_wh_c(chroma_format_idc: u8) -> (u32, u32) {
    if chroma_format_idc == 2 {
        (2, 1)
    } else {
        (2, 2)
    }
}

/// `(SubWidthC, SubHeightC)` for a `chroma_format_idc`: 4:2:0 is (2, 2) and 4:2:2 is
/// (2, 1). Monochrome and 4:4:4 are never emitted.
pub fn sub_wh_c(chroma_format_idc: u8) -> (r: (u32, u32))
    ensures
        r == spec_sub_wh_c(chroma_format_idc),
{
    match chroma_format_idc {
        2 => (2, 1),
        _ => (2, 2),
    }
}

/// The least multiple of `a` that is not less than `x`.
pub open spec fn spec_align_up(x: int, a: int) -> int {
    ((x + a - 1) / a) * a
}

/// Round `x` up to a multiple of `a`.
pub fn align_up(x: u32, a: u32) -> (r: u32)
    requires
        a > 0,
        spec_align_up(x as int, a as int) <= u32::MAX,
    ensures
        r == spec_align_up(x as int, a as int),
        r as int % a as int == 0,
        x <= r < x + a,
{
    let n: u64 = (x as u64 + a as u64 - 1) / a as u64;
    proof {
        lemma_align_up(x as int, a as int);
        let q = (x + a - 1) / a as int;
        assert(q <= q * a) by (nonlinear_arith)
            requires
                q >= 0,
                a >= 1,
        ;
        assert(q >= 0) by (nonlinear_arith)
            requires
                q == (x + a - 1) / a as int,
                x >= 0,
                a >= 1,
        ;
    }
    (n as u32) * a
}

/// Rounding up gives a multiple less than one step away.
pub proof fn lemma_align_up(x: int, a: int)
    requires
        x >= 0,
        a > 0,
    ensures
        spec_align_up(x, a) % a == 0,
        x <= spec_align_up(x, a) < x + a,
{
    let y = x + a - 1;
    let q = y / a;
    vstd::arithmetic::div_mod::lemma_fundamental_div_mod(y, a);
    vstd::arithmetic::div_mod::lemma_mod_bound(y, a);
    vstd::arithmetic::div_mod::lemma_mod_multiples_basic(q, a);
    assert(a * q == q * a) by (nonlinear_arith);
}

/// The smallest value from `v` up to 12 whose `MaxPicOrderCntLsb` is at least `need`, and
/// 12 if there is none.
pub open spec fn least_poc_bits(need: int, v: int) -> int
    decreases 12 - v,
{
    if v >= 12 || pow2((v + 4) as nat) >= need {
        v
    } else {
        least_poc_bits(need, v + 1)
    }
}

/// The `log2_max_pic_order_cnt_lsb_minus4` for a distance of `limit` between intra frames.
pub open spec fn spec_log2_max_poc_lsb_minus4(limit: u16) -> int {
    least_poc_bits(2 * if limit == 0 { 1int } else { limit as int }, 0)
}

/// The smallest `log2_max_pic_order_cnt_lsb_minus4` (0 to 12) whose `MaxPicOrderCntLsb`
/// covers `2 * limit`, and 12 if none does.
pub fn log2_max_poc_lsb_minus4(limit: u16) -> (v: u8)
    ensures
        v == spec_log2_max_poc_lsb_minus4(limit),
        v <= 12,
{
    let need: u32 = 2 * if limit == 0 {
        1
    } else {
        limit as u32
    };
    let mut v: u8 = 0;
    let mut max_poc_lsb: u32 = 16;
    proof {
        lemma_pow2_values();
    }
    while max_poc_lsb < need && v < 12
        invariant
            v <= 12,
            max_poc_lsb == pow2((v + 4) as nat),
            max_poc_lsb <= 0x1_0000,
            least_poc_bits(need as int, v as int) == spec_log2_max_poc_lsb_minus4(limit),
        ensures
            v <= 12,
            v == spec_log2_max_poc_lsb_minus4(limit),
        decreases 12 - v,
    {
        proof {
            lemma_pow2_values();
            lemma_pow2_monotone((v + 5) as nat, 16);
        }
        max_poc_lsb = max_poc_lsb * 2;
        v = v + 1;
    }
    v
}

pub proof fn lemma_least_poc_bits(need: int, v: int)
    requires
        0 <= v <= 12,
    ensures
        v <= least_poc_bits(need, v) <= 12,
        least_poc_bits(need, v) < 12 ==> pow2((least_poc_bits(need, v) + 4) as nat) >= need,
        need <= 0x1_0000 ==> pow2((least_poc_bits(need, v) + 4) as nat) >= need,
    decreases 12 - v,
{
    lemma_pow2_values();
    if v < 12 && pow2((v + 4) as nat) < need {
        lemma_least_poc_bits(need, v + 1);
    }
}

/// The picture order count never wraps between natural intra frames: one less than
/// `limit` is its own LSB.
pub proof fn law_poc_does_not_wrap(limit: u16, poc: int)
    requires
        0 <= poc < limit,
    ensures
        poc % pow2((spec_log2_max_poc_lsb_minus4(limit) + 4) as nat) as int == poc,
{
    let need = 2 * limit as int;
    lemma_pow2_values();
    lemma_least_poc_bits(need, 0);
    let v = least_poc_bits(need, 0);
    if v == 12 {
        assert(pow2(16) == 0x1_0000);
    }
    let m = pow2((v + 4) as nat) as int;
    assert(poc < m);
    assert(poc % m == poc) by (nonlinear_arith)
        requires
            0 <= poc < m,
    ;
}

/// `MaxPicOrderCntLsb` covers twice the distance between natural intra frames, wherever
/// 16 bits can.
pub proof fn law_poc_lsb_covers_twice_the_limit(limit: u16)
    requires
        2 * limit <= 0x1_0000,
    ensures
        pow2((spec_log2_max_poc_lsb_minus4(limit) + 4) as nat) >= 2 * limit,
{
    lemma_least_poc_bits(2 * if limit == 0 { 1int } else { limit as int }, 0);
}

/// Bit depth (as `bit_depth_*_minus8`) and chroma format of a general profile.
pub open spec fn spec_profile_format(profile: Profile) -> (u8, u8) {
    match profile {
        Profile::Main10 => (2, 1),
        Profile::RangeExtensions => (2, 2),
        _ => (0, 1),
    }
}

/// Bit depth (as `bit_depth_*_minus8`) and chroma format (`chroma_format_idc`) for a
/// general profile: `Main` is 8-bit 4:2:0, `Main10` is 10-bit 4:2:0 and
/// `RangeExtensions` is 10-bit 4:2:2. Any other profile has the format of `Main`.
pub fn profile_format(profile: Profile) -> (r: (u8, u8))
    ensures
        r == spec_profile_format(profile),
{
    match profile {
        Profile::Main => (0, 1),
        Profile::Main10 => (2, 1),
        Profile::RangeExtensions => (2, 2),
        _ => (0, 1),
    }
}

/// Whether `p` is the `profile_tier_level()` of a stream with one sub-layer: compatible
/// with its own profile alone, progressive and of frames only. `RangeExtensions` stands
/// for Main 4:2:2 10 and brings its constraint flags.
pub open spec fn ptl_built(p: ProfileTierLevel, profile: Profile, level: Level) -> bool {
    let rext = profile == Profile::RangeExtensions;
    &&& p == (ProfileTierLevel {
        general_profile_idc: profile.code(),
        general_profile_compatibility_flag: p.general_profile_compatibility_flag,
        general_progressive_source_flag: true,
        general_frame_only_constraint_flag: true,
        general_max_12bit_constraint_flag: rext,
        general_max_10bit_constraint_flag: rext,
        general_max_422chroma_constraint_flag: rext,
        general_lower_bit_rate_constraint_flag: rext,
        general_level_idc: level,
        ..ProfileTierLevel::initial()
    })
    &&& forall|i: int|
        0 <= i < 32 ==> #[trigger] p.general_profile_compatibility_flag@[i] == (i == profile.code())
}

/// The `profile_tier_level()` for a single-sub-layer stream of the given profile.
pub fn build_ptl(profile: Profile, level: Level) -> (p: ProfileTierLevel)
    ensures
        ptl_built(p, profile, level),
{
    let idc: u8 = profile.to_u8();
    let mut compat: [bool; 32] = [false; 32];
    compat[idc as usize] = true;
    let mut p = ProfileTierLevel::default();
    p.general_profile_idc = idc;
    p.general_profile_compatibility_flag = compat;
    p.general_progressive_source_flag = true;
    p.general_frame_only_constraint_flag = true;
    p.general_level_idc = level;
    if let Profile::RangeExtensions = profile {
        // Main 4:2:2 10 constraint flags.
        p.general_max_12bit_constraint_flag = true;
        p.general_max_10bit_constraint_flag = true;
        p.general_max_422chroma_constraint_flag = true;
        p.general_lower_bit_rate_constraint_flag = true;
    }
    p
}

/// `v`, or the end of the quantizer range that it lies beyond.
pub open spec fn clamped_qp(v: int) -> int {
    if v < MIN_QP {
        MIN_QP as int
    } else if v > MAX_QP {
        MAX_QP as int
    } else {
        v
    }
}

/// The `pic_init_qp` for the tunings: the bounds on the quality are taken into the quantizer
/// range, the upper one no less than the lower one.
pub open spec fn spec_pick_init_qp(tunings: Tunings) -> int {
    let min_qp = clamped_qp(tunings.min_quality as int);
    let top = clamped_qp(tunings.max_quality as int);
    let max_qp = if top < min_qp { min_qp } else { top };
    match tunings.rate_control {
        RateControl::ConstantQuality(q) => if q < min_qp {
            min_qp
        } else if q > max_qp {
            max_qp
        } else {
            q as int
        },
        _ => (min_qp + max_qp) / 2,
    }
}

/// `v`, or the end of the quantizer range that it lies beyond.
fn clamp_qp(v: u32) -> (r: u32)
    ensures
        r == clamped_qp(v as int),
{
    if v < MIN_QP as u32 {
        MIN_QP as u32
    } else if v > MAX_QP as u32 {
        MAX_QP as u32
    } else {
        v
    }
}

/// The `pic_init_qp` for the stream: the requested constant-QP value clamped into the
/// tunings' quality bounds, else the midpoint of the bounds. It lies in the quantizer range
/// for all tunings.
pub fn pick_init_qp(tunings: &Tunings) -> (q: u8)
    ensures
        q == spec_pick_init_qp(*tunings),
        MIN_QP <= q <= MAX_QP,
{
    let min_qp: u32 = clamp_qp(tunings.min_quality);
    let top: u32 = clamp_qp(tunings.max_quality);
    // The upper bound is at least the lower one, so that the bounds always make sense.
    let max_qp: u32 = if top < min_qp {
        min_qp
    } else {
        top
    };
    let qp: u32 = if let RateControl::ConstantQuality(init_qp) = tunings.rate_control {
        if init_qp < min_qp {
            min_qp
        } else if init_qp > max_qp {
            max_qp
        } else {
            init_qp
        }
    } else {
        (min_qp + max_qp) / 2
    };
    qp as u8
}

/// Whether parameter sets can be built: the padded size, and the number of its samples,
/// fit in 32 bits.
pub open spec fn buildable(config: EncoderConfig) -> bool {
    let w = spec_align_up(config.resolution.width as int, 8);
    let h = spec_align_up(config.resolution.height as int, 8);
    &&& w <= u32::MAX
    &&& h <= u32::MAX
    &&& w * h <= u32::MAX
}

/// Tests [`buildable`], for callers that have no proof of it.
pub fn is_buildable(config: &EncoderConfig) -> (r: bool)
    ensures
        r == buildable(*config),
{
    let w: u64 = ((config.resolution.width as u64 + 7) / 8) * 8;
    let h: u64 = ((config.resolution.height as u64 + 7) / 8) * 8;
    if w > 0xffff_ffff || h > 0xffff_ffff {
        return false;
    }
    assert(w * h <= 0xffff_ffff * 0xffff_ffff) by (nonlinear_arith)
        requires
            w <= 0xffff_ffff,
            h <= 0xffff_ffff,
    ;
    w * h <= 0xffff_ffff
}

/// The video usability information: the colour description, if there is one.
pub open spec fn spec_vui(color: Option<EncoderColorInfo>) -> VuiParams {
    match color {
        Some(c) => VuiParams {
            video_signal_type_present_flag: true,
            video_full_range_flag: c.full_range,
            colour_description_present_flag: true,
            colour_primaries: c.primaries as u32,
            transfer_characteristics: c.transfer as u32,
            matrix_coeffs: c.matrix as u32,
            ..VuiParams::initial()
        },
        None => VuiParams::initial(),
    }
}

/// Whether `s` is the sequence parameter set for the configuration. The coded size is
/// padded to a multiple of the smallest coding block, and the conformance window crops it
/// back.
pub open spec fn sps_built(s: Sps, config: EncoderConfig, limit: u16) -> bool {
    let w = spec_align_up(config.resolution.width as int, 8);
    let h = spec_align_up(config.resolution.height as int, 8);
    &&& s.video_parameter_set_id == 0
    &&& s.max_sub_layers_minus1 == 0
    &&& s.temporal_id_nesting_flag
    &&& ptl_built(s.profile_tier_level, config.profile, config.level)
    &&& s.seq_parameter_set_id == 0
    &&& s.chroma_format_idc == spec_profile_format(config.profile).1
    &&& !s.separate_colour_plane_flag
    &&& s.pic_width_in_luma_samples == w % 0x1_0000
    &&& s.pic_height_in_luma_samples == h % 0x1_0000
    &&& s.conformance_window_flag == (w != config.resolution.width || h != config.resolution.height)
    &&& s.conf_win_left_offset == 0
    &&& s.conf_win_right_offset == (w - config.resolution.width) / spec_sub_wh_c(
        spec_profile_format(config.profile).1,
    ).0 as int
    &&& s.conf_win_top_offset == 0
    &&& s.conf_win_bottom_offset == (h - config.resolution.height) / spec_sub_wh_c(
        spec_profile_format(config.profile).1,
    ).1 as int
    &&& s.bit_depth_luma_minus8 == spec_profile_format(config.profile).0
    &&& s.bit_depth_chroma_minus8 == spec_profile_format(config.profile).0
    &&& s.log2_max_pic_order_cnt_lsb_minus4 == spec_log2_max_poc_lsb_minus4(limit)
    &&& s.sub_layer_ordering_info_present_flag
    &&& s.max_dec_pic_buffering_minus1@ == seq![1u8, 0, 0, 0, 0, 0, 0]
    &&& s.max_num_reorder_pics == [0u8; 7usize]
    &&& s.max_latency_increase_plus1 == [0u8; 7usize]
    &&& s.log2_min_luma_coding_block_size_minus3 == LOG2_MIN_CB_SIZE_MINUS3
    &&& s.log2_diff_max_min_luma_coding_block_size == LOG2_DIFF_MAX_MIN_CB_SIZE
    &&& s.log2_min_luma_transform_block_size_minus2 == 0
    &&& s.log2_diff_max_min_luma_transform_block_size == 3
    &&& s.max_transform_hierarchy_depth_inter == 2
    &&& s.max_transform_hierarchy_depth_intra == 2
    &&& !s.scaling_list_enabled_flag
    &&& !s.scaling_list_data_present_flag
    &&& s.scaling_list == ScalingLists::initial()
    &&& s.amp_enabled_flag
    &&& !s.sample_adaptive_offset_enabled_flag
    &&& !s.pcm_enabled_flag
    &&& s.pcm_sample_bit_depth_luma_minus1 == 0
    &&& s.pcm_sample_bit_depth_chroma_minus1 == 0
    &&& s.log2_min_pcm_luma_coding_block_size_minus3 == 0
    &&& s.log2_diff_max_min_pcm_luma_coding_block_size == 0
    &&& !s.pcm_loop_filter_disabled_flag
    &&& s.num_short_term_ref_pic_sets == 0
    &&& s.short_term_ref_pic_set@.len() == 0
    &&& !s.long_term_ref_pics_present_flag
    &&& s.num_long_term_ref_pics_sps == 0
    &&& s.lt_ref_pic_poc_lsb_sps == [0u32; 32usize]
    &&& s.used_by_curr_pic_lt_sps_flag == [false; 32usize]
    &&& !s.temporal_mvp_enabled_flag
    &&& !s.strong_intra_smoothing_enabled_flag
    &&& s.vui_parameters_present_flag == (config.color is Some)
    &&& s.vui_parameters == spec_vui(config.color)
    &&& !s.extension_present_flag
    &&& !s.range_extension_flag
    &&& s.range_extension == SpsRangeExtension::initial()
    &&& !s.scc_extension_flag
    &&& s.scc_extension == SpsSccExtension::initial()
    &&& s.chroma_array_type == spec_profile_format(config.profile).1
    &&& s.min_cb_log2_size_y == MIN_CB_LOG2
    &&& s.ctb_log2_size_y == CTB_LOG2
    &&& s.ctb_size_y == CTB_SIZE
    &&& s.pic_width_in_ctbs_y == (w + 31) / 32
    &&& s.pic_height_in_ctbs_y == (h + 31) / 32
    &&& s.pic_size_in_ctbs_y == ((w + 31) / 32) * ((h + 31) / 32)
    &&& s.pic_size_in_samples_y == w * h
    &&& s.max_tb_log2_size_y == 5
    &&& s.vps == None::<Rc<Vps>>
}

/// Whether `s` is the picture parameter set for the tunings.
pub open spec fn pps_built(s: Pps, tunings: Tunings, sps: Sps) -> bool {
    &&& s.pic_parameter_set_id == 0
    &&& s.seq_parameter_set_id == 0
    &&& !s.dependent_slice_segments_enabled_flag
    &&& !s.output_flag_present_flag
    &&& s.num_extra_slice_header_bits == 0
    &&& !s.sign_data_hiding_enabled_flag
    &&& !s.cabac_init_present_flag
    &&& s.num_ref_idx_l0_default_active_minus1 == 0
    &&& s.num_ref_idx_l1_default_active_minus1 == 0
    &&& s.init_qp_minus26 == spec_pick_init_qp(tunings) - 26
    &&& !s.constrained_intra_pred_flag
    &&& !s.transform_skip_enabled_flag
    &&& s.cu_qp_delta_enabled_flag
    &&& s.diff_cu_qp_delta_depth == 0
    &&& s.cb_qp_offset == 0
    &&& s.cr_qp_offset == 0
    &&& !s.slice_chroma_qp_offsets_present_flag
    &&& !s.weighted_pred_flag
    &&& !s.weighted_bipred_flag
    &&& !s.transquant_bypass_enabled_flag
    &&& !s.tiles_enabled_flag
    &&& !s.entropy_coding_sync_enabled_flag
    &&& s.num_tile_columns_minus1 == 0
    &&& s.num_tile_rows_minus1 == 0
    &&& s.uniform_spacing_flag
    &&& s.column_width_minus1 == [0u32; 19usize]
    &&& s.row_height_minus1 == [0u32; 21usize]
    &&& s.loop_filter_across_tiles_enabled_flag
    &&& s.loop_filter_across_slices_enabled_flag
    &&& !s.deblocking_filter_control_present_flag
    &&& !s.deblocking_filter_override_enabled_flag
    &&& !s.deblocking_filter_disabled_flag
    &&& s.beta_offset_div2 == 0
    &&& s.tc_offset_div2 == 0
    &&& !s.scaling_list_data_present_flag
    &&& s.scaling_list == ScalingLists::initial()
    &&& !s.lists_modification_present_flag
    &&& s.log2_parallel_merge_level_minus2 == 0
    &&& !s.slice_segment_header_extension_present_flag
    &&& !s.extension_present_flag
    &&& !s.range_extension_flag
    &&& s.range_extension == PpsRangeExtension::initial()
    &&& !s.scc_extension_flag
    &&& s.scc_extension == PpsSccExtension::initial()
    &&& s.qp_bd_offset_y == 0
    &&& *s.sps == sps
}

/// Whether `s` is the video parameter set for the configuration.
pub open spec fn vps_built(s: Vps, config: EncoderConfig) -> bool {
    &&& s.video_parameter_set_id == 0
    &&& s.base_layer_internal_flag
    &&& s.base_layer_available_flag
    &&& s.max_layers_minus1 == 0
    &&& s.max_sub_layers_minus1 == 0
    &&& s.temporal_id_nesting_flag
    &&& ptl_built(s.profile_tier_level, config.profile, config.level)
    &&& s.sub_layer_ordering_info_present_flag
    &&& s.max_dec_pic_buffering_minus1@ == seq![1u32, 0, 0, 0, 0, 0, 0]
    &&& s.max_num_reorder_pics == [0u32; 7usize]
    &&& s.max_latency_increase_plus1 == [0u32; 7usize]
    &&& s.max_layer_id == 0
    &&& s.num_layer_sets_minus1 == 0
    &&& !s.timing_info_present_flag
    &&& s.num_units_in_tick == 0
    &&& s.time_scale == 0
    &&& !s.poc_proportional_to_timing_flag
    &&& s.num_ticks_poc_diff_one_minus1 == 0
    &&& s.num_hrd_parameters == 0
    &&& s.hrd_layer_set_idx@.len() == 0
    &&& s.cprms_present_flag@.len() == 0
    &&& s.hrd_parameters@.len() == 0
    &&& !s.extension_flag
}

/// The video usability information for a colour description.
fn build_vui(color: Option<EncoderColorInfo>) -> (v: VuiParams)
    ensures
        v == spec_vui(color),
{
    let mut v = VuiParams::default();
    if let Some(c) = color {
        v.video_signal_type_present_flag = true;
        v.video_full_range_flag = c.full_range;
        v.colour_description_present_flag = true;
        v.colour_primaries = c.primaries as u32;
        v.transfer_characteristics = c.transfer as u32;
        v.matrix_coeffs = c.matrix as u32;
    }
    v
}

/// The sequence parameter set for the configuration.
fn build_sps(config: &EncoderConfig, limit: u16) -> (s: Sps)
    requires
        spec_align_up(config.resolution.width as int, 8) <= u32::MAX,
        spec_align_up(config.resolution.height as int, 8) <= u32::MAX,
        spec_align_up(
            config.resolution.width as int,
            8,
        ) * spec_align_up(config.resolution.height as int, 8)
            <= u32::MAX,
    ensures
        sps_built(s, *config, limit),
{
    let width: u32 = config.resolution.width;
    let height: u32 = config.resolution.height;
    // The coded dimensions are multiples of MinCbSizeY: pad up, and crop the difference
    // back to the display size with a conformance window.
    let coded_w: u32 = align_up(width, MIN_CB_SIZE);
    let coded_h: u32 = align_up(height, MIN_CB_SIZE);
    let (bit_depth_minus8, chroma_format_idc): (u8, u8) = profile_format(config.profile);
    let (sub_width_c, sub_height_c): (u32, u32) = sub_wh_c(chroma_format_idc);
    // The current picture and one reference, without reordering.
    let mut max_dec_pic_buffering_minus1: [u8; 7] = [0; 7];
    max_dec_pic_buffering_minus1[0] = 1;
    proof {
        assert(max_dec_pic_buffering_minus1@ =~= seq![1u8, 0, 0, 0, 0, 0, 0]);
        assert(((coded_w + 31) / 32) * ((coded_h + 31) / 32) <= coded_w * coded_h) by (nonlinear_arith)
            requires
                coded_w >= 0,
                coded_h >= 0,
        ;
    }
    let pic_w_ctbs: u32 = ((coded_w as u64 + 31) / 32) as u32;
    let pic_h_ctbs: u32 = ((coded_h as u64 + 31) / 32) as u32;
    let log2_max_poc_lsb_minus4: u8 = log2_max_poc_lsb_minus4(limit);
    Sps {
        temporal_id_nesting_flag: true,
        profile_tier_level: build_ptl(config.profile, config.level),
        chroma_format_idc,
        pic_width_in_luma_samples: (coded_w % 0x1_0000) as u16,
        pic_height_in_luma_samples: (coded_h % 0x1_0000) as u16,
        conformance_window_flag: coded_w != width || coded_h != height,
        conf_win_right_offset: (coded_w - width) / sub_width_c,
        conf_win_bottom_offset: (coded_h - height) / sub_height_c,
        bit_depth_luma_minus8: bit_depth_minus8,
        bit_depth_chroma_minus8: bit_depth_minus8,
        log2_max_pic_order_cnt_lsb_minus4: log2_max_poc_lsb_minus4,
        sub_layer_ordering_info_present_flag: true,
        max_dec_pic_buffering_minus1,
        log2_min_luma_coding_block_size_minus3: LOG2_MIN_CB_SIZE_MINUS3,
        log2_diff_max_min_luma_coding_block_size: LOG2_DIFF_MAX_MIN_CB_SIZE,
        log2_min_luma_transform_block_size_minus2: 0,
        log2_diff_max_min_luma_transform_block_size: 3,
        max_transform_hierarchy_depth_inter: 2,
        max_transform_hierarchy_depth_intra: 2,
        amp_enabled_flag: true,
        vui_parameters_present_flag: config.color.is_some(),
        vui_parameters: build_vui(config.color),
        chroma_array_type: chroma_format_idc,
        min_cb_log2_size_y: MIN_CB_LOG2,
        ctb_log2_size_y: CTB_LOG2,
        ctb_size_y: CTB_SIZE,
        pic_width_in_ctbs_y: pic_w_ctbs,
        pic_height_in_ctbs_y: pic_h_ctbs,
        pic_size_in_ctbs_y: pic_w_ctbs * pic_h_ctbs,
        pic_size_in_samples_y: coded_w * coded_h,
        max_tb_log2_size_y: 5,
        ..Sps::default()
    }
}

/// The picture parameter set for the tunings.
fn build_pps(tunings: &Tunings, sps: Rc<Sps>) -> (s: Pps)
    ensures
        pps_built(s, *tunings, *sps),
{
    let init_qp: u8 = pick_init_qp(tunings);
    Pps {
        pic_parameter_set_id: 0,
        seq_parameter_set_id: 0,
        dependent_slice_segments_enabled_flag: false,
        output_flag_present_flag: false,
        num_extra_slice_header_bits: 0,
        sign_data_hiding_enabled_flag: false,
        cabac_init_present_flag: false,
        num_ref_idx_l0_default_active_minus1: 0,
        num_ref_idx_l1_default_active_minus1: 0,
        init_qp_minus26: init_qp as i8 - 26,
        constrained_intra_pred_flag: false,
        transform_skip_enabled_flag: false,
        // Needed for rate control to vary the quantizer.
        cu_qp_delta_enabled_flag: true,
        diff_cu_qp_delta_depth: 0,
        cb_qp_offset: 0,
        cr_qp_offset: 0,
        slice_chroma_qp_offsets_present_flag: false,
        weighted_pred_flag: false,
        weighted_bipred_flag: false,
        transquant_bypass_enabled_flag: false,
        tiles_enabled_flag: false,
        entropy_coding_sync_enabled_flag: false,
        num_tile_columns_minus1: 0,
        num_tile_rows_minus1: 0,
        uniform_spacing_flag: true,
        column_width_minus1: [0; 19],
        row_height_minus1: [0; 21],
        loop_filter_across_tiles_enabled_flag: true,
        loop_filter_across_slices_enabled_flag: true,
        deblocking_filter_control_present_flag: false,
        deblocking_filter_override_enabled_flag: false,
        deblocking_filter_disabled_flag: false,
        beta_offset_div2: 0,
        tc_offset_div2: 0,
        scaling_list_data_present_flag: false,
        scaling_list: ScalingLists::default(),
        lists_modification_present_flag: false,
        log2_parallel_merge_level_minus2: 0,
        slice_segment_header_extension_present_flag: false,
        extension_present_flag: false,
        range_extension_flag: false,
        range_extension: PpsRangeExtension::default(),
        scc_extension_flag: false,
        scc_extension: PpsSccExtension::default(),
        qp_bd_offset_y: 0,
        sps,
    }
}

/// The video parameter set for the configuration.
fn build_vps(config: &EncoderConfig) -> (s: Vps)
    ensures
        vps_built(s, *config),
{
    let mut max_dec_pic_buffering_minus1: [u32; 7] = [0; 7];
    max_dec_pic_buffering_minus1[0] = 1;
    proof {
        assert(max_dec_pic_buffering_minus1@ =~= seq![1u32, 0, 0, 0, 0, 0, 0]);
    }
    Vps {
        base_layer_internal_flag: true,
        base_layer_available_flag: true,
        temporal_id_nesting_flag: true,
        profile_tier_level: build_ptl(config.profile, config.level),
        sub_layer_ordering_info_present_flag: true,
        max_dec_pic_buffering_minus1,
        ..Vps::default()
    }
}

/// The parameter sets for a low delay stream, from the encoder configuration and the
/// current tunings.
pub fn build_parameter_sets(
    config: &EncoderConfig,
    tunings: &Tunings,
    limit: u16,
) -> (r: (Rc<Vps>, Rc<Sps>, Rc<Pps>))
    requires
        buildable(*config),
    ensures
        vps_built(*r.0, *config),
        sps_built(*r.1, *config, limit),
        pps_built(*r.2, *tunings, *r.1),
{
    let sps = Rc::new(build_sps(config, limit));
    let pps = Rc::new(build_pps(tunings, share(&sps)));
    let vps = Rc::new(build_vps(config));
    (vps, sps, pps)
}

/// The low delay short-term reference picture set: one picture before the current one,
/// used by it.
pub open spec fn is_low_delay_rps(rps: ShortTermRefPicSet, curr_poc: int, ref_poc: int) -> bool {
    &&& rps == (ShortTermRefPicSet {
        num_negative_pics: 1,
        num_delta_pocs: 1,
        delta_poc_s0: rps.delta_poc_s0,
        used_by_curr_pic_s0: rps.used_by_curr_pic_s0,
        ..ShortTermRefPicSet::initial()
    })
    &&& rps.delta_poc_s0@[0] == ref_poc - curr_poc
    &&& rps.used_by_curr_pic_s0@[0]
    &&& forall|i: int| 1 <= i < 16 ==> #[trigger] rps.delta_poc_s0@[i] == 0
    &&& forall|i: int| 1 <= i < 16 ==> !#[trigger] rps.used_by_curr_pic_s0@[i]
}

/// The low delay short-term reference picture set: one negative reference, used by the
/// current picture.
pub fn low_delay_rps(curr_poc: i32, ref_poc: i32) -> (rps: ShortTermRefPicSet)
    requires
        i32::MIN <= ref_poc - curr_poc <= i32::MAX,
    ensures
        is_low_delay_rps(rps, curr_poc as int, ref_poc as int),
{
    let mut delta_poc_s0: [i32; 16] = [0; 16];
    let mut used_by_curr_pic_s0: [bool; 16] = [false; 16];
    delta_poc_s0[0] = ref_poc - curr_poc;
    used_by_curr_pic_s0[0] = true;
    let mut rps = ShortTermRefPicSet::default();
    rps.num_negative_pics = 1;
    rps.num_delta_pocs = 1;
    rps.delta_poc_s0 = delta_poc_s0;
    rps.used_by_curr_pic_s0 = used_by_curr_pic_s0;
    rps
}

/// The part of the predictor's state that is specific to H.265.
pub struct LowDelayH265Delegate {
    /// Current sequence VPS.
    vps: Option<Rc<Vps>>,
    /// Current sequence SPS.
    sps: Option<Rc<Sps>>,
    /// Current sequence PPS.
    pps: Option<Rc<Pps>>,
    /// The predictor `counter` at which the current coded video sequence began: the
    /// counter of its IDR picture. Picture order counts are taken relative to it, so that
    /// that of every IDR picture, natural or forced, is zero, as a decoder resets it.
    poc_base: usize,
    /// Encoder config.
    config: EncoderConfig,
}

impl LowDelayH265Delegate {
    /// The active parameter sets.
    pub closed spec fn sets(&self) -> Option<(Rc<Vps>, Rc<Sps>, Rc<Pps>)> {
        match (self.vps, self.sps, self.pps) {
            (Some(vps), Some(sps), Some(pps)) => Some((vps, sps, pps)),
            _ => None,
        }
    }

    /// The counter of the last IDR picture.
    pub closed spec fn poc_base(&self) -> usize {
        self.poc_base
    }

    /// The configuration.
    pub closed spec fn config(&self) -> EncoderConfig {
        self.config
    }

    /// The parameter sets are there all or none, and were built for the configuration.
    pub closed spec fn inv(&self) -> bool {
        match (self.vps, self.sps, self.pps) {
            (Some(vps), Some(sps), Some(pps)) => {
                &&& buildable(self.config)
                &&& exists|tunings: Tunings, limit: u16|
                    #[trigger] sets_built((vps, sps, pps), self.config, tunings, limit)
            },
            (None, None, None) => true,
            _ => false,
        }
    }
}

pub type LowDelayH265<Picture, Reference> = LowDelay<
    Picture,
    DpbEntry<Reference>,
    LowDelayH265Delegate,
    BackendRequest<Picture, Reference>,
>;

/// The header of the only slice of an IDR picture.
pub open spec fn key_header() -> SliceHeader {
    SliceHeader {
        first_slice_segment_in_pic_flag: true,
        type_: SliceType::I,
        pic_output_flag: true,
        loop_filter_across_slices_enabled_flag: true,
        ..SliceHeader::initial()
    }
}

/// Whether `h` is the header of the only slice of a picture that is predicted from the one
/// before: `lsb` are the low bits of its picture order count.
pub open spec fn is_inter_header(
    h: SliceHeader,
    lsb: int,
    poc: int,
    ref_poc: int,
    num_sets: u8,
) -> bool {
    &&& h == (SliceHeader {
        first_slice_segment_in_pic_flag: true,
        type_: SliceType::P,
        pic_output_flag: true,
        pic_order_cnt_lsb: lsb as u16,
        short_term_ref_pic_set: h.short_term_ref_pic_set,
        loop_filter_across_slices_enabled_flag: true,
        curr_rps_idx: num_sets,
        ..SliceHeader::initial()
    })
    &&& is_low_delay_rps(h.short_term_ref_pic_set, poc, ref_poc)
}

/// The signed 32-bit value with the low bits of `v`.
pub open spec fn low_bits_signed(v: int) -> int {
    let m = v % 0x1_0000_0000;
    if m < 0x8000_0000 {
        m
    } else {
        m - 0x1_0000_0000
    }
}

impl<Picture, Reference> LowDelay<
    Picture,
    DpbEntry<Reference>,
    LowDelayH265Delegate,
    BackendRequest<Picture, Reference>,
> {
    /// The active parameter sets.
    pub open spec fn sets(&self) -> Option<(Rc<Vps>, Rc<Sps>, Rc<Pps>)> {
        self.delegate.sets()
    }

    /// The counter of the last IDR picture.
    pub open spec fn poc_base(&self) -> usize {
        self.delegate.poc_base()
    }

    /// The configuration.
    pub open spec fn config(&self) -> EncoderConfig {
        self.delegate.config()
    }

    /// The parameter sets are there all or none, and were built for the configuration. The
    /// queues, the references and the counter are free.
    pub open spec fn inv(&self) -> bool {
        self.delegate.inv()
    }

    /// Whether the state, but for the parameter sets and the base of the picture order
    /// count, is that of `before`.
    pub open spec fn keeps(&self, before: &Self) -> bool {
        &&& self.queue == before.queue
        &&& self.counter == before.counter
        &&& self.limit == before.limit
        &&& self.tunings == before.tunings
        &&& self.tunings_queue == before.tunings_queue
        &&& self.config() == before.config()
    }

    /// Whether this is the state before the first frame.
    pub open spec fn starts_with(&self, config: EncoderConfig, limit: u16) -> bool {
        &&& self.inv()
        &&& self.queue@.len() == 0
        &&& self.references@.len() == 0
        &&& self.counter == 0
        &&& self.limit == limit
        &&& self.tunings == config.initial_tunings
        &&& self.tunings_queue@.len() == 0
        &&& self.config() == config
        &&& self.sets() is None
        &&& self.poc_base() == 0
    }

    /// A predictor before its first frame.
    pub fn new(config: EncoderConfig, limit: u16) -> (p: Self)
        ensures
            p.starts_with(config, limit),
    {
        LowDelay {
            queue: VecDeque::new(),
            references: VecDeque::new(),
            counter: 0,
            limit,
            tunings: config.initial_tunings,
            delegate: LowDelayH265Delegate { vps: None, sps: None, pps: None, poc_base: 0, config },
            tunings_queue: VecDeque::new(),
            _phantom: PhantomData,
        }
    }

    /// Begins a new sequence: builds its parameter sets.
    fn new_sequence(&mut self)
        requires
            old(self).inv(),
            buildable(old(self).config()),
        ensures
            final(self).inv(),
            final(self).keeps(old(self)),
            final(self).references == old(self).references,
            final(self).poc_base() == old(self).poc_base(),
            final(self).sets() matches Some(s) && sets_built(
                s,
                old(self).config(),
                old(self).tunings,
                old(self).limit,
            ),
    {
        let (vps, sps, pps) = build_parameter_sets(
            &self.delegate.config,
            &self.tunings,
            self.limit,
        );
        proof {
            assert(sets_built((vps, sps, pps), self.delegate.config, self.tunings, self.limit));
        }
        self.delegate.vps = Some(vps);
        self.delegate.sps = Some(sps);
        self.delegate.pps = Some(pps);
    }

    /// The number of CTUs in the only slice.
    fn num_ctu_in_slice(sps: &Sps) -> (n: u32)
        requires
            sps.pic_width_in_ctbs_y * sps.pic_height_in_ctbs_y <= u32::MAX,
        ensures
            n == sps.pic_width_in_ctbs_y * sps.pic_height_in_ctbs_y,
    {
        sps.pic_width_in_ctbs_y * sps.pic_height_in_ctbs_y
    }

    /// The active parameter sets, shared.
    fn active_sets(&self) -> (r: Option<(Rc<Vps>, Rc<Sps>, Rc<Pps>)>)
        requires
            self.inv(),
        ensures
            r == self.sets(),
    {
        match (&self.delegate.vps, &self.delegate.sps, &self.delegate.pps) {
            (Some(vps), Some(sps), Some(pps)) => Some((share(vps), share(sps), share(pps))),
            _ => None,
        }
    }

    proof fn lemma_sets(&self)
        requires
            self.inv(),
        ensures
            self.sets() matches Some(s) ==> s.1.log2_max_pic_order_cnt_lsb_minus4 <= 12
                && s.1.pic_width_in_ctbs_y * s.1.pic_height_in_ctbs_y <= u32::MAX,
    {
        if let Some(s) = self.sets() {
            let (tunings, limit) = choose|tunings: Tunings, limit: u16|
                #[trigger] sets_built(s, self.delegate.config, tunings, limit);
            lemma_least_poc_bits(2 * if limit == 0 { 1int } else { limit as int }, 0);
            assert(s.1.pic_size_in_ctbs_y == s.1.pic_width_in_ctbs_y * s.1.pic_height_in_ctbs_y);
        }
    }

    /// The request for a keyframe. `idr` tells a natural intra frame, which begins a new
    /// sequence with new parameter sets, from a forced one, which keeps those there are.
    /// Both are coded as IDR pictures, from which the picture order count starts anew.
    pub fn request_keyframe(
        &mut self,
        input: Picture,
        input_meta: FrameMetadata,
        idr: bool,
    ) -> (r: EncodeResult<
        BackendRequest<Picture, Reference>,
    >)
        requires
            old(self).inv(),
            idr ==> buildable(old(self).config()),
        ensures
            final(self).inv(),
            final(self).keeps(old(self)),
            final(self).references == old(self).references,
            idr ==> (final(self).sets() matches Some(s) && sets_built(
                s,
                old(self).config(),
                old(self).tunings,
                old(self).limit,
            )),
            !idr ==> final(self).sets() == old(self).sets(),
            match r {
                Ok(req) => {
                    &&& final(self).sets() == Some((req.vps, req.sps, req.pps))
                    &&& final(self).poc_base() == old(self).counter
                    &&& req.header == key_header()
                    &&& req.nalu_type == NaluType::IdrWRadl
                    &&& req.input == input
                    &&& req.input_meta == input_meta
                    &&& req.dpb_meta == (DpbEntryMeta { poc: 0, nalu_type: NaluType::IdrWRadl })
                    &&& req.ref_list_0@.len() == 0
                    &&& req.intra_period == old(self).limit
                    &&& req.ip_period == 1
                    &&& req.num_ctu_in_slice == req.sps.pic_width_in_ctbs_y * req.sps.pic_height_in_ctbs_y
                    &&& req.is_idr
                    &&& req.tunings == old(self).tunings
                    &&& req.coded_output@.len() == 0
                },
                Err(e) => {
                    &&& e == EncodeError::InvalidInternalState
                    &&& final(self).poc_base() == old(self).poc_base()
                },
            },
            r is Err <==> !idr && old(self).sets() is None,
    {
        if idr {
            self.new_sequence();
        }
        let (vps, sps, pps) = match self.active_sets() {
            Some(sets) => sets,
            None => return Err(EncodeError::InvalidInternalState),
        };
        proof {
            self.lemma_sets();
        }
        // Every keyframe is an IDR picture, which resets the picture order count: rebase
        // it, so that the following frames count from here.
        self.delegate.poc_base = self.counter;
        let header = SliceHeader {
            first_slice_segment_in_pic_flag: true,
            type_: SliceType::I,
            pic_output_flag: true,
            loop_filter_across_slices_enabled_flag: true,
            ..SliceHeader::default()
        };
        let num_ctu_in_slice: u32 = Self::num_ctu_in_slice(&sps);
        Ok(
            BackendRequest {
                vps,
                sps,
                pps,
                header,
                nalu_type: NaluType::IdrWRadl,
                input,
                input_meta,
                dpb_meta: DpbEntryMeta { poc: 0, nalu_type: NaluType::IdrWRadl },
                ref_list_0: Vec::new(),
                intra_period: self.limit as u32,
                ip_period: 1,
                num_ctu_in_slice,
                is_idr: true,
                tunings: self.tunings,
                coded_output: Vec::new(),
            },
        )
    }

    /// Whether a frame can be predicted: if there is a reference, the counter has not fallen
    /// behind the last IDR picture, and the distance of the reference fits in 32 bits.
    pub open spec fn predictable(&self) -> bool {
        self.sets() is Some && self.references@.len() > 0 ==> {
            let poc = low_bits_signed(self.counter - self.poc_base());
            &&& self.counter >= self.poc_base()
            &&& i32::MIN <= self.references@.last().meta.poc - poc <= i32::MAX
        }
    }

    /// Tests [`Self::predictable`], for callers that have no proof of it.
    pub fn is_predictable(&self) -> (r: bool)
        requires
            self.inv(),
        ensures
            r == self.predictable(),
    {
        let n: usize = self.references.len();
        if n == 0 || self.delegate.sps.is_none() {
            return true;
        }
        if self.counter < self.delegate.poc_base {
            return false;
        }
        let distance: i64 = self.references[n - 1].meta.poc as i64 - self.poc() as i64;
        -0x8000_0000 <= distance && distance <= 0x7fff_ffff
    }

    /// The picture order count of the next frame, relative to the last IDR picture.
    fn poc(&self) -> (poc: i32)
        requires
            self.counter >= self.poc_base(),
        ensures
            poc == low_bits_signed(self.counter - self.poc_base()),
    {
        let low: u32 = ((self.counter - self.delegate.poc_base) as u64 % 0x1_0000_0000) as u32;
        if low < 0x8000_0000 {
            low as i32
        } else {
            (low as i64 - 0x1_0000_0000) as i32
        }
    }

    /// The request for a frame that is predicted from the last reconstructed one.
    pub fn request_interframe(
        &mut self,
        input: Picture,
        input_meta: FrameMetadata,
    ) -> (r: EncodeResult<
        BackendRequest<Picture, Reference>,
    >)
        requires
            old(self).inv(),
            old(self).predictable(),
        ensures
            final(self).inv(),
            final(self).keeps(old(self)),
            final(self).sets() == old(self).sets(),
            final(self).poc_base() == old(self).poc_base(),
            match r {
                Ok(req) => {
                    let poc = low_bits_signed(old(self).counter - old(self).poc_base());
                    let bits = (req.sps.log2_max_pic_order_cnt_lsb_minus4 + 4) as nat;
                    let reference = old(self).references@.last();
                    &&& final(self).references@.len() == 0
                    &&& final(self).sets() == Some((req.vps, req.sps, req.pps))
                    &&& is_inter_header(
                        req.header,
                        (old(self).counter - old(self).poc_base()) % pow2(bits) as int,
                        poc,
                        reference.meta.poc as int,
                        req.sps.num_short_term_ref_pic_sets,
                    )
                    &&& req.nalu_type == NaluType::TrailR
                    &&& req.input == input
                    &&& req.input_meta == input_meta
                    &&& req.dpb_meta.poc == poc
                    &&& req.dpb_meta.nalu_type == NaluType::TrailR
                    &&& req.ref_list_0@ == seq![reference]
                    &&& req.intra_period == old(self).limit
                    &&& req.ip_period == 1
                    &&& req.num_ctu_in_slice == req.sps.pic_width_in_ctbs_y * req.sps.pic_height_in_ctbs_y
                    &&& !req.is_idr
                    &&& req.tunings == old(self).tunings
                    &&& req.coded_output@.len() == 0
                },
                Err(e) => {
                    &&& e == EncodeError::InvalidInternalState
                    &&& final(self).references == old(self).references
                },
            },
            r is Err <==> old(self).sets() is None || old(self).references@.len() == 0,
    {
        let (vps, sps, pps) = match self.active_sets() {
            Some(sets) => sets,
            None => return Err(EncodeError::InvalidInternalState),
        };
        proof {
            self.lemma_sets();
        }
        // The single most recently reconstructed frame.
        let n: usize = self.references.len();
        if n == 0 {
            return Err(EncodeError::InvalidInternalState);
        }
        let reference = share(&self.references[n - 1]);
        // Relative to the IDR picture of the current coded video sequence.
        let distance: usize = self.counter - self.delegate.poc_base;
        let low: u32 = (distance as u64 % 0x1_0000_0000) as u32;
        let poc: i32 = self.poc();
        let bits: u32 = sps.log2_max_pic_order_cnt_lsb_minus4 as u32 + 4;
        let max_poc_lsb: u32 = power_of_two(bits);
        proof {
            lemma_pow2_values();
            lemma_pow2_monotone(bits as nat, 16);
            lemma_low_bits(distance as int, bits as nat);
        }
        let mut header = SliceHeader {
            first_slice_segment_in_pic_flag: true,
            type_: SliceType::P,
            pic_output_flag: true,
            pic_order_cnt_lsb: (low % max_poc_lsb) as u16,
            short_term_ref_pic_set: low_delay_rps(poc, reference.meta.poc),
            loop_filter_across_slices_enabled_flag: true,
            ..SliceHeader::default()
        };
        header.curr_rps_idx = sps.num_short_term_ref_pic_sets;
        let num_ctu_in_slice: u32 = Self::num_ctu_in_slice(&sps);
        let mut ref_list_0: Vec<Rc<DpbEntry<Reference>>> = Vec::new();
        ref_list_0.push(reference);
        proof {
            assert(ref_list_0@ =~= seq![old(self).references@.last()]);
        }
        // The next frame is predicted from this one alone, once it is reconstructed.
        self.references.clear();
        Ok(
            BackendRequest {
                vps,
                sps,
                pps,
                header,
                nalu_type: NaluType::TrailR,
                input,
                input_meta,
                dpb_meta: DpbEntryMeta { poc, nalu_type: NaluType::TrailR },
                ref_list_0,
                intra_period: self.limit as u32,
                ip_period: 1,
                num_ctu_in_slice,
                is_idr: false,
                tunings: self.tunings,
                coded_output: Vec::new(),
            },
        )
    }

    /// Whether tunings can be applied: any can.
    pub fn try_tunings(&self, _tunings: &Tunings) -> (r: EncodeResult<()>)
        ensures
            r == Ok::<(), EncodeError>(()),
    {
        Ok(())
    }

    /// Begins a new sequence with the tunings in force.
    pub fn apply_tunings(&mut self, _tunings: &Tunings) -> (r: EncodeResult<()>)
        requires
            old(self).inv(),
            buildable(old(self).config()),
        ensures
            r == Ok::<(), EncodeError>(()),
            final(self).inv(),
            final(self).keeps(old(self)),
            final(self).references == old(self).references,
            final(self).poc_base() == old(self).poc_base(),
            final(self).sets() matches Some(s) && sets_built(
                s,
                old(self).config(),
                old(self).tunings,
                old(self).limit,
            ),
    {
        self.new_sequence();
        Ok(())
    }
}

/// Whether the parameter sets are those for a configuration and tunings.
pub open spec fn sets_built(
    sets: (Rc<Vps>, Rc<Sps>, Rc<Pps>),
    config: EncoderConfig,
    tunings: Tunings,
    limit: u16,
) -> bool {
    &&& vps_built(*sets.0, config)
    &&& sps_built(*sets.1, config, limit)
    &&& pps_built(*sets.2, tunings, *sets.1)
}

/// The low bits of a number are those of its low 32 bits.
proof fn lemma_low_bits(v: int, bits: nat)
    requires
        v >= 0,
        bits <= 16,
    ensures
        (v % 0x1_0000_0000) % pow2(bits) as int == v % pow2(bits) as int,
{
    lemma_pow2_pos(bits);
    lemma_pow2_split(bits, (32 - bits) as nat);
    lemma_pow2_values();
    let m = pow2(bits) as int;
    let k = pow2((32 - bits) as nat) as int;
    lemma_pow2_pos((32 - bits) as nat);
    vstd::arithmetic::div_mod::lemma_mod_mod(v, m, k);
}

} // verus!
