//! The reader of `vui_parameters()`.

use crate::bits::lemma_pow2_values;
use crate::codec::bit_reader::BitReader;
use crate::codec::h265::parser::common::{decodes, MAX_UE};
use crate::codec::h265::parser::hrd::{
    hrd_same, hrd_settled, lemma_hrd_equal, parse_hrd_parameters, HrdCommon,
};
use crate::codec::h265::tables::{
    vui_display_syntax, vui_restriction_syntax, vui_signal_syntax, vui_syntax, vui_timing_syntax,
    vui_window_syntax, EXTENDED_SAR,
};
use crate::codec::h265::types::{HrdParams, VuiParams};
use crate::syntax::{group_onto, group_read};
use vstd::prelude::*;

verus! {

broadcast use {group_onto, group_read};

/// The sample aspect ratio and the overscan information.
pub struct VuiDisplay {
    pub aspect_ratio_info_present_flag: bool,
    pub aspect_ratio_idc: u32,
    pub sar_width: u32,
    pub sar_height: u32,
    pub overscan_info_present_flag: bool,
    pub overscan_appropriate_flag: bool,
}

impl VuiDisplay {
    /// The fields of `s`.
    #[verifier::opaque]
    pub open spec fn of(s: VuiParams) -> Self {
        VuiDisplay {
            aspect_ratio_info_present_flag: s.aspect_ratio_info_present_flag,
            aspect_ratio_idc: s.aspect_ratio_idc,
            sar_width: s.sar_width,
            sar_height: s.sar_height,
            overscan_info_present_flag: s.overscan_info_present_flag,
            overscan_appropriate_flag: s.overscan_appropriate_flag,
        }
    }

    /// Whether `s` holds these fields.
    pub open spec fn fills(self, s: VuiParams) -> bool {
        Self::of(s) == self
    }

    /// Whether what is not coded has its inferred or initial value.
    #[verifier::opaque]
    pub open spec fn settled(self) -> bool {
        &&& !self.aspect_ratio_info_present_flag ==> self.aspect_ratio_idc == 0
        &&& !(self.aspect_ratio_info_present_flag && self.aspect_ratio_idc == EXTENDED_SAR) ==> {
            &&& self.sar_width == 0
            &&& self.sar_height == 0
        }
        &&& !self.overscan_info_present_flag ==> !self.overscan_appropriate_flag
    }

    /// Whether the fields that are coded of `v` are these.
    #[verifier::opaque]
    pub open spec fn same(self, v: VuiParams) -> bool {
        &&& self.aspect_ratio_info_present_flag == v.aspect_ratio_info_present_flag
        &&& v.aspect_ratio_info_present_flag ==> self.aspect_ratio_idc == v.aspect_ratio_idc
        &&& v.aspect_ratio_info_present_flag && v.aspect_ratio_idc == EXTENDED_SAR
            ==> self.sar_width == v.sar_width
        &&& v.aspect_ratio_info_present_flag && v.aspect_ratio_idc == EXTENDED_SAR
            ==> self.sar_height == v.sar_height
        &&& self.overscan_info_present_flag == v.overscan_info_present_flag
        &&& v.overscan_info_present_flag
            ==> self.overscan_appropriate_flag == v.overscan_appropriate_flag
    }
}

/// The sample aspect ratio and the overscan information.
pub(crate) fn parse_vui_display(r: &mut BitReader) -> (f: VuiDisplay)
    requires
        old(r).inv(),
    ensures
        final(r).inv(),
        final(r)@ is Some ==> old(r)@ is Some,
        forall|s: VuiParams| f.fills(s)
            ==> decodes(old(r)@, #[trigger] vui_display_syntax(s), final(r)@),
        forall|v: VuiParams, rest: Seq<bool>|
            old(r)@ == Some(#[trigger] vui_display_syntax(v).onto(rest))
                && vui_display_syntax(v).fits()
                ==> final(r)@ == Some(
                rest,
            ) && f.same(v),
        f.settled(),
{
    proof {
        lemma_pow2_values();
        reveal(vui_display_syntax);
        reveal(VuiDisplay::settled);
        reveal(VuiDisplay::of);
        reveal(VuiDisplay::same);
    }
    let aspect_ratio_info_present_flag: bool = r.flag();
    let mut aspect_ratio_idc: u32 = 0;
    let mut sar_width: u32 = 0;
    let mut sar_height: u32 = 0;
    if aspect_ratio_info_present_flag {
        aspect_ratio_idc = r.u(8);
        if aspect_ratio_idc == EXTENDED_SAR {
            sar_width = r.u(16);
            sar_height = r.u(16);
        }
    }
    let overscan_info_present_flag: bool = r.flag();
    let mut overscan_appropriate_flag: bool = false;
    if overscan_info_present_flag {
        overscan_appropriate_flag = r.flag();
    }
    VuiDisplay {
        aspect_ratio_info_present_flag,
        aspect_ratio_idc,
        sar_width,
        sar_height,
        overscan_info_present_flag,
        overscan_appropriate_flag,
    }
}

/// The video signal type and the chroma sample location.
pub struct VuiSignal {
    pub video_signal_type_present_flag: bool,
    pub video_format: u8,
    pub video_full_range_flag: bool,
    pub colour_description_present_flag: bool,
    pub colour_primaries: u32,
    pub transfer_characteristics: u32,
    pub matrix_coeffs: u32,
    pub chroma_loc_info_present_flag: bool,
    pub chroma_sample_loc_type_top_field: u32,
    pub chroma_sample_loc_type_bottom_field: u32,
}

impl VuiSignal {
    /// The fields of `s`.
    #[verifier::opaque]
    pub open spec fn of(s: VuiParams) -> Self {
        VuiSignal {
            video_signal_type_present_flag: s.video_signal_type_present_flag,
            video_format: s.video_format,
            video_full_range_flag: s.video_full_range_flag,
            colour_description_present_flag: s.colour_description_present_flag,
            colour_primaries: s.colour_primaries,
            transfer_characteristics: s.transfer_characteristics,
            matrix_coeffs: s.matrix_coeffs,
            chroma_loc_info_present_flag: s.chroma_loc_info_present_flag,
            chroma_sample_loc_type_top_field: s.chroma_sample_loc_type_top_field,
            chroma_sample_loc_type_bottom_field: s.chroma_sample_loc_type_bottom_field,
        }
    }

    /// Whether `s` holds these fields.
    pub open spec fn fills(self, s: VuiParams) -> bool {
        Self::of(s) == self
    }

    /// Whether what is not coded has its inferred or initial value.
    #[verifier::opaque]
    pub open spec fn settled(self) -> bool {
        &&& !self.video_signal_type_present_flag ==> {
            &&& self.video_format == 5
            &&& !self.video_full_range_flag
            &&& !self.colour_description_present_flag
        }
        &&& !(self.video_signal_type_present_flag && self.colour_description_present_flag) ==> {
            &&& self.colour_primaries == 2
            &&& self.transfer_characteristics == 2
            &&& self.matrix_coeffs == 2
        }
        &&& !self.chroma_loc_info_present_flag ==> {
            &&& self.chroma_sample_loc_type_top_field == 0
            &&& self.chroma_sample_loc_type_bottom_field == 0
        }
    }

    /// Whether the fields that are coded of `v` are these.
    #[verifier::opaque]
    pub open spec fn same(self, v: VuiParams) -> bool {
        &&& self.video_signal_type_present_flag == v.video_signal_type_present_flag
        &&& v.video_signal_type_present_flag ==> self.video_format == v.video_format
        &&& v.video_signal_type_present_flag
            ==> self.video_full_range_flag == v.video_full_range_flag
        &&& v.video_signal_type_present_flag
            ==> self.colour_description_present_flag == v.colour_description_present_flag
        &&& v.video_signal_type_present_flag && v.colour_description_present_flag
            ==> self.colour_primaries == v.colour_primaries
        &&& v.video_signal_type_present_flag && v.colour_description_present_flag
            ==> self.transfer_characteristics == v.transfer_characteristics
        &&& v.video_signal_type_present_flag && v.colour_description_present_flag
            ==> self.matrix_coeffs == v.matrix_coeffs
        &&& self.chroma_loc_info_present_flag == v.chroma_loc_info_present_flag
        &&& v.chroma_loc_info_present_flag
            ==> self.chroma_sample_loc_type_top_field == v.chroma_sample_loc_type_top_field
        &&& v.chroma_loc_info_present_flag
            ==> self.chroma_sample_loc_type_bottom_field == v.chroma_sample_loc_type_bottom_field
    }
}

/// The video signal type and the chroma sample location.
pub(crate) fn parse_vui_signal(r: &mut BitReader) -> (f: VuiSignal)
    requires
        old(r).inv(),
    ensures
        final(r).inv(),
        final(r)@ is Some ==> old(r)@ is Some,
        forall|s: VuiParams| f.fills(s)
            ==> decodes(old(r)@, #[trigger] vui_signal_syntax(s), final(r)@),
        forall|v: VuiParams, rest: Seq<bool>|
            old(r)@ == Some(#[trigger] vui_signal_syntax(v).onto(rest))
                && vui_signal_syntax(v).fits()
                ==> final(r)@ == Some(
                rest,
            ) && f.same(v),
        f.settled(),
{
    proof {
        lemma_pow2_values();
        reveal(vui_signal_syntax);
        reveal(VuiSignal::settled);
        reveal(VuiSignal::of);
        reveal(VuiSignal::same);
    }
    let video_signal_type_present_flag: bool = r.flag();
    let mut video_format: u8 = 5;
    let mut video_full_range_flag: bool = false;
    let mut colour_description_present_flag: bool = false;
    let mut colour_primaries: u32 = 2;
    let mut transfer_characteristics: u32 = 2;
    let mut matrix_coeffs: u32 = 2;
    if video_signal_type_present_flag {
        video_format = r.u(3) as u8;
        video_full_range_flag = r.flag();
        colour_description_present_flag = r.flag();
        if colour_description_present_flag {
            colour_primaries = r.u(8);
            transfer_characteristics = r.u(8);
            matrix_coeffs = r.u(8);
        }
    }
    let chroma_loc_info_present_flag: bool = r.flag();
    let mut chroma_sample_loc_type_top_field: u32 = 0;
    let mut chroma_sample_loc_type_bottom_field: u32 = 0;
    if chroma_loc_info_present_flag {
        chroma_sample_loc_type_top_field = r.ue(MAX_UE);
        chroma_sample_loc_type_bottom_field = r.ue(MAX_UE);
    }
    VuiSignal {
        video_signal_type_present_flag,
        video_format,
        video_full_range_flag,
        colour_description_present_flag,
        colour_primaries,
        transfer_characteristics,
        matrix_coeffs,
        chroma_loc_info_present_flag,
        chroma_sample_loc_type_top_field,
        chroma_sample_loc_type_bottom_field,
    }
}

/// The field flags and the default display window.
pub struct VuiWindow {
    pub neutral_chroma_indication_flag: bool,
    pub field_seq_flag: bool,
    pub frame_field_info_present_flag: bool,
    pub default_display_window_flag: bool,
    pub def_disp_win_left_offset: u32,
    pub def_disp_win_right_offset: u32,
    pub def_disp_win_top_offset: u32,
    pub def_disp_win_bottom_offset: u32,
}

impl VuiWindow {
    /// The fields of `s`.
    #[verifier::opaque]
    pub open spec fn of(s: VuiParams) -> Self {
        VuiWindow {
            neutral_chroma_indication_flag: s.neutral_chroma_indication_flag,
            field_seq_flag: s.field_seq_flag,
            frame_field_info_present_flag: s.frame_field_info_present_flag,
            default_display_window_flag: s.default_display_window_flag,
            def_disp_win_left_offset: s.def_disp_win_left_offset,
            def_disp_win_right_offset: s.def_disp_win_right_offset,
            def_disp_win_top_offset: s.def_disp_win_top_offset,
            def_disp_win_bottom_offset: s.def_disp_win_bottom_offset,
        }
    }

    /// Whether `s` holds these fields.
    pub open spec fn fills(self, s: VuiParams) -> bool {
        Self::of(s) == self
    }

    /// Whether what is not coded has its inferred or initial value.
    #[verifier::opaque]
    pub open spec fn settled(self) -> bool {
        &&& !self.default_display_window_flag ==> {
            &&& self.def_disp_win_left_offset == 0
            &&& self.def_disp_win_right_offset == 0
            &&& self.def_disp_win_top_offset == 0
            &&& self.def_disp_win_bottom_offset == 0
        }
    }

    /// Whether the fields that are coded of `v` are these.
    #[verifier::opaque]
    pub open spec fn same(self, v: VuiParams) -> bool {
        &&& self.neutral_chroma_indication_flag == v.neutral_chroma_indication_flag
        &&& self.field_seq_flag == v.field_seq_flag
        &&& self.frame_field_info_present_flag == v.frame_field_info_present_flag
        &&& self.default_display_window_flag == v.default_display_window_flag
        &&& v.default_display_window_flag
            ==> self.def_disp_win_left_offset == v.def_disp_win_left_offset
        &&& v.default_display_window_flag
            ==> self.def_disp_win_right_offset == v.def_disp_win_right_offset
        &&& v.default_display_window_flag
            ==> self.def_disp_win_top_offset == v.def_disp_win_top_offset
        &&& v.default_display_window_flag
            ==> self.def_disp_win_bottom_offset == v.def_disp_win_bottom_offset
    }
}

/// The field flags and the default display window.
pub(crate) fn parse_vui_window(r: &mut BitReader) -> (f: VuiWindow)
    requires
        old(r).inv(),
    ensures
        final(r).inv(),
        final(r)@ is Some ==> old(r)@ is Some,
        forall|s: VuiParams| f.fills(s)
            ==> decodes(old(r)@, #[trigger] vui_window_syntax(s), final(r)@),
        forall|v: VuiParams, rest: Seq<bool>|
            old(r)@ == Some(#[trigger] vui_window_syntax(v).onto(rest))
                && vui_window_syntax(v).fits()
                ==> final(r)@ == Some(
                rest,
            ) && f.same(v),
        f.settled(),
{
    proof {
        reveal(vui_window_syntax);
        reveal(VuiWindow::settled);
        reveal(VuiWindow::of);
        reveal(VuiWindow::same);
    }
    let neutral_chroma_indication_flag: bool = r.flag();
    let field_seq_flag: bool = r.flag();
    let frame_field_info_present_flag: bool = r.flag();
    let default_display_window_flag: bool = r.flag();
    let mut def_disp_win_left_offset: u32 = 0;
    let mut def_disp_win_right_offset: u32 = 0;
    let mut def_disp_win_top_offset: u32 = 0;
    let mut def_disp_win_bottom_offset: u32 = 0;
    if default_display_window_flag {
        def_disp_win_left_offset = r.ue(MAX_UE);
        def_disp_win_right_offset = r.ue(MAX_UE);
        def_disp_win_top_offset = r.ue(MAX_UE);
        def_disp_win_bottom_offset = r.ue(MAX_UE);
    }
    VuiWindow {
        neutral_chroma_indication_flag,
        field_seq_flag,
        frame_field_info_present_flag,
        default_display_window_flag,
        def_disp_win_left_offset,
        def_disp_win_right_offset,
        def_disp_win_top_offset,
        def_disp_win_bottom_offset,
    }
}

/// The timing information, with the hypothetical reference decoder parameters.
pub struct VuiTiming {
    pub timing_info_present_flag: bool,
    pub num_units_in_tick: u32,
    pub time_scale: u32,
    pub poc_proportional_to_timing_flag: bool,
    pub num_ticks_poc_diff_one_minus1: u32,
    pub hrd_parameters_present_flag: bool,
    pub hrd: HrdParams,
}

impl VuiTiming {
    /// The fields of `s`.
    #[verifier::opaque]
    pub open spec fn of(s: VuiParams) -> Self {
        VuiTiming {
            timing_info_present_flag: s.timing_info_present_flag,
            num_units_in_tick: s.num_units_in_tick,
            time_scale: s.time_scale,
            poc_proportional_to_timing_flag: s.poc_proportional_to_timing_flag,
            num_ticks_poc_diff_one_minus1: s.num_ticks_poc_diff_one_minus1,
            hrd_parameters_present_flag: s.hrd_parameters_present_flag,
            hrd: s.hrd,
        }
    }

    /// Whether `s` holds these fields.
    pub open spec fn fills(self, s: VuiParams) -> bool {
        Self::of(s) == self
    }

    /// Whether what is not coded has its inferred or initial value.
    #[verifier::opaque]
    pub open spec fn settled(self, max_sub_layers_minus1: u8) -> bool {
        &&& !self.timing_info_present_flag ==> {
            &&& self.num_units_in_tick == 0
            &&& self.time_scale == 0
            &&& !self.poc_proportional_to_timing_flag
            &&& !self.hrd_parameters_present_flag
        }
        &&& !(self.timing_info_present_flag && self.poc_proportional_to_timing_flag)
            ==> self.num_ticks_poc_diff_one_minus1 == 0
        &&& if self.hrd_parameters_present_flag {
            hrd_settled(self.hrd, max_sub_layers_minus1 as int) && self.hrd.common().settled()
        } else {
            self.hrd == HrdParams::initial()
        }
    }

    /// Whether the fields that are coded of `v` are these.
    #[verifier::opaque]
    pub open spec fn same(self, v: VuiParams, max_sub_layers_minus1: u8) -> bool {
        &&& self.timing_info_present_flag == v.timing_info_present_flag
        &&& v.timing_info_present_flag ==> self.num_units_in_tick == v.num_units_in_tick
        &&& v.timing_info_present_flag ==> self.time_scale == v.time_scale
        &&& v.timing_info_present_flag
            ==> self.poc_proportional_to_timing_flag == v.poc_proportional_to_timing_flag
        &&& v.timing_info_present_flag && v.poc_proportional_to_timing_flag
            ==> self.num_ticks_poc_diff_one_minus1 == v.num_ticks_poc_diff_one_minus1
        &&& v.timing_info_present_flag
            ==> self.hrd_parameters_present_flag == v.hrd_parameters_present_flag
        &&& v.timing_info_present_flag && v.hrd_parameters_present_flag
            ==> hrd_same(self.hrd, v.hrd, max_sub_layers_minus1 as int)
                && self.hrd.common().same(v.hrd)
    }
}

/// The timing information, with the hypothetical reference decoder parameters.
pub(crate) fn parse_vui_timing(r: &mut BitReader, max_sub_layers_minus1: u8) -> (f: VuiTiming)
    requires
        old(r).inv(),
        max_sub_layers_minus1 <= 6,
    ensures
        final(r).inv(),
        final(r)@ is Some ==> old(r)@ is Some,
        forall|s: VuiParams| f.fills(s)
            ==> decodes(
                old(r)@,
                #[trigger] vui_timing_syntax(s, max_sub_layers_minus1 as int),
                final(r)@,
            ),
        forall|v: VuiParams, rest: Seq<bool>|
            old(r)@ == Some(#[trigger] vui_timing_syntax(v, max_sub_layers_minus1 as int).onto(rest))
                && vui_timing_syntax(v, max_sub_layers_minus1 as int).fits()
                && v.inferred(max_sub_layers_minus1 as int)
                ==> final(r)@ == Some(
                rest,
            ) && f.same(v, max_sub_layers_minus1),
        f.timing_info_present_flag && f.hrd_parameters_present_flag
            ==> f.hrd.inferred(max_sub_layers_minus1 as int),
        f.settled(max_sub_layers_minus1),
{
    proof {
        lemma_pow2_values();
        reveal(vui_timing_syntax);
        reveal(VuiTiming::settled);
        reveal(VuiTiming::of);
        reveal(VuiTiming::same);
    }
    let timing_info_present_flag: bool = r.flag();
    let mut num_units_in_tick: u32 = 0;
    let mut time_scale: u32 = 0;
    let mut poc_proportional_to_timing_flag: bool = false;
    let mut num_ticks_poc_diff_one_minus1: u32 = 0;
    let mut hrd_parameters_present_flag: bool = false;
    let mut hrd: HrdParams = HrdParams::default();
    if timing_info_present_flag {
        num_units_in_tick = r.u(32);
        time_scale = r.u(32);
        poc_proportional_to_timing_flag = r.flag();
        if poc_proportional_to_timing_flag {
            num_ticks_poc_diff_one_minus1 = r.ue(MAX_UE);
        }
        hrd_parameters_present_flag = r.flag();
        if hrd_parameters_present_flag {
            hrd = parse_hrd_parameters(r, true, &HrdCommon::default(), max_sub_layers_minus1);
        }
    }
    VuiTiming {
        timing_info_present_flag,
        num_units_in_tick,
        time_scale,
        poc_proportional_to_timing_flag,
        num_ticks_poc_diff_one_minus1,
        hrd_parameters_present_flag,
        hrd,
    }
}

/// The bitstream restrictions.
pub struct VuiRestriction {
    pub bitstream_restriction_flag: bool,
    pub tiles_fixed_structure_flag: bool,
    pub motion_vectors_over_pic_boundaries_flag: bool,
    pub restricted_ref_pic_lists_flag: bool,
    pub min_spatial_segmentation_idc: u32,
    pub max_bytes_per_pic_denom: u32,
    pub max_bits_per_min_cu_denom: u32,
    pub log2_max_mv_length_horizontal: u32,
    pub log2_max_mv_length_vertical: u32,
}

impl VuiRestriction {
    /// The fields of `s`.
    #[verifier::opaque]
    pub open spec fn of(s: VuiParams) -> Self {
        VuiRestriction {
            bitstream_restriction_flag: s.bitstream_restriction_flag,
            tiles_fixed_structure_flag: s.tiles_fixed_structure_flag,
            motion_vectors_over_pic_boundaries_flag: s.motion_vectors_over_pic_boundaries_flag,
            restricted_ref_pic_lists_flag: s.restricted_ref_pic_lists_flag,
            min_spatial_segmentation_idc: s.min_spatial_segmentation_idc,
            max_bytes_per_pic_denom: s.max_bytes_per_pic_denom,
            max_bits_per_min_cu_denom: s.max_bits_per_min_cu_denom,
            log2_max_mv_length_horizontal: s.log2_max_mv_length_horizontal,
            log2_max_mv_length_vertical: s.log2_max_mv_length_vertical,
        }
    }

    /// Whether `s` holds these fields.
    pub open spec fn fills(self, s: VuiParams) -> bool {
        Self::of(s) == self
    }

    /// Whether what is not coded has its inferred or initial value.
    #[verifier::opaque]
    pub open spec fn settled(self) -> bool {
        &&& !self.bitstream_restriction_flag ==> {
            &&& !self.tiles_fixed_structure_flag
            &&& self.motion_vectors_over_pic_boundaries_flag
            &&& !self.restricted_ref_pic_lists_flag
            &&& self.min_spatial_segmentation_idc == 0
            &&& self.max_bytes_per_pic_denom == 2
            &&& self.max_bits_per_min_cu_denom == 1
            &&& self.log2_max_mv_length_horizontal == 15
            &&& self.log2_max_mv_length_vertical == 15
        }
    }

    /// Whether the fields that are coded of `v` are these.
    #[verifier::opaque]
    pub open spec fn same(self, v: VuiParams) -> bool {
        &&& self.bitstream_restriction_flag == v.bitstream_restriction_flag
        &&& v.bitstream_restriction_flag
            ==> self.tiles_fixed_structure_flag == v.tiles_fixed_structure_flag
        &&& v.bitstream_restriction_flag
            ==> self.motion_vectors_over_pic_boundaries_flag == v.motion_vectors_over_pic_boundaries_flag
        &&& v.bitstream_restriction_flag
            ==> self.restricted_ref_pic_lists_flag == v.restricted_ref_pic_lists_flag
        &&& v.bitstream_restriction_flag
            ==> self.min_spatial_segmentation_idc == v.min_spatial_segmentation_idc
        &&& v.bitstream_restriction_flag
            ==> self.max_bytes_per_pic_denom == v.max_bytes_per_pic_denom
        &&& v.bitstream_restriction_flag
            ==> self.max_bits_per_min_cu_denom == v.max_bits_per_min_cu_denom
        &&& v.bitstream_restriction_flag
            ==> self.log2_max_mv_length_horizontal == v.log2_max_mv_length_horizontal
        &&& v.bitstream_restriction_flag
            ==> self.log2_max_mv_length_vertical == v.log2_max_mv_length_vertical
    }
}

/// The bitstream restrictions.
pub(crate) fn parse_vui_restriction(r: &mut BitReader) -> (f: VuiRestriction)
    requires
        old(r).inv(),
    ensures
        final(r).inv(),
        final(r)@ is Some ==> old(r)@ is Some,
        forall|s: VuiParams| f.fills(s)
            ==> decodes(old(r)@, #[trigger] vui_restriction_syntax(s), final(r)@),
        forall|v: VuiParams, rest: Seq<bool>|
            old(r)@ == Some(#[trigger] vui_restriction_syntax(v).onto(rest))
                && vui_restriction_syntax(v).fits()
                ==> final(r)@ == Some(
                rest,
            ) && f.same(v),
        f.settled(),
{
    proof {
        reveal(vui_restriction_syntax);
        reveal(VuiRestriction::settled);
        reveal(VuiRestriction::of);
        reveal(VuiRestriction::same);
    }
    let bitstream_restriction_flag: bool = r.flag();
    let mut tiles_fixed_structure_flag: bool = false;
    let mut motion_vectors_over_pic_boundaries_flag: bool = true;
    let mut restricted_ref_pic_lists_flag: bool = false;
    let mut min_spatial_segmentation_idc: u32 = 0;
    let mut max_bytes_per_pic_denom: u32 = 2;
    let mut max_bits_per_min_cu_denom: u32 = 1;
    let mut log2_max_mv_length_horizontal: u32 = 15;
    let mut log2_max_mv_length_vertical: u32 = 15;
    if bitstream_restriction_flag {
        tiles_fixed_structure_flag = r.flag();
        motion_vectors_over_pic_boundaries_flag = r.flag();
        restricted_ref_pic_lists_flag = r.flag();
        min_spatial_segmentation_idc = r.ue(MAX_UE);
        max_bytes_per_pic_denom = r.ue(MAX_UE);
        max_bits_per_min_cu_denom = r.ue(MAX_UE);
        log2_max_mv_length_horizontal = r.ue(MAX_UE);
        log2_max_mv_length_vertical = r.ue(MAX_UE);
    }
    VuiRestriction {
        bitstream_restriction_flag,
        tiles_fixed_structure_flag,
        motion_vectors_over_pic_boundaries_flag,
        restricted_ref_pic_lists_flag,
        min_spatial_segmentation_idc,
        max_bytes_per_pic_denom,
        max_bits_per_min_cu_denom,
        log2_max_mv_length_horizontal,
        log2_max_mv_length_vertical,
    }
}

/// Whether the fields that are coded of `v` are those of `p`.
#[verifier::opaque]
pub open spec fn vui_same(p: VuiParams, v: VuiParams, max_sub_layers_minus1: u8) -> bool {
    &&& VuiDisplay::of(p).same(v)
    &&& VuiSignal::of(p).same(v)
    &&& VuiWindow::of(p).same(v)
    &&& VuiTiming::of(p).same(v, max_sub_layers_minus1)
    &&& VuiRestriction::of(p).same(v)
}

/// Whether what is not coded has its inferred or initial value.
#[verifier::opaque]
pub open spec fn vui_settled(p: VuiParams, max_sub_layers_minus1: u8) -> bool {
    &&& VuiDisplay::of(p).settled()
    &&& VuiSignal::of(p).settled()
    &&& VuiWindow::of(p).settled()
    &&& VuiTiming::of(p).settled(max_sub_layers_minus1)
    &&& VuiRestriction::of(p).settled()
}

/// Whether `p` are the parameters of which nothing is coded.
#[verifier::opaque]
pub open spec fn vui_blank(p: VuiParams) -> bool {
    p == VuiParams::initial()
}

/// Settled parameters that are the same as far as they are coded are equal.
pub proof fn lemma_vui_equal(p: VuiParams, q: VuiParams, max_sub_layers_minus1: u8)
    requires
        max_sub_layers_minus1 <= 6,
        vui_same(q, p, max_sub_layers_minus1),
        vui_settled(p, max_sub_layers_minus1),
        vui_settled(q, max_sub_layers_minus1),
    ensures
        q == p,
{
    reveal(vui_same);
    reveal(vui_settled);
    reveal(VuiDisplay::of);
    reveal(VuiDisplay::same);
    reveal(VuiDisplay::settled);
    reveal(VuiSignal::of);
    reveal(VuiSignal::same);
    reveal(VuiSignal::settled);
    reveal(VuiWindow::of);
    reveal(VuiWindow::same);
    reveal(VuiWindow::settled);
    reveal(VuiTiming::of);
    reveal(VuiTiming::same);
    reveal(VuiTiming::settled);
    reveal(VuiRestriction::of);
    reveal(VuiRestriction::same);
    reveal(VuiRestriction::settled);
    reveal(HrdCommon::same);
    reveal(HrdCommon::settled);
    if p.timing_info_present_flag && p.hrd_parameters_present_flag {
        assert(p.hrd.common() == q.hrd.common());
        lemma_hrd_equal(p.hrd, q.hrd, max_sub_layers_minus1 as int);
    }
}

/// The structure that holds these fields.
fn assemble_vui(
    display: VuiDisplay,
    signal: VuiSignal,
    window: VuiWindow,
    timing: VuiTiming,
    restriction: VuiRestriction,
) -> (p: VuiParams)
    ensures
        display.fills(p),
        signal.fills(p),
        window.fills(p),
        timing.fills(p),
        restriction.fills(p),
{
    proof {
        reveal(VuiDisplay::of);
        reveal(VuiSignal::of);
        reveal(VuiWindow::of);
        reveal(VuiTiming::of);
        reveal(VuiRestriction::of);
    }
    VuiParams {
        aspect_ratio_info_present_flag: display.aspect_ratio_info_present_flag,
        aspect_ratio_idc: display.aspect_ratio_idc,
        sar_width: display.sar_width,
        sar_height: display.sar_height,
        overscan_info_present_flag: display.overscan_info_present_flag,
        overscan_appropriate_flag: display.overscan_appropriate_flag,
        video_signal_type_present_flag: signal.video_signal_type_present_flag,
        video_format: signal.video_format,
        video_full_range_flag: signal.video_full_range_flag,
        colour_description_present_flag: signal.colour_description_present_flag,
        colour_primaries: signal.colour_primaries,
        transfer_characteristics: signal.transfer_characteristics,
        matrix_coeffs: signal.matrix_coeffs,
        chroma_loc_info_present_flag: signal.chroma_loc_info_present_flag,
        chroma_sample_loc_type_top_field: signal.chroma_sample_loc_type_top_field,
        chroma_sample_loc_type_bottom_field: signal.chroma_sample_loc_type_bottom_field,
        neutral_chroma_indication_flag: window.neutral_chroma_indication_flag,
        field_seq_flag: window.field_seq_flag,
        frame_field_info_present_flag: window.frame_field_info_present_flag,
        default_display_window_flag: window.default_display_window_flag,
        def_disp_win_left_offset: window.def_disp_win_left_offset,
        def_disp_win_right_offset: window.def_disp_win_right_offset,
        def_disp_win_top_offset: window.def_disp_win_top_offset,
        def_disp_win_bottom_offset: window.def_disp_win_bottom_offset,
        timing_info_present_flag: timing.timing_info_present_flag,
        num_units_in_tick: timing.num_units_in_tick,
        time_scale: timing.time_scale,
        poc_proportional_to_timing_flag: timing.poc_proportional_to_timing_flag,
        num_ticks_poc_diff_one_minus1: timing.num_ticks_poc_diff_one_minus1,
        hrd_parameters_present_flag: timing.hrd_parameters_present_flag,
        hrd: timing.hrd,
        bitstream_restriction_flag: restriction.bitstream_restriction_flag,
        tiles_fixed_structure_flag: restriction.tiles_fixed_structure_flag,
        motion_vectors_over_pic_boundaries_flag: restriction.motion_vectors_over_pic_boundaries_flag,
        restricted_ref_pic_lists_flag: restriction.restricted_ref_pic_lists_flag,
        min_spatial_segmentation_idc: restriction.min_spatial_segmentation_idc,
        max_bytes_per_pic_denom: restriction.max_bytes_per_pic_denom,
        max_bits_per_min_cu_denom: restriction.max_bits_per_min_cu_denom,
        log2_max_mv_length_horizontal: restriction.log2_max_mv_length_horizontal,
        log2_max_mv_length_vertical: restriction.log2_max_mv_length_vertical,
    }
}

/// `vui_parameters()` (E.2.1).
pub(crate) fn parse_vui(r: &mut BitReader, max_sub_layers_minus1: u8) -> (p: VuiParams)
    requires
        old(r).inv(),
        max_sub_layers_minus1 <= 6,
    ensures
        final(r).inv(),
        decodes(old(r)@, vui_syntax(p, max_sub_layers_minus1 as int), final(r)@),
        p.inferred(max_sub_layers_minus1 as int),
        forall|v: VuiParams, rest: Seq<bool>|
            old(r)@ == Some(#[trigger] vui_syntax(v, max_sub_layers_minus1 as int).onto(rest))
                && vui_syntax(v, max_sub_layers_minus1 as int).fits()
                && v.inferred(max_sub_layers_minus1 as int)
                ==> final(r)@ == Some(
                rest,
            ) && vui_same(p, v, max_sub_layers_minus1),
        vui_settled(p, max_sub_layers_minus1),
{
    proof {
        reveal(vui_syntax);
        reveal(vui_same);
        reveal(vui_settled);
        reveal(VuiTiming::of);
        reveal(VuiTiming::same);
    }
    let display = parse_vui_display(r);
    let signal = parse_vui_signal(r);
    let window = parse_vui_window(r);
    let timing = parse_vui_timing(r, max_sub_layers_minus1);
    let restriction = parse_vui_restriction(r);
    let p = assemble_vui(display, signal, window, timing, restriction);
    p
}

} // verus!
