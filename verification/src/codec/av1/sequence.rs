//! The reader of the AV1 sequence header.

use crate::bits::lemma_pow2_values;
use crate::codec::av1::tables::{
    color_config_syntax, color_head_syntax, color_tail_syntax, seq_filter_syntax, seq_frame_syntax,
    seq_general_syntax, seq_inter_syntax, seq_screen_syntax, sequence_header_syntax,
};
use crate::codec::av1::types::{
    BitDepth, ColorConfig, ColorPrimaries, MatrixCoefficients, Profile, SequenceHeaderObu,
    TransferCharacteristics,
};
use crate::codec::bit_reader::BitReader;
use crate::codec::h265::parser::common::{decodes, parse_u_max};
use crate::syntax::{group_onto, group_read, syntax, u};
use vstd::prelude::*;

verus! {

broadcast use {group_onto, group_read};

/// `seq_profile`.
fn parse_profile(r: &mut BitReader) -> (x: Profile)
    requires
        old(r).inv(),
    ensures
        final(r).inv(),
        decodes(old(r)@, syntax().u(3, x.code() as int), final(r)@),
        forall|v: Profile, rest: Seq<bool>|
            old(r)@ == Some(#[trigger] u(3, v.code() as int).onto(rest))
                ==> final(r)@ == Some(rest) && x == v,
{
    proof {
        lemma_pow2_values();
    }
    let v: u8 = r.u(3) as u8;
    match Profile::from_u8(v) {
        Some(x) => x,
        None => {
            r.require(false);
            Profile::Profile0
        },
    }
}

/// `color_primaries`.
fn parse_color_primaries(r: &mut BitReader) -> (x: ColorPrimaries)
    requires
        old(r).inv(),
    ensures
        final(r).inv(),
        decodes(old(r)@, syntax().u(8, x.code() as int), final(r)@),
        forall|v: ColorPrimaries, rest: Seq<bool>|
            old(r)@ == Some(#[trigger] u(8, v.code() as int).onto(rest))
                ==> final(r)@ == Some(rest) && x == v,
{
    proof {
        lemma_pow2_values();
    }
    let v: u8 = r.u(8) as u8;
    match ColorPrimaries::from_u8(v) {
        Some(x) => x,
        None => {
            r.require(false);
            ColorPrimaries::Unspecified
        },
    }
}

/// `transfer_characteristics`.
fn parse_transfer_characteristics(r: &mut BitReader) -> (x: TransferCharacteristics)
    requires
        old(r).inv(),
    ensures
        final(r).inv(),
        decodes(old(r)@, syntax().u(8, x.code() as int), final(r)@),
        forall|v: TransferCharacteristics, rest: Seq<bool>|
            old(r)@ == Some(#[trigger] u(8, v.code() as int).onto(rest))
                ==> final(r)@ == Some(rest) && x == v,
{
    proof {
        lemma_pow2_values();
    }
    let v: u8 = r.u(8) as u8;
    match TransferCharacteristics::from_u8(v) {
        Some(x) => x,
        None => {
            r.require(false);
            TransferCharacteristics::Unspecified
        },
    }
}

/// `matrix_coefficients`.
fn parse_matrix_coefficients(r: &mut BitReader) -> (x: MatrixCoefficients)
    requires
        old(r).inv(),
    ensures
        final(r).inv(),
        decodes(old(r)@, syntax().u(8, x.code() as int), final(r)@),
        forall|v: MatrixCoefficients, rest: Seq<bool>|
            old(r)@ == Some(#[trigger] u(8, v.code() as int).onto(rest))
                ==> final(r)@ == Some(rest) && x == v,
{
    proof {
        lemma_pow2_values();
    }
    let v: u8 = r.u(8) as u8;
    match MatrixCoefficients::from_u8(v) {
        Some(x) => x,
        None => {
            r.require(false);
            MatrixCoefficients::Unspecified
        },
    }
}

/// The profile and the operating point.
pub struct SeqGeneral {
    pub seq_profile: Profile,
    pub still_picture: bool,
    pub operating_point_idc: u16,
    pub seq_level_idx: u8,
    pub seq_tier: bool,
}

impl SeqGeneral {
    /// The fields of `s`.
    #[verifier::opaque]
    pub open spec fn of(s: SequenceHeaderObu) -> Self {
        SeqGeneral {
            seq_profile: s.seq_profile,
            still_picture: s.still_picture,
            operating_point_idc: s.operating_point_idc,
            seq_level_idx: s.seq_level_idx,
            seq_tier: s.seq_tier,
        }
    }

    /// Whether `s` holds these fields.
    pub open spec fn fills(self, s: SequenceHeaderObu) -> bool {
        Self::of(s) == self
    }

    /// Whether the fields that are coded of `v` are these.
    #[verifier::opaque]
    pub open spec fn same(self, v: SequenceHeaderObu) -> bool {
        &&& self.seq_profile == v.seq_profile
        &&& self.still_picture == v.still_picture
        &&& self.operating_point_idc == v.operating_point_idc
        &&& self.seq_level_idx == v.seq_level_idx
        &&& v.seq_level_idx > 7 ==> self.seq_tier == v.seq_tier
    }
}

/// The profile and the operating point.
#[verifier::rlimit(40)]
pub(crate) fn parse_seq_general(r: &mut BitReader) -> (f: SeqGeneral)
    requires
        old(r).inv(),
    ensures
        final(r).inv(),
        final(r)@ is Some ==> old(r)@ is Some,
        forall|s: SequenceHeaderObu| f.fills(s)
            ==> decodes(old(r)@, #[trigger] seq_general_syntax(s), final(r)@),
        forall|v: SequenceHeaderObu, rest: Seq<bool>|
            old(r)@ == Some(#[trigger] seq_general_syntax(v).onto(rest))
                && seq_general_syntax(v).fits()
                ==> final(r)@ == Some(
                rest,
            ) && f.same(v),
{
    proof {
        lemma_pow2_values();
        reveal(seq_general_syntax);
        reveal(SeqGeneral::of);
        reveal(SeqGeneral::same);
    }
    let seq_profile: Profile = parse_profile(r);
    let still_picture: bool = r.flag();
    let reduced: bool = r.flag();
    r.require(!reduced);
    let timing: bool = r.flag();
    r.require(!timing);
    let delay: bool = r.flag();
    r.require(!delay);
    let points: u32 = r.u(5);
    r.require(points == 0);
    let operating_point_idc: u16 = parse_u_max(r, 12, 0xffff) as u16;
    let seq_level_idx: u8 = r.u(5) as u8;
    let mut seq_tier: bool = false;
    if seq_level_idx > 7 {
        seq_tier = r.flag();
    }
    SeqGeneral {
        seq_profile,
        still_picture,
        operating_point_idc,
        seq_level_idx,
        seq_tier,
    }
}

/// The frame size and the intra tools.
pub struct SeqFrame {
    pub frame_width_bits_minus_1: u8,
    pub frame_height_bits_minus_1: u8,
    pub max_frame_width_minus_1: u16,
    pub max_frame_height_minus_1: u16,
    pub use_128x128_superblock: bool,
    pub enable_filter_intra: bool,
    pub enable_intra_edge_filter: bool,
}

impl SeqFrame {
    /// The fields of `s`.
    #[verifier::opaque]
    pub open spec fn of(s: SequenceHeaderObu) -> Self {
        SeqFrame {
            frame_width_bits_minus_1: s.frame_width_bits_minus_1,
            frame_height_bits_minus_1: s.frame_height_bits_minus_1,
            max_frame_width_minus_1: s.max_frame_width_minus_1,
            max_frame_height_minus_1: s.max_frame_height_minus_1,
            use_128x128_superblock: s.use_128x128_superblock,
            enable_filter_intra: s.enable_filter_intra,
            enable_intra_edge_filter: s.enable_intra_edge_filter,
        }
    }

    /// Whether `s` holds these fields.
    pub open spec fn fills(self, s: SequenceHeaderObu) -> bool {
        Self::of(s) == self
    }

    /// Whether the fields that are coded of `v` are these.
    #[verifier::opaque]
    pub open spec fn same(self, v: SequenceHeaderObu) -> bool {
        &&& self.frame_width_bits_minus_1 == v.frame_width_bits_minus_1
        &&& self.frame_height_bits_minus_1 == v.frame_height_bits_minus_1
        &&& self.max_frame_width_minus_1 == v.max_frame_width_minus_1
        &&& self.max_frame_height_minus_1 == v.max_frame_height_minus_1
        &&& self.use_128x128_superblock == v.use_128x128_superblock
        &&& self.enable_filter_intra == v.enable_filter_intra
        &&& self.enable_intra_edge_filter == v.enable_intra_edge_filter
    }
}

/// The frame size and the intra tools.
pub(crate) fn parse_seq_frame(r: &mut BitReader) -> (f: SeqFrame)
    requires
        old(r).inv(),
    ensures
        final(r).inv(),
        final(r)@ is Some ==> old(r)@ is Some,
        forall|s: SequenceHeaderObu| f.fills(s)
            ==> decodes(old(r)@, #[trigger] seq_frame_syntax(s), final(r)@),
        forall|v: SequenceHeaderObu, rest: Seq<bool>|
            old(r)@ == Some(#[trigger] seq_frame_syntax(v).onto(rest)) && seq_frame_syntax(v).fits()
                ==> final(r)@ == Some(
                rest,
            ) && f.same(v),
{
    proof {
        lemma_pow2_values();
        reveal(seq_frame_syntax);
        reveal(SeqFrame::of);
        reveal(SeqFrame::same);
    }
    let frame_width_bits_minus_1: u8 = r.u(4) as u8;
    let frame_height_bits_minus_1: u8 = r.u(4) as u8;
    let max_frame_width_minus_1: u16 = parse_u_max(
        r,
        frame_width_bits_minus_1 as usize + 1,
        0xffff,
    ) as u16;
    let max_frame_height_minus_1: u16 = parse_u_max(
        r,
        frame_height_bits_minus_1 as usize + 1,
        0xffff,
    ) as u16;
    let numbers: bool = r.flag();
    r.require(!numbers);
    let use_128x128_superblock: bool = r.flag();
    let enable_filter_intra: bool = r.flag();
    let enable_intra_edge_filter: bool = r.flag();
    SeqFrame {
        frame_width_bits_minus_1,
        frame_height_bits_minus_1,
        max_frame_width_minus_1,
        max_frame_height_minus_1,
        use_128x128_superblock,
        enable_filter_intra,
        enable_intra_edge_filter,
    }
}

/// The inter tools.
pub struct SeqInter {
    pub enable_interintra_compound: bool,
    pub enable_masked_compound: bool,
    pub enable_warped_motion: bool,
    pub enable_dual_filter: bool,
    pub enable_order_hint: bool,
    pub enable_jnt_comp: bool,
    pub enable_ref_frame_mvs: bool,
}

impl SeqInter {
    /// The fields of `s`.
    #[verifier::opaque]
    pub open spec fn of(s: SequenceHeaderObu) -> Self {
        SeqInter {
            enable_interintra_compound: s.enable_interintra_compound,
            enable_masked_compound: s.enable_masked_compound,
            enable_warped_motion: s.enable_warped_motion,
            enable_dual_filter: s.enable_dual_filter,
            enable_order_hint: s.enable_order_hint,
            enable_jnt_comp: s.enable_jnt_comp,
            enable_ref_frame_mvs: s.enable_ref_frame_mvs,
        }
    }

    /// Whether `s` holds these fields.
    pub open spec fn fills(self, s: SequenceHeaderObu) -> bool {
        Self::of(s) == self
    }

    /// Whether the fields that are coded of `v` are these.
    #[verifier::opaque]
    pub open spec fn same(self, v: SequenceHeaderObu) -> bool {
        &&& self.enable_interintra_compound == v.enable_interintra_compound
        &&& self.enable_masked_compound == v.enable_masked_compound
        &&& self.enable_warped_motion == v.enable_warped_motion
        &&& self.enable_dual_filter == v.enable_dual_filter
        &&& self.enable_order_hint == v.enable_order_hint
        &&& v.enable_order_hint ==> self.enable_jnt_comp == v.enable_jnt_comp
        &&& v.enable_order_hint ==> self.enable_ref_frame_mvs == v.enable_ref_frame_mvs
    }
}

/// The inter tools.
pub(crate) fn parse_seq_inter(r: &mut BitReader) -> (f: SeqInter)
    requires
        old(r).inv(),
    ensures
        final(r).inv(),
        final(r)@ is Some ==> old(r)@ is Some,
        forall|s: SequenceHeaderObu| f.fills(s)
            ==> decodes(old(r)@, #[trigger] seq_inter_syntax(s), final(r)@),
        forall|v: SequenceHeaderObu, rest: Seq<bool>|
            old(r)@ == Some(#[trigger] seq_inter_syntax(v).onto(rest)) && seq_inter_syntax(v).fits()
                ==> final(r)@ == Some(
                rest,
            ) && f.same(v),
{
    proof {
        reveal(seq_inter_syntax);
        reveal(SeqInter::of);
        reveal(SeqInter::same);
    }
    let enable_interintra_compound: bool = r.flag();
    let enable_masked_compound: bool = r.flag();
    let enable_warped_motion: bool = r.flag();
    let enable_dual_filter: bool = r.flag();
    let enable_order_hint: bool = r.flag();
    let mut enable_jnt_comp: bool = false;
    let mut enable_ref_frame_mvs: bool = false;
    if enable_order_hint {
        enable_jnt_comp = r.flag();
        enable_ref_frame_mvs = r.flag();
    }
    SeqInter {
        enable_interintra_compound,
        enable_masked_compound,
        enable_warped_motion,
        enable_dual_filter,
        enable_order_hint,
        enable_jnt_comp,
        enable_ref_frame_mvs,
    }
}

/// The screen content tools.
pub struct SeqScreen {
    pub seq_choose_screen_content_tools: bool,
    pub seq_force_screen_content_tools: bool,
    pub seq_choose_integer_mv: bool,
    pub seq_force_integer_mv: bool,
    pub order_hint_bits_minus_1: u8,
}

impl SeqScreen {
    /// The fields of `s`.
    #[verifier::opaque]
    pub open spec fn of(s: SequenceHeaderObu) -> Self {
        SeqScreen {
            seq_choose_screen_content_tools: s.seq_choose_screen_content_tools,
            seq_force_screen_content_tools: s.seq_force_screen_content_tools,
            seq_choose_integer_mv: s.seq_choose_integer_mv,
            seq_force_integer_mv: s.seq_force_integer_mv,
            order_hint_bits_minus_1: s.order_hint_bits_minus_1,
        }
    }

    /// Whether `s` holds these fields.
    pub open spec fn fills(self, s: SequenceHeaderObu) -> bool {
        Self::of(s) == self
    }

    /// Whether the fields that are coded of `v` are these.
    #[verifier::opaque]
    pub open spec fn same(self, v: SequenceHeaderObu, enable_order_hint: bool) -> bool {
        &&& self.seq_choose_screen_content_tools == v.seq_choose_screen_content_tools
        &&& !v.seq_choose_screen_content_tools
            ==> self.seq_force_screen_content_tools == v.seq_force_screen_content_tools
        &&& (v.seq_choose_screen_content_tools || v.seq_force_screen_content_tools)
            ==> self.seq_choose_integer_mv == v.seq_choose_integer_mv
        &&& (v.seq_choose_screen_content_tools || v.seq_force_screen_content_tools)
            && !v.seq_choose_integer_mv
            ==> self.seq_force_integer_mv == v.seq_force_integer_mv
        &&& enable_order_hint ==> self.order_hint_bits_minus_1 == v.order_hint_bits_minus_1
    }
}

/// The screen content tools.
pub(crate) fn parse_seq_screen(r: &mut BitReader, enable_order_hint: bool) -> (f: SeqScreen)
    requires
        old(r).inv(),
    ensures
        final(r).inv(),
        final(r)@ is Some ==> old(r)@ is Some,
        forall|s: SequenceHeaderObu| s.enable_order_hint == enable_order_hint && f.fills(s)
            ==> decodes(old(r)@, #[trigger] seq_screen_syntax(s), final(r)@),
        forall|v: SequenceHeaderObu, rest: Seq<bool>|
            v.enable_order_hint == enable_order_hint
                && old(r)@ == Some(#[trigger] seq_screen_syntax(v).onto(rest))
                && seq_screen_syntax(v).fits()
                ==> final(r)@ == Some(
                rest,
            ) && f.same(v, enable_order_hint),
{
    proof {
        lemma_pow2_values();
        reveal(seq_screen_syntax);
        reveal(SeqScreen::of);
        reveal(SeqScreen::same);
    }
    let seq_choose_screen_content_tools: bool = r.flag();
    let mut seq_force_screen_content_tools: bool = false;
    if !seq_choose_screen_content_tools {
        seq_force_screen_content_tools = r.flag();
    }
    let mut seq_choose_integer_mv: bool = true;
    let mut seq_force_integer_mv: bool = false;
    if seq_choose_screen_content_tools || seq_force_screen_content_tools {
        seq_choose_integer_mv = r.flag();
        if !seq_choose_integer_mv {
            seq_force_integer_mv = r.flag();
        }
    }
    let mut order_hint_bits_minus_1: u8 = 0;
    if enable_order_hint {
        order_hint_bits_minus_1 = r.u(3) as u8;
    }
    SeqScreen {
        seq_choose_screen_content_tools,
        seq_force_screen_content_tools,
        seq_choose_integer_mv,
        seq_force_integer_mv,
        order_hint_bits_minus_1,
    }
}

/// The filters.
pub struct SeqFilter {
    pub enable_superres: bool,
    pub enable_cdef: bool,
    pub enable_restoration: bool,
}

impl SeqFilter {
    /// The fields of `s`.
    #[verifier::opaque]
    pub open spec fn of(s: SequenceHeaderObu) -> Self {
        SeqFilter {
            enable_superres: s.enable_superres,
            enable_cdef: s.enable_cdef,
            enable_restoration: s.enable_restoration,
        }
    }

    /// Whether `s` holds these fields.
    pub open spec fn fills(self, s: SequenceHeaderObu) -> bool {
        Self::of(s) == self
    }

    /// Whether the fields that are coded of `v` are these.
    #[verifier::opaque]
    pub open spec fn same(self, v: SequenceHeaderObu) -> bool {
        &&& self.enable_superres == v.enable_superres
        &&& self.enable_cdef == v.enable_cdef
        &&& self.enable_restoration == v.enable_restoration
    }
}

/// The filters.
pub(crate) fn parse_seq_filter(r: &mut BitReader) -> (f: SeqFilter)
    requires
        old(r).inv(),
    ensures
        final(r).inv(),
        final(r)@ is Some ==> old(r)@ is Some,
        forall|s: SequenceHeaderObu| f.fills(s)
            ==> decodes(old(r)@, #[trigger] seq_filter_syntax(s), final(r)@),
        forall|v: SequenceHeaderObu, rest: Seq<bool>|
            old(r)@ == Some(#[trigger] seq_filter_syntax(v).onto(rest))
                && seq_filter_syntax(v).fits()
                ==> final(r)@ == Some(
                rest,
            ) && f.same(v),
{
    proof {
        reveal(seq_filter_syntax);
        reveal(SeqFilter::of);
        reveal(SeqFilter::same);
    }
    let enable_superres: bool = r.flag();
    let enable_cdef: bool = r.flag();
    let enable_restoration: bool = r.flag();
    SeqFilter {
        enable_superres,
        enable_cdef,
        enable_restoration,
    }
}

/// The bit depth and the colour description.
pub struct ColorHead {
    pub high_bitdepth: bool,
    pub twelve_bit: bool,
    pub mono_chrome: bool,
    pub color_description_present_flag: bool,
    pub color_primaries: ColorPrimaries,
    pub transfer_characteristics: TransferCharacteristics,
    pub matrix_coefficients: MatrixCoefficients,
}

impl ColorHead {
    /// The fields of `s`.
    #[verifier::opaque]
    pub open spec fn of(s: ColorConfig) -> Self {
        ColorHead {
            high_bitdepth: s.high_bitdepth,
            twelve_bit: s.twelve_bit,
            mono_chrome: s.mono_chrome,
            color_description_present_flag: s.color_description_present_flag,
            color_primaries: s.color_primaries,
            transfer_characteristics: s.transfer_characteristics,
            matrix_coefficients: s.matrix_coefficients,
        }
    }

    /// Whether `s` holds these fields.
    pub open spec fn fills(self, s: ColorConfig) -> bool {
        Self::of(s) == self
    }

    /// Whether the fields that are coded of `v` are these.
    #[verifier::opaque]
    pub open spec fn same(self, v: ColorConfig, profile: Profile) -> bool {
        &&& self.high_bitdepth == v.high_bitdepth
        &&& profile == Profile::Profile2 && v.high_bitdepth ==> self.twelve_bit == v.twelve_bit
        &&& profile != Profile::Profile1 ==> self.mono_chrome == v.mono_chrome
        &&& self.color_description_present_flag == v.color_description_present_flag
        &&& v.color_description_present_flag ==> self.color_primaries == v.color_primaries
        &&& v.color_description_present_flag
            ==> self.transfer_characteristics == v.transfer_characteristics
        &&& v.color_description_present_flag ==> self.matrix_coefficients == v.matrix_coefficients
    }
}

/// The bit depth and the colour description.
pub(crate) fn parse_color_head(r: &mut BitReader, profile: Profile) -> (f: ColorHead)
    requires
        old(r).inv(),
    ensures
        final(r).inv(),
        final(r)@ is Some ==> old(r)@ is Some,
        forall|s: ColorConfig| f.fills(s)
            ==> decodes(old(r)@, #[trigger] color_head_syntax(s, profile), final(r)@),
        forall|v: ColorConfig, rest: Seq<bool>|
            old(r)@ == Some(#[trigger] color_head_syntax(v, profile).onto(rest))
                && color_head_syntax(v, profile).fits() && v.inferred(profile)
                ==> final(r)@ == Some(
                rest,
            ) && f.same(v, profile),
        !(profile == Profile::Profile2 && f.high_bitdepth) ==> !f.twelve_bit,
        profile == Profile::Profile1 ==> !f.mono_chrome,
        !f.color_description_present_flag ==> {
            &&& f.color_primaries == ColorPrimaries::Unspecified
            &&& f.transfer_characteristics == TransferCharacteristics::Unspecified
            &&& f.matrix_coefficients == MatrixCoefficients::Unspecified
        },
{
    proof {
        reveal(color_head_syntax);
        reveal(ColorHead::of);
        reveal(ColorHead::same);
    }
    let high_bitdepth: bool = r.flag();
    let mut twelve_bit: bool = false;
    if profile == Profile::Profile2 && high_bitdepth {
        twelve_bit = r.flag();
    }
    let mut mono_chrome: bool = false;
    if profile != Profile::Profile1 {
        mono_chrome = r.flag();
    }
    let color_description_present_flag: bool = r.flag();
    let mut color_primaries: ColorPrimaries = ColorPrimaries::Unspecified;
    let mut transfer_characteristics: TransferCharacteristics = TransferCharacteristics::Unspecified;
    let mut matrix_coefficients: MatrixCoefficients = MatrixCoefficients::Unspecified;
    if color_description_present_flag {
        color_primaries = parse_color_primaries(r);
        transfer_characteristics = parse_transfer_characteristics(r);
        matrix_coefficients = parse_matrix_coefficients(r);
    }
    ColorHead {
        high_bitdepth,
        twelve_bit,
        mono_chrome,
        color_description_present_flag,
        color_primaries,
        transfer_characteristics,
        matrix_coefficients,
    }
}

/// The range and the chroma format.
pub struct ColorTail {
    pub color_range: bool,
    pub subsampling_x: bool,
    pub subsampling_y: bool,
    pub chroma_sample_position: u8,
    pub separate_uv_delta_q: bool,
}

impl ColorTail {
    /// Whether `s` holds these fields.
    pub open spec fn fills(self, s: ColorConfig) -> bool {
        &&& s.color_range == self.color_range
        &&& s.subsampling_x == self.subsampling_x
        &&& s.subsampling_y == self.subsampling_y
        &&& s.chroma_sample_position == self.chroma_sample_position
        &&& s.separate_uv_delta_q == self.separate_uv_delta_q
    }

    /// Whether the fields that are coded of `v`, or inferred from its profile, are these.
    pub open spec fn same(self, v: ColorConfig) -> bool {
        &&& v.mono_chrome || !v.srgb() ==> self.color_range == v.color_range
        &&& !v.mono_chrome ==> self.separate_uv_delta_q == v.separate_uv_delta_q
        &&& !v.mono_chrome && !v.srgb() ==> {
            &&& self.subsampling_x == v.subsampling_x
            &&& self.subsampling_y == v.subsampling_y
            &&& v.subsampling_x && v.subsampling_y
                ==> self.chroma_sample_position == v.chroma_sample_position
        }
    }
}

/// The range and the chroma format behind `h`.
fn parse_color_tail(r: &mut BitReader, h: &ColorHead, profile: Profile) -> (f: ColorTail)
    requires
        old(r).inv(),
        !(profile == Profile::Profile2 && h.high_bitdepth) ==> !h.twelve_bit,
    ensures
        final(r).inv(),
        final(r)@ is Some ==> old(r)@ is Some,
        forall|s: ColorConfig|
            h.fills(s) && f.fills(s)
                ==> {
                    &&& decodes(old(r)@, #[trigger] color_tail_syntax(s, profile), final(r)@)
                    &&& profile == Profile::Profile0 && !s.mono_chrome && !s.srgb()
                        ==> s.subsampling_x && s.subsampling_y
                    &&& profile == Profile::Profile1 && !s.mono_chrome && !s.srgb()
                        ==> !s.subsampling_x && !s.subsampling_y
                    &&& profile == Profile::Profile2 && !s.mono_chrome && !s.srgb() ==> {
                        &&& !s.twelve_bit ==> s.subsampling_x
                        &&& !s.twelve_bit || !s.subsampling_x ==> !s.subsampling_y
                    }
                },
        forall|v: ColorConfig, rest: Seq<bool>|
            h.mono_chrome == v.mono_chrome && h.twelve_bit == v.twelve_bit
                && h.color_primaries == v.color_primaries
                && h.transfer_characteristics == v.transfer_characteristics
                && h.matrix_coefficients == v.matrix_coefficients
                && old(r)@ == Some(#[trigger] color_tail_syntax(v, profile).onto(rest))
                && color_tail_syntax(v, profile).fits() && v.inferred(profile)
                ==> final(r)@ == Some(rest) && f.same(v),
{
    proof {
        lemma_pow2_values();
        reveal(color_tail_syntax);
        reveal(ColorHead::of);
    }
    let mut color_range: bool = true;
    let mut subsampling_x: bool = false;
    let mut subsampling_y: bool = false;
    let mut chroma_sample_position: u8 = 0;
    let mut separate_uv_delta_q: bool = false;
    let srgb = h.color_primaries == ColorPrimaries::Bt709
        && h.transfer_characteristics == TransferCharacteristics::Srgb
        && h.matrix_coefficients == MatrixCoefficients::Identity;
    if h.mono_chrome {
        subsampling_x = true;
        subsampling_y = true;
        color_range = r.flag();
    } else if srgb {
        separate_uv_delta_q = r.flag();
    } else {
        color_range = r.flag();
        if profile == Profile::Profile0 {
            subsampling_x = true;
            subsampling_y = true;
        } else if profile == Profile::Profile2 {
            if h.twelve_bit {
                subsampling_x = r.flag();
                if subsampling_x {
                    subsampling_y = r.flag();
                }
            } else {
                subsampling_x = true;
            }
        }
        if subsampling_x && subsampling_y {
            chroma_sample_position = r.u(2) as u8;
        }
        separate_uv_delta_q = r.flag();
    }
    assemble_color_tail(
        color_range,
        subsampling_x,
        subsampling_y,
        chroma_sample_position,
        separate_uv_delta_q,
    )
}

/// The structure that holds these fields.
fn assemble_color_tail(
    color_range: bool,
    subsampling_x: bool,
    subsampling_y: bool,
    chroma_sample_position: u8,
    separate_uv_delta_q: bool,
) -> (f: ColorTail)
    ensures
        f.color_range == color_range,
        f.subsampling_x == subsampling_x,
        f.subsampling_y == subsampling_y,
        f.chroma_sample_position == chroma_sample_position,
        f.separate_uv_delta_q == separate_uv_delta_q,
{
    ColorTail { color_range, subsampling_x, subsampling_y, chroma_sample_position, separate_uv_delta_q }
}

/// Whether the fields that are coded of `v` are those of `p`.
pub open spec fn color_same(p: ColorConfig, v: ColorConfig, profile: Profile) -> bool {
    &&& ColorHead::of(p).same(v, profile)
    &&& p.high_bitdepth == v.high_bitdepth
    &&& p.twelve_bit == v.twelve_bit
    &&& p.mono_chrome == v.mono_chrome
    &&& p.color_description_present_flag == v.color_description_present_flag
    &&& p.color_primaries == v.color_primaries
    &&& p.transfer_characteristics == v.transfer_characteristics
    &&& p.matrix_coefficients == v.matrix_coefficients
    &&& (ColorTail {
        color_range: p.color_range,
        subsampling_x: p.subsampling_x,
        subsampling_y: p.subsampling_y,
        chroma_sample_position: p.chroma_sample_position,
        separate_uv_delta_q: p.separate_uv_delta_q,
    }).same(v)
}

/// The structure that holds these fields.
fn assemble_color(h: ColorHead, t: ColorTail) -> (c: ColorConfig)
    ensures
        h.fills(c),
        t.fills(c),
{
    proof {
        reveal(ColorHead::of);
    }
    ColorConfig {
        high_bitdepth: h.high_bitdepth,
        twelve_bit: h.twelve_bit,
        mono_chrome: h.mono_chrome,
        color_description_present_flag: h.color_description_present_flag,
        color_primaries: h.color_primaries,
        transfer_characteristics: h.transfer_characteristics,
        matrix_coefficients: h.matrix_coefficients,
        color_range: t.color_range,
        subsampling_x: t.subsampling_x,
        subsampling_y: t.subsampling_y,
        chroma_sample_position: t.chroma_sample_position,
        separate_uv_delta_q: t.separate_uv_delta_q,
    }
}

/// `color_config()` (5.5.2).
#[verifier::rlimit(40)]
fn parse_color_config(r: &mut BitReader, profile: Profile) -> (c: ColorConfig)
    requires
        old(r).inv(),
    ensures
        final(r).inv(),
        decodes(old(r)@, color_config_syntax(c, profile), final(r)@),
        c.inferred(profile),
        forall|v: ColorConfig, rest: Seq<bool>|
            old(r)@ == Some(#[trigger] color_config_syntax(v, profile).onto(rest))
                && color_config_syntax(
                v,
                profile,
            ).fits() && v.inferred(profile)
                ==> final(r)@ == Some(rest) && color_same(c, v, profile),
{
    proof {
        reveal(color_config_syntax);
        reveal(ColorHead::of);
        reveal(ColorHead::same);
    }
    let ghost start = r@;
    let h = parse_color_head(r, profile);
    let ghost b1 = r@;
    let t = parse_color_tail(r, &h, profile);
    let c = assemble_color(h, t);
    proof {
        let table = color_tail_syntax(c, profile);
        assert(decodes(b1, table, r@));
        assert forall|v: ColorConfig, rest: Seq<bool>|
            start == Some(#[trigger] color_config_syntax(v, profile).onto(rest))
                && color_config_syntax(
                v,
                profile,
            ).fits() && v.inferred(profile)
                implies r@ == Some(rest) && color_same(c, v, profile) by {
            assert(b1 == Some(color_tail_syntax(v, profile).onto(rest)));
            assert(h.color_primaries == v.color_primaries);
            assert(h.transfer_characteristics == v.transfer_characteristics);
            assert(h.matrix_coefficients == v.matrix_coefficients);
            assert(r@ == Some(rest));
        }
    }
    c
}

/// `BitDepth` (5.5.2).
fn derive_bit_depth(profile: Profile, c: &ColorConfig) -> (d: BitDepth)
    ensures
        forall|s: SequenceHeaderObu| s.seq_profile == profile && s.color_config == *c
            ==> d == #[trigger] s.coded_bit_depth(),
{
    if profile == Profile::Profile2 && c.high_bitdepth {
        if c.twelve_bit {
            BitDepth::Depth12
        } else {
            BitDepth::Depth10
        }
    } else if c.high_bitdepth {
        BitDepth::Depth10
    } else {
        BitDepth::Depth8
    }
}

/// Whether the fields that are coded of `v` are those of `p`.
pub open spec fn sequence_same(p: SequenceHeaderObu, v: SequenceHeaderObu) -> bool {
    &&& SeqGeneral::of(p).same(v)
    &&& SeqFrame::of(p).same(v)
    &&& SeqInter::of(p).same(v)
    &&& SeqScreen::of(p).same(v, p.enable_order_hint)
    &&& SeqFilter::of(p).same(v)
    &&& color_same(p.color_config, v.color_config, v.seq_profile)
    &&& p.film_grain_params_present == v.film_grain_params_present
    &&& p.bit_depth == v.bit_depth
}

/// The structure that holds these fields.
fn assemble_sequence_header(
    general: SeqGeneral,
    frame: SeqFrame,
    inter: SeqInter,
    screen: SeqScreen,
    filter: SeqFilter,
    color_config: ColorConfig,
    film_grain_params_present: bool,
    bit_depth: BitDepth,
) -> (p: SequenceHeaderObu)
    ensures
        general.fills(p),
        frame.fills(p),
        inter.fills(p),
        screen.fills(p),
        filter.fills(p),
        p.color_config == color_config,
        p.film_grain_params_present == film_grain_params_present,
        p.bit_depth == bit_depth,
{
    proof {
        reveal(SeqGeneral::of);
        reveal(SeqFrame::of);
        reveal(SeqInter::of);
        reveal(SeqScreen::of);
        reveal(SeqFilter::of);
    }
    SequenceHeaderObu {
        seq_profile: general.seq_profile,
        still_picture: general.still_picture,
        operating_point_idc: general.operating_point_idc,
        seq_level_idx: general.seq_level_idx,
        seq_tier: general.seq_tier,
        frame_width_bits_minus_1: frame.frame_width_bits_minus_1,
        frame_height_bits_minus_1: frame.frame_height_bits_minus_1,
        max_frame_width_minus_1: frame.max_frame_width_minus_1,
        max_frame_height_minus_1: frame.max_frame_height_minus_1,
        use_128x128_superblock: frame.use_128x128_superblock,
        enable_filter_intra: frame.enable_filter_intra,
        enable_intra_edge_filter: frame.enable_intra_edge_filter,
        enable_interintra_compound: inter.enable_interintra_compound,
        enable_masked_compound: inter.enable_masked_compound,
        enable_warped_motion: inter.enable_warped_motion,
        enable_dual_filter: inter.enable_dual_filter,
        enable_order_hint: inter.enable_order_hint,
        enable_jnt_comp: inter.enable_jnt_comp,
        enable_ref_frame_mvs: inter.enable_ref_frame_mvs,
        seq_choose_screen_content_tools: screen.seq_choose_screen_content_tools,
        seq_force_screen_content_tools: screen.seq_force_screen_content_tools,
        seq_choose_integer_mv: screen.seq_choose_integer_mv,
        seq_force_integer_mv: screen.seq_force_integer_mv,
        order_hint_bits_minus_1: screen.order_hint_bits_minus_1,
        enable_superres: filter.enable_superres,
        enable_cdef: filter.enable_cdef,
        enable_restoration: filter.enable_restoration,
        color_config,
        film_grain_params_present,
        bit_depth,
    }
}

/// `sequence_header_obu()` (5.5.1), without the trailing bits.
#[verifier::rlimit(40)]
pub(crate) fn parse_sequence_header(r: &mut BitReader) -> (p: SequenceHeaderObu)
    requires
        old(r).inv(),
    ensures
        final(r).inv(),
        decodes(old(r)@, sequence_header_syntax(p), final(r)@),
        p.inferred(),
        forall|v: SequenceHeaderObu, rest: Seq<bool>|
            old(r)@ == Some(#[trigger] sequence_header_syntax(v).onto(rest))
                && sequence_header_syntax(v).fits() && v.inferred()
                ==> final(r)@ == Some(
                rest,
            ) && sequence_same(p, v),
{
    proof {
        reveal(sequence_header_syntax);
        reveal(SeqGeneral::of);
        reveal(SeqGeneral::same);
        reveal(SeqInter::of);
        reveal(SeqInter::same);
    }
    let general = parse_seq_general(r);
    let frame = parse_seq_frame(r);
    let inter = parse_seq_inter(r);
    let screen = parse_seq_screen(r, inter.enable_order_hint);
    let filter = parse_seq_filter(r);
    let color_config: ColorConfig = parse_color_config(r, general.seq_profile);
    let film_grain_params_present: bool = r.flag();
    let bit_depth: BitDepth = derive_bit_depth(general.seq_profile, &color_config);
    let p = assemble_sequence_header(
        general,
        frame,
        inter,
        screen,
        filter,
        color_config,
        film_grain_params_present,
        bit_depth,
    );
    proof {
        assert(p.seq_profile == general.seq_profile);
        assert(p.bit_depth == p.coded_bit_depth());
    }
    p
}

} // verus!
