//! The AV1 syntax tables of the sequence header.

use crate::codec::av1::types::{
    ColorConfig, ColorPrimaries, MatrixCoefficients, Profile, SequenceHeaderObu,
    TransferCharacteristics,
};
use crate::syntax::{syntax, Syntax};
use vstd::prelude::*;

verus! {

/// The profile and the operating point.
#[verifier::opaque]
pub open spec fn seq_general_syntax(s: SequenceHeaderObu) -> Syntax {
    syntax()
        .u(3, s.seq_profile.code() as int)
        .flag(s.still_picture)
        .flag(false)
        .flag(false)
        .flag(false)
        .u(5, 0)
        .u(12, s.operating_point_idc as int)
        .u(5, s.seq_level_idx as int)
        .when(s.seq_level_idx > 7, syntax().flag(s.seq_tier))
}

/// The frame size and the intra tools.
#[verifier::opaque]
pub open spec fn seq_frame_syntax(s: SequenceHeaderObu) -> Syntax {
    syntax()
        .u(4, s.frame_width_bits_minus_1 as int)
        .u(4, s.frame_height_bits_minus_1 as int)
        .u(s.frame_width_bits_minus_1 + 1, s.max_frame_width_minus_1 as int)
        .u(s.frame_height_bits_minus_1 + 1, s.max_frame_height_minus_1 as int)
        .flag(false)
        .flag(s.use_128x128_superblock)
        .flag(s.enable_filter_intra)
        .flag(s.enable_intra_edge_filter)
}

/// The inter tools.
#[verifier::opaque]
pub open spec fn seq_inter_syntax(s: SequenceHeaderObu) -> Syntax {
    syntax()
        .flag(s.enable_interintra_compound)
        .flag(s.enable_masked_compound)
        .flag(s.enable_warped_motion)
        .flag(s.enable_dual_filter)
        .flag(s.enable_order_hint)
        .when(s.enable_order_hint, syntax().flag(s.enable_jnt_comp).flag(s.enable_ref_frame_mvs))
}

/// The screen content tools.
#[verifier::opaque]
pub open spec fn seq_screen_syntax(s: SequenceHeaderObu) -> Syntax {
    syntax()
        .flag(s.seq_choose_screen_content_tools)
        .when(!s.seq_choose_screen_content_tools, syntax().flag(s.seq_force_screen_content_tools))
        .when(
            s.seq_choose_screen_content_tools || s.seq_force_screen_content_tools,
            syntax()
                .flag(s.seq_choose_integer_mv)
                .when(!s.seq_choose_integer_mv, syntax().flag(s.seq_force_integer_mv)),
        )
        .when(s.enable_order_hint, syntax().u(3, s.order_hint_bits_minus_1 as int))
}

/// The filters.
#[verifier::opaque]
pub open spec fn seq_filter_syntax(s: SequenceHeaderObu) -> Syntax {
    syntax().flag(s.enable_superres).flag(s.enable_cdef).flag(s.enable_restoration)
}

/// The bit depth and the colour description.
#[verifier::opaque]
pub open spec fn color_head_syntax(c: ColorConfig, profile: Profile) -> Syntax {
    syntax()
        .flag(c.high_bitdepth)
        .when(profile == Profile::Profile2 && c.high_bitdepth, syntax().flag(c.twelve_bit))
        .when(profile != Profile::Profile1, syntax().flag(c.mono_chrome))
        .flag(c.color_description_present_flag)
        .when(
            c.color_description_present_flag,
            syntax()
                .u(8, c.color_primaries.code() as int)
                .u(8, c.transfer_characteristics.code() as int)
                .u(8, c.matrix_coefficients.code() as int),
        )
}

/// The range and the chroma format.
#[verifier::opaque]
pub open spec fn color_tail_syntax(c: ColorConfig, profile: Profile) -> Syntax {
    if c.mono_chrome {
        syntax().flag(c.color_range)
    } else if c.srgb() {
        syntax().flag(c.separate_uv_delta_q)
    } else {
        syntax()
            .flag(c.color_range)
            .when(
                profile == Profile::Profile2 && c.twelve_bit,
                syntax().flag(c.subsampling_x).when(c.subsampling_x, syntax().flag(c.subsampling_y)),
            )
            .when(c.subsampling_x
                && c.subsampling_y, syntax().u(2, c.chroma_sample_position as int))
            .flag(c.separate_uv_delta_q)
    }
}

/// `color_config()` (5.5.2).
#[verifier::opaque]
pub open spec fn color_config_syntax(c: ColorConfig, profile: Profile) -> Syntax {
    color_head_syntax(c, profile).part(color_tail_syntax(c, profile))
}

/// `sequence_header_obu()` (5.5.1), without the trailing bits.
#[verifier::opaque]
pub open spec fn sequence_header_syntax(s: SequenceHeaderObu) -> Syntax {
    seq_general_syntax(s)
        .part(seq_frame_syntax(s))
        .part(seq_inter_syntax(s))
        .part(seq_screen_syntax(s))
        .part(seq_filter_syntax(s))
        .part(color_config_syntax(s.color_config, s.seq_profile))
        .flag(s.film_grain_params_present)
}

impl ColorConfig {
    /// Whether what is not coded, and decides on what is, has its inferred value.
    pub open spec fn inferred(self, profile: Profile) -> bool {
        &&& !(profile == Profile::Profile2 && self.high_bitdepth) ==> !self.twelve_bit
        &&& profile == Profile::Profile1 ==> !self.mono_chrome
        &&& !self.color_description_present_flag ==> {
            &&& self.color_primaries == ColorPrimaries::Unspecified
            &&& self.transfer_characteristics == TransferCharacteristics::Unspecified
            &&& self.matrix_coefficients == MatrixCoefficients::Unspecified
        }
        &&& !self.mono_chrome && !self.srgb() ==> {
            &&& profile == Profile::Profile0 ==> self.subsampling_x && self.subsampling_y
            &&& profile == Profile::Profile1 ==> !self.subsampling_x && !self.subsampling_y
            &&& profile == Profile::Profile2 && !self.twelve_bit
                ==> self.subsampling_x && !self.subsampling_y
            &&& profile == Profile::Profile2 && self.twelve_bit && !self.subsampling_x
                ==> !self.subsampling_y
        }
    }
}

impl SequenceHeaderObu {
    /// Whether what is not coded, and decides on what is, has its inferred value.
    pub open spec fn inferred(self) -> bool {
        &&& self.color_config.inferred(self.seq_profile)
        &&& self.bit_depth == self.coded_bit_depth()
    }
}

} // verus!
