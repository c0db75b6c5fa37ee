//! What the sequence header OBU holds: its syntax elements in their order, each by its descriptor
//! and its value, as a decoder reads them.

use crate::bits::{lemma_pow2_pos, lemma_pow2_split, lemma_pow2_values, pow2};
use crate::codec::av1::leb128::leb128;
use crate::codec::av1::synthesizer::{obu_payload, Synthesizer, SynthesizerResult};
use crate::codec::av1::tables::{
    color_config_syntax, color_head_syntax, color_tail_syntax, seq_filter_syntax, seq_frame_syntax,
    seq_general_syntax, seq_inter_syntax, seq_screen_syntax, sequence_header_syntax,
};
use crate::codec::av1::types::{
    ColorConfig, ColorPrimaries, MatrixCoefficients, ObuType, Profile, SequenceHeaderObu,
    TransferCharacteristics,
};
use crate::reading::{
    consists_of, elements, group_elements, holds, law_bytes_hold_the_elements, lemma_bits,
    lemma_elements_part, lemma_elements_push, told,
};
use crate::syntax::lemma_written_fits;
use vstd::prelude::*;

verus! {

broadcast use lemma_elements_part;

/// `color_config()` (5.5.2).
pub proof fn law_color_config_elements(c: ColorConfig, profile: Profile)
    ensures
        consists_of(
            color_config_syntax(c, profile),
            elements()
                .bit(c.high_bitdepth)
                .only(profile == Profile::Profile2 && c.high_bitdepth, elements().bit(c.twelve_bit))
                .only(profile != Profile::Profile1, elements().bit(c.mono_chrome))
                .bit(c.color_description_present_flag)
                .only(
                    c.color_description_present_flag,
                    elements()
                        .bits(8, c.color_primaries.code() as int)
                        .bits(8, c.transfer_characteristics.code() as int)
                        .bits(8, c.matrix_coefficients.code() as int),
                )
                .all(
                    if c.mono_chrome {
                        elements().bit(c.color_range)
                    } else if c.color_primaries == ColorPrimaries::Bt709 && c.transfer_characteristics
                        == TransferCharacteristics::Srgb && c.matrix_coefficients == MatrixCoefficients::Identity {
                        elements().bit(c.separate_uv_delta_q)
                    } else {
                        elements()
                            .bit(c.color_range)
                            .only(
                                profile == Profile::Profile2 && c.twelve_bit,
                                elements().bit(c.subsampling_x).only(
                                    c.subsampling_x,
                                    elements().bit(c.subsampling_y),
                                ),
                            )
                            .only(c.subsampling_x
                                && c.subsampling_y, elements().bits(2, c.chroma_sample_position as int))
                            .bit(c.separate_uv_delta_q)
                    },
                ),
        ),
{
    assert(consists_of(
        color_head_syntax(c, profile),
        elements()
            .bit(c.high_bitdepth)
            .only(profile == Profile::Profile2 && c.high_bitdepth, elements().bit(c.twelve_bit))
            .only(profile != Profile::Profile1, elements().bit(c.mono_chrome))
            .bit(c.color_description_present_flag)
            .only(
                c.color_description_present_flag,
                elements()
                    .bits(8, c.color_primaries.code() as int)
                    .bits(8, c.transfer_characteristics.code() as int)
                    .bits(8, c.matrix_coefficients.code() as int),
            ),
    )) by {
        broadcast use group_elements;

        reveal(color_head_syntax);
    }
    assert(consists_of(
        color_tail_syntax(c, profile),
        if c.mono_chrome {
            elements().bit(c.color_range)
        } else if c.color_primaries == ColorPrimaries::Bt709 && c.transfer_characteristics
            == TransferCharacteristics::Srgb && c.matrix_coefficients == MatrixCoefficients::Identity {
            elements().bit(c.separate_uv_delta_q)
        } else {
            elements()
                .bit(c.color_range)
                .only(
                    profile == Profile::Profile2 && c.twelve_bit,
                    elements().bit(c.subsampling_x).only(
                        c.subsampling_x,
                        elements().bit(c.subsampling_y),
                    ),
                )
                .only(c.subsampling_x
                    && c.subsampling_y, elements().bits(2, c.chroma_sample_position as int))
                .bit(c.separate_uv_delta_q)
        },
    )) by {
        broadcast use group_elements;

        reveal(color_tail_syntax);
    }
    reveal(color_config_syntax);
}

/// `sequence_header_obu()` (5.5.1): what a sequence header is coded as, in the order in which it is
/// read. It has one operating point, and no timing information, display delay or frame numbers.
pub proof fn law_sequence_header_elements(s: SequenceHeaderObu)
    ensures
        consists_of(
            sequence_header_syntax(s),
            elements()
                .bits(3, s.seq_profile.code() as int)
                .bit(s.still_picture)
                .bit(false)
                .bit(false)
                .bit(false)
                .bits(5, 0)
                .bits(12, s.operating_point_idc as int)
                .bits(5, s.seq_level_idx as int)
                .only(s.seq_level_idx > 7, elements().bit(s.seq_tier))
                .all(
                    elements()
                        .bits(4, s.frame_width_bits_minus_1 as int)
                        .bits(4, s.frame_height_bits_minus_1 as int)
                        .bits(s.frame_width_bits_minus_1 + 1, s.max_frame_width_minus_1 as int)
                        .bits(s.frame_height_bits_minus_1 + 1, s.max_frame_height_minus_1 as int)
                        .bit(false)
                        .bit(s.use_128x128_superblock)
                        .bit(s.enable_filter_intra)
                        .bit(s.enable_intra_edge_filter),
                )
                .all(
                    elements()
                        .bit(s.enable_interintra_compound)
                        .bit(s.enable_masked_compound)
                        .bit(s.enable_warped_motion)
                        .bit(s.enable_dual_filter)
                        .bit(s.enable_order_hint)
                        .only(
                            s.enable_order_hint,
                            elements().bit(s.enable_jnt_comp).bit(s.enable_ref_frame_mvs),
                        ),
                )
                .all(
                    elements()
                        .bit(s.seq_choose_screen_content_tools)
                        .only(
                            !s.seq_choose_screen_content_tools,
                            elements().bit(s.seq_force_screen_content_tools),
                        )
                        .only(
                            s.seq_choose_screen_content_tools || s.seq_force_screen_content_tools,
                            elements()
                                .bit(s.seq_choose_integer_mv)
                                .only(
                                    !s.seq_choose_integer_mv,
                                    elements().bit(s.seq_force_integer_mv),
                                ),
                        )
                        .only(
                            s.enable_order_hint,
                            elements().bits(3, s.order_hint_bits_minus_1 as int),
                        ),
                )
                .all(
                    elements().bit(s.enable_superres).bit(s.enable_cdef).bit(s.enable_restoration),
                )
                .all(
                    told(color_config_syntax(s.color_config, s.seq_profile)),
                )
                .bit(s.film_grain_params_present),
        ),
{
    broadcast use {lemma_bits, lemma_elements_push};

    assert(consists_of(
        seq_general_syntax(s),
        elements()
            .bits(3, s.seq_profile.code() as int)
            .bit(s.still_picture)
            .bit(false)
            .bit(false)
            .bit(false)
            .bits(5, 0)
            .bits(12, s.operating_point_idc as int)
            .bits(5, s.seq_level_idx as int)
            .only(s.seq_level_idx > 7, elements().bit(s.seq_tier)),
    )) by {
        broadcast use group_elements;

        reveal(seq_general_syntax);
    }
    assert(consists_of(
        seq_frame_syntax(s),
        elements()
            .bits(4, s.frame_width_bits_minus_1 as int)
            .bits(4, s.frame_height_bits_minus_1 as int)
            .bits(s.frame_width_bits_minus_1 + 1, s.max_frame_width_minus_1 as int)
            .bits(s.frame_height_bits_minus_1 + 1, s.max_frame_height_minus_1 as int)
            .bit(false)
            .bit(s.use_128x128_superblock)
            .bit(s.enable_filter_intra)
            .bit(s.enable_intra_edge_filter),
    )) by {
        broadcast use group_elements;

        reveal(seq_frame_syntax);
    }
    assert(consists_of(
        seq_inter_syntax(s),
        elements()
            .bit(s.enable_interintra_compound)
            .bit(s.enable_masked_compound)
            .bit(s.enable_warped_motion)
            .bit(s.enable_dual_filter)
            .bit(s.enable_order_hint)
            .only(
                s.enable_order_hint,
                elements().bit(s.enable_jnt_comp).bit(s.enable_ref_frame_mvs),
            ),
    )) by {
        broadcast use group_elements;

        reveal(seq_inter_syntax);
    }
    assert(consists_of(
        seq_screen_syntax(s),
        elements()
            .bit(s.seq_choose_screen_content_tools)
            .only(
                !s.seq_choose_screen_content_tools,
                elements().bit(s.seq_force_screen_content_tools),
            )
            .only(
                s.seq_choose_screen_content_tools || s.seq_force_screen_content_tools,
                elements()
                    .bit(s.seq_choose_integer_mv)
                    .only(!s.seq_choose_integer_mv, elements().bit(s.seq_force_integer_mv)),
            )
            .only(s.enable_order_hint, elements().bits(3, s.order_hint_bits_minus_1 as int)),
    )) by {
        broadcast use group_elements;

        reveal(seq_screen_syntax);
    }
    assert(consists_of(
        seq_filter_syntax(s),
        elements().bit(s.enable_superres).bit(s.enable_cdef).bit(s.enable_restoration),
    )) by {
        broadcast use group_elements;

        reveal(seq_filter_syntax);
    }
    reveal(sequence_header_syntax);
}

/// The codes of the OBU types (6.2.2).
pub proof fn law_obu_type_codes()
    ensures
        ObuType::SequenceHeader.code() == 1,
        ObuType::TemporalDelimiter.code() == 2,
        ObuType::FrameHeader.code() == 3,
        ObuType::TileGroup.code() == 4,
        ObuType::Metadata.code() == 5,
        ObuType::Frame.code() == 6,
        ObuType::RedundantFrameHeader.code() == 7,
        ObuType::TileList.code() == 8,
        ObuType::Padding.code() == 15,
{
}

/// The codes of the profiles (6.4.1).
pub proof fn law_profile_codes()
    ensures
        Profile::Profile0.code() == 0,
        Profile::Profile1.code() == 1,
        Profile::Profile2.code() == 2,
{
}

/// The code points of the colour primaries (6.4.2).
pub proof fn law_color_primaries_codes()
    ensures
        ColorPrimaries::Bt709.code() == 1,
        ColorPrimaries::Unspecified.code() == 2,
        ColorPrimaries::Bt470M.code() == 4,
        ColorPrimaries::Bt470bg.code() == 5,
        ColorPrimaries::Bt601.code() == 6,
        ColorPrimaries::Smpte240.code() == 7,
        ColorPrimaries::GenericFilm.code() == 8,
        ColorPrimaries::Bt2020.code() == 9,
        ColorPrimaries::Xyz.code() == 10,
        ColorPrimaries::Smpte431.code() == 11,
        ColorPrimaries::Smpte432.code() == 12,
        ColorPrimaries::Ebu3213.code() == 22,
{
}

/// The code points of the transfer characteristics (6.4.2).
pub proof fn law_transfer_characteristics_codes()
    ensures
        TransferCharacteristics::Reserved0.code() == 0,
        TransferCharacteristics::Bt709.code() == 1,
        TransferCharacteristics::Unspecified.code() == 2,
        TransferCharacteristics::Reserved3.code() == 3,
        TransferCharacteristics::Bt470m.code() == 4,
        TransferCharacteristics::Bt470bg.code() == 5,
        TransferCharacteristics::Bt601.code() == 6,
        TransferCharacteristics::Smpte240.code() == 7,
        TransferCharacteristics::Linear.code() == 8,
        TransferCharacteristics::Log100.code() == 9,
        TransferCharacteristics::Log100Sqrt10.code() == 10,
        TransferCharacteristics::Iec61966.code() == 11,
        TransferCharacteristics::Bt1361.code() == 12,
        TransferCharacteristics::Srgb.code() == 13,
        TransferCharacteristics::Bt2020TenBit.code() == 14,
        TransferCharacteristics::Bt2020TwelveBit.code() == 15,
        TransferCharacteristics::Smpte2084.code() == 16,
        TransferCharacteristics::Smpte428.code() == 17,
        TransferCharacteristics::Hlg.code() == 18,
{
}

/// The code points of the matrix coefficients (6.4.2).
pub proof fn law_matrix_coefficients_codes()
    ensures
        MatrixCoefficients::Identity.code() == 0,
        MatrixCoefficients::Bt709.code() == 1,
        MatrixCoefficients::Unspecified.code() == 2,
        MatrixCoefficients::Reserved3.code() == 3,
        MatrixCoefficients::Fcc.code() == 4,
        MatrixCoefficients::Bt470bg.code() == 5,
        MatrixCoefficients::Bt601.code() == 6,
        MatrixCoefficients::Smpte240.code() == 7,
        MatrixCoefficients::Ycgco.code() == 8,
        MatrixCoefficients::Bt2020Ncl.code() == 9,
        MatrixCoefficients::Bt2020Cl.code() == 10,
        MatrixCoefficients::Smpte2085.code() == 11,
        MatrixCoefficients::ChromaDerivedNcl.code() == 12,
        MatrixCoefficients::ChromaDerivedCl.code() == 13,
        MatrixCoefficients::Ictcp.code() == 14,
{
}

/// Synthesizing a sequence header appends an OBU that tells its size: a byte for the header, the
/// number of bytes of the payload, and the payload, which holds the elements.
pub proof fn law_synthesized_sequence_header_is_carried(obu: &SequenceHeaderObu)
    requires
        sequence_header_syntax(*obu).fits(),
    ensures
        forall|out: &mut Vec<u8>, r: SynthesizerResult<()>| #[trigger]
            call_ensures(Synthesizer::<'_, SequenceHeaderObu>::synthesize, (obu, out), r) ==> {
                let payload = obu_payload(sequence_header_syntax(*obu));
                &&& r is Ok
                &&& final(out)@ == out@ + seq![0x0au8] + leb128(payload.len()) + payload
                &&& holds(payload, sequence_header_syntax(*obu).elements)
            },
{
    let table = sequence_header_syntax(*obu);
    lemma_written_fits(table);
    law_bytes_hold_the_elements(table);
    assert forall|out: &mut Vec<u8>, r: SynthesizerResult<()>| #[trigger]
        call_ensures(Synthesizer::<'_, SequenceHeaderObu>::synthesize, (obu, out), r) implies {
        let payload = obu_payload(table);
        &&& r is Ok
        &&& final(out)@ == out@ + seq![0x0au8] + leb128(payload.len()) + payload
        &&& holds(payload, table.elements)
    } by {
        let payload = obu_payload(table);
        assert(out@ + (seq![0x0au8] + leb128(payload.len()) + payload) =~= out@ + seq![0x0au8]
            + leb128(payload.len()) + payload);
    }
}

/// A number in groups of seven bits, the lowest first: a byte holds one group, and its highest bit
/// tells whether another one follows; and there are no more groups than the number needs.
pub proof fn law_leb128_groups(v: nat, i: int)
    requires
        0 <= i < leb128(v).len(),
    ensures
        leb128(v)[i] as int % 128 == (v as int / pow2((7 * i) as nat) as int) % 128,
        leb128(v)[i] >= 128 <==> i + 1 < leb128(v).len(),
        v < pow2((7 * leb128(v).len()) as nat),
        leb128(v).len() > 1 ==> leb128(v).last() != 0,
    decreases v,
{
    lemma_pow2_values();
    if v < 128 {
        assert(v as int / 1 == v);
    } else {
        let rest = leb128(v / 128);
        let s = leb128(v);
        assert(s =~= seq![(v % 128 + 128) as u8] + rest);
        let n = rest.len();
        lemma_leb128_len(v / 128);
        law_leb128_groups(v / 128, if i > 0 {
            i - 1
        } else {
            0
        });
        lemma_pow2_split(7, 7 * n);
        assert(7 + 7 * n == 7 * s.len());
        let m = pow2(7 * n) as int;
        assert(v < 128 * m) by (nonlinear_arith)
            requires
                v as int / 128 < m,
        ;
        assert(s.last() == rest.last());
        if i > 0 {
            assert(s[i] == rest[i - 1]);
            let p = pow2((7 * (i - 1)) as nat) as int;
            lemma_pow2_pos((7 * (i - 1)) as nat);
            lemma_pow2_split(7, (7 * (i - 1)) as nat);
            assert((7 + 7 * (i - 1)) as nat == (7 * i) as nat);
            vstd::arithmetic::div_mod::lemma_div_denominator(v as int, 128, p);
        } else {
            assert(s[0] == (v % 128 + 128) as u8);
            assert(v as int / 1 == v);
        }
    }
}

proof fn lemma_leb128_len(v: nat)
    ensures
        leb128(v).len() >= 1,
        v > 0 ==> leb128(v).last() != 0,
    decreases v,
{
    if v >= 128 {
        lemma_leb128_len(v / 128);
    }
}

} // verus!
