//! What the NAL units hold: the syntax elements of each structure in their order, each by its
//! descriptor and its value, as a decoder reads them.

use crate::bits::{lemma_bit_length, lemma_pow2_values, pack, pow2, with_trailing};
use crate::codec::emulation::escape;
use crate::codec::h265::synthesizer::{nalu_bytes, Synthesizer, SynthesizerResult};
use crate::codec::h265::tables::{
    constraint_syntax, count_true, cpbs_from, flags_from, has_14bit_flag, has_inbld_flag,
    has_one_picture_flag, has_range_flags, hrd_buffers_syntax, hrd_common_syntax, hrd_rate_syntax,
    hrd_row_syntax, hrd_rows_from, hrd_sub_pic_syntax, hrd_syntax, inbld_syntax, layer_sets_from,
    lt_row_syntax, lt_rows_from, ordered_s0, ordered_s1, poc_lsb_syntax, pps_extension_syntax,
    pps_filters_syntax, pps_head_syntax, pps_lists_syntax, pps_range_extension_syntax, pps_syntax,
    pps_tiles_syntax, pps_tools_syntax, profile_head_syntax, profile_syntax, ptl_syntax, pwt_syntax,
    qp_offset_list_syntax, qp_offsets_from, range_flags_syntax, reserved_pairs_from, rplm_syntax,
    s0_from, s1_from, scaling_list_data_syntax, slice_active_syntax, slice_address_syntax,
    slice_body_syntax, slice_collocated_syntax, slice_end_syntax, slice_entry_points_syntax,
    slice_filters_syntax, slice_independent_syntax, slice_inter_syntax, slice_lists_syntax,
    slice_lt_mvp_syntax, slice_lt_syntax, slice_offsets_syntax, slice_prediction_syntax,
    slice_qp_syntax, slice_references_syntax, slice_sao_syntax, slice_st_syntax, slice_syntax,
    slice_type_syntax, spec_ceil_log2, spec_profile_match, sps_blocks_syntax, sps_extension_syntax,
    sps_format_syntax, sps_head_syntax, sps_long_term_syntax, sps_lt_from, sps_ordering_from,
    sps_ordering_syntax, sps_range_extension_syntax, sps_scaling_syntax, sps_short_term_syntax,
    sps_st_rps_from, sps_syntax, sps_tail_syntax, sps_tools_syntax, sps_vui_syntax,
    st_ref_pic_set_syntax, sub_layer_flags_from, sub_layer_syntax, sub_layers_from,
    sublayer_hrd_syntax, ues_from, us_from, vps_head_syntax, vps_hrds_from, vps_layers_syntax,
    vps_ordering_from, vps_syntax, vps_timing_syntax, vui_display_syntax, vui_restriction_syntax,
    vui_signal_syntax, vui_syntax, vui_timing_syntax, vui_window_syntax, weight_list_syntax,
    weights_from, zero_flags, ProfileFields, Weights,
};
use crate::codec::h265::types::{
    HrdParams, Level, NaluType, Pps, PpsRangeExtension, PredWeightTable, Profile, ProfileTierLevel,
    RefPicListModification, ShortTermRefPicSet, SliceHeader, SliceType, Sps, SublayerHrdParameters,
    Vps, VuiParams,
};
use crate::reading::{
    consists_of, elements, group_elements, holds, joined, law_bytes_hold_the_elements, lemma_bits,
    lemma_elements_none, lemma_elements_part, lemma_elements_push, lemma_no_rows, lemma_rows, told,
    Elements,
};
use crate::syntax::{lemma_written_fits, reserved_zero, syntax, Syntax, SyntaxElement};
use vstd::prelude::*;

verus! {

broadcast use lemma_elements_part;

/// Whether the bytes are a NAL unit of the base layer and the lowest sub-layer, of the type with
/// this code, that holds these elements.
pub open spec fn carries(data: Seq<u8>, code: u8, list: Seq<SyntaxElement>) -> bool {
    &&& data.len() >= 6
    &&& data[0] == 0 && data[1] == 0 && data[2] == 0 && data[3] == 1
    &&& data[4] == 2 * code
    &&& data[5] == 1
    &&& holds(data.skip(6), list)
}

/// A synthesized NAL unit holds the elements of its table, where their values fit. With
/// emulation prevention, what follows the header is escaped.
pub proof fn law_nalu_carries_its_elements(nalu_type: NaluType, table: Syntax)
    requires
        table.fits(),
    ensures
        carries(nalu_bytes(nalu_type, table, false), nalu_type.code(), table.elements),
        nalu_bytes(nalu_type, table, true) == nalu_bytes(nalu_type, table, false).take(6) + escape(
            nalu_bytes(nalu_type, table, false).skip(6),
        ),
{
    lemma_written_fits(table);
    law_bytes_hold_the_elements(table);
    let plain = nalu_bytes(nalu_type, table, false);
    let body = pack(with_trailing(table.bits()));
    assert(plain.skip(6) =~= body);
    assert(nalu_bytes(nalu_type, table, true) =~= plain.take(6) + escape(body));
}

/// Whether the profile is one of those from `first` to `last`, or compatible with one of them.
pub open spec fn profile_among(p: ProfileFields, first: int, last: int) -> bool {
    exists|k: int| first <= k <= last && #[trigger] profile_is(p, k)
}

/// Whether the profile is number `k`, or compatible with it.
pub open spec fn profile_is(p: ProfileFields, k: int) -> bool {
    p.profile_idc == k || p.profile_compatibility_flag@[k]
}

proof fn lemma_match(p: ProfileFields, candidates: Seq<usize>, k: int)
    requires
        0 <= k < candidates.len(),
        p.profile_idc == candidates[k] || p.profile_compatibility_flag@[candidates[k] as int],
    ensures
        spec_profile_match(p.profile_idc, p.profile_compatibility_flag@, candidates),
{
    reveal(spec_profile_match);
    assert(p.profile_compatibility_flag@[candidates[k] as int] || p.profile_idc as int
        == candidates[k] as int);
}

/// A profile is among the candidates where it is among a run of them.
proof fn lemma_run(p: ProfileFields, candidates: Seq<usize>, first: int, last: int, at: int)
    requires
        0 <= at,
        first <= last,
        at + last - first < candidates.len(),
        forall|j: int| 0 <= j <= last - first ==> #[trigger] candidates[at + j] == first + j,
        profile_among(p, first, last),
    ensures
        spec_profile_match(p.profile_idc, p.profile_compatibility_flag@, candidates),
{
    let k = choose|k: int| first <= k <= last && #[trigger] profile_is(p, k);
    assert(at <= at + k - first <= at + last - first);
    assert(candidates[at + (k - first)] == first + (k - first));
    lemma_match(p, candidates, at + k - first);
}

/// What a profile among the candidates is.
proof fn lemma_candidate(p: ProfileFields, candidates: Seq<usize>) -> (v: int)
    requires
        spec_profile_match(p.profile_idc, p.profile_compatibility_flag@, candidates),
    ensures
        exists|k: int| 0 <= k < candidates.len() && #[trigger] candidates[k] == v,
        profile_is(p, v),
{
    reveal(spec_profile_match);
    let k = choose|k: int|
        0 <= k < candidates.len() && (p.profile_idc as int == candidates[k] as int
            || p.profile_compatibility_flag@[#[trigger] candidates[k] as int]);
    candidates[k] as int
}

/// The profiles on which the constraint flags depend.
pub proof fn lemma_profiles(p: ProfileFields)
    ensures
        has_range_flags(p.profile_idc, p.profile_compatibility_flag@) == profile_among(p, 4, 11),
        has_14bit_flag(p.profile_idc, p.profile_compatibility_flag@) == (profile_among(p, 5, 5)
            || profile_among(p, 9, 11)),
        has_one_picture_flag(p.profile_idc, p.profile_compatibility_flag@) == profile_among(
            p,
            2,
            2,
        ),
        has_inbld_flag(p.profile_idc, p.profile_compatibility_flag@) == (profile_among(p, 1, 5)
            || profile_among(p, 9, 9) || profile_among(p, 11, 11)),
{
    reveal(has_range_flags);
    reveal(has_14bit_flag);
    reveal(has_one_picture_flag);
    reveal(has_inbld_flag);
    let compat = p.profile_compatibility_flag@;
    let a = seq![4usize, 5, 6, 7, 8, 9, 10, 11];
    if profile_among(p, 4, 11) {
        lemma_run(p, a, 4, 11, 0);
    } else if spec_profile_match(p.profile_idc, compat, a) {
        let v = lemma_candidate(p, a);
        assert(4 <= v <= 11 && profile_is(p, v));
    }
    let b = seq![5usize, 9, 10, 11];
    if profile_among(p, 5, 5) {
        lemma_run(p, b, 5, 5, 0);
    } else if profile_among(p, 9, 11) {
        lemma_run(p, b, 9, 11, 1);
    } else if spec_profile_match(p.profile_idc, compat, b) {
        let v = lemma_candidate(p, b);
        assert((5 <= v <= 5 || 9 <= v <= 11) && profile_is(p, v));
    }
    let c = seq![2usize];
    if profile_among(p, 2, 2) {
        lemma_run(p, c, 2, 2, 0);
    } else if spec_profile_match(p.profile_idc, compat, c) {
        let v = lemma_candidate(p, c);
        assert(2 <= v <= 2 && profile_is(p, v));
    }
    let d = seq![1usize, 2, 3, 4, 5, 9, 11];
    if profile_among(p, 1, 5) {
        lemma_run(p, d, 1, 5, 0);
    } else if profile_among(p, 9, 9) {
        lemma_run(p, d, 9, 9, 5);
    } else if profile_among(p, 11, 11) {
        lemma_run(p, d, 11, 11, 6);
    } else if spec_profile_match(p.profile_idc, compat, d) {
        let v = lemma_candidate(p, d);
        assert((1 <= v <= 5 || 9 <= v <= 9 || 11 <= v <= 11) && profile_is(p, v));
    }
}

/// Reserved bits.
proof fn lemma_reserved()
    ensures
        consists_of(reserved_zero(1), elements().bits(1, 0)),
        consists_of(reserved_zero(2), elements().bits(2, 0)),
        consists_of(reserved_zero(7), elements().bits(7, 0)),
        consists_of(reserved_zero(33), elements().bits(32, 0).all(elements().bits(1, 0))),
        consists_of(reserved_zero(34), elements().bits(32, 0).all(elements().bits(2, 0))),
        consists_of(reserved_zero(35), elements().bits(32, 0).all(elements().bits(3, 0))),
        consists_of(reserved_zero(43), elements().bits(32, 0).all(elements().bits(11, 0))),
{
    broadcast use group_elements;

    reveal_with_fuel(reserved_zero, 3);
}

/// Flags, one by one.
proof fn lemma_flags(s: Seq<bool>, rows: Seq<Elements>, i: int)
    requires
        0 <= i <= rows.len() <= s.len(),
        forall|k: int| i <= k < rows.len() ==> #[trigger] rows[k] == elements().bit(s[k]),
    ensures
        consists_of(flags_from(s, i, rows.len() as int), joined(rows.skip(i))),
    decreases rows.len() - i,
{
    broadcast use group_elements;

    if i < rows.len() {
        lemma_flags(s, rows, i + 1);
        lemma_rows(rows, i);
    } else {
        lemma_no_rows(rows);
    }
}

/// The profile of a stream or of one of its sub-layers, with its constraint flags (7.3.3). What is
/// reserved is zero.
pub proof fn law_profile_elements(p: ProfileFields)
    ensures
        consists_of(
            profile_syntax(p),
            elements()
                .bits(2, p.profile_space as int)
                .bit(p.tier_flag)
                .bits(5, p.profile_idc as int)
                .all(joined(Seq::new(32, |k: int| elements().bit(p.profile_compatibility_flag[k]))))
                .bit(p.progressive_source_flag)
                .bit(p.interlaced_source_flag)
                .bit(p.non_packed_constraint_flag)
                .bit(p.frame_only_constraint_flag)
                .all(
                    if profile_among(p, 4, 11) {
                        elements()
                            .bit(p.max_12bit_constraint_flag)
                            .bit(p.max_10bit_constraint_flag)
                            .bit(p.max_8bit_constraint_flag)
                            .bit(p.max_422chroma_constraint_flag)
                            .bit(p.max_420chroma_constraint_flag)
                            .bit(p.max_monochrome_constraint_flag)
                            .bit(p.intra_constraint_flag)
                            .bit(p.one_picture_only_constraint_flag)
                            .bit(p.lower_bit_rate_constraint_flag)
                            .all(
                                if profile_among(p, 5, 5) || profile_among(p, 9, 11) {
                                    elements().bit(p.max_14bit_constraint_flag).all(
                                        elements().bits(32, 0).all(elements().bits(1, 0)),
                                    )
                                } else {
                                    elements().bits(32, 0).all(elements().bits(2, 0))
                                },
                            )
                    } else if profile_among(p, 2, 2) {
                        elements().bits(7, 0).bit(p.one_picture_only_constraint_flag).all(
                            elements().bits(32, 0).all(elements().bits(3, 0)),
                        )
                    } else {
                        elements().bits(32, 0).all(elements().bits(11, 0))
                    },
                )
                .all(
                    elements().bit(
                        (profile_among(p, 1, 5) || profile_among(p, 9, 9) || profile_among(p, 11, 11)) && p.inbld_flag,
                    ),
                ),
        ),
{
    lemma_profiles(p);
    assert(consists_of(
        profile_head_syntax(p),
        elements()
            .bits(2, p.profile_space as int)
            .bit(p.tier_flag)
            .bits(5, p.profile_idc as int)
            .all(joined(Seq::new(32, |k: int| elements().bit(p.profile_compatibility_flag[k]))))
            .bit(p.progressive_source_flag)
            .bit(p.interlaced_source_flag)
            .bit(p.non_packed_constraint_flag)
            .bit(p.frame_only_constraint_flag),
    )) by {
        broadcast use group_elements;

        reveal(profile_head_syntax);
        let rows = Seq::new(32, |k: int| elements().bit(p.profile_compatibility_flag[k]));
        assert(rows.skip(0) =~= rows);
        lemma_flags(p.profile_compatibility_flag@, rows, 0);
    }
    assert(consists_of(
        constraint_syntax(p),
        if profile_among(p, 4, 11) {
            elements()
                .bit(p.max_12bit_constraint_flag)
                .bit(p.max_10bit_constraint_flag)
                .bit(p.max_8bit_constraint_flag)
                .bit(p.max_422chroma_constraint_flag)
                .bit(p.max_420chroma_constraint_flag)
                .bit(p.max_monochrome_constraint_flag)
                .bit(p.intra_constraint_flag)
                .bit(p.one_picture_only_constraint_flag)
                .bit(p.lower_bit_rate_constraint_flag)
                .all(
                    if profile_among(p, 5, 5) || profile_among(p, 9, 11) {
                        elements().bit(p.max_14bit_constraint_flag).all(
                            elements().bits(32, 0).all(elements().bits(1, 0)),
                        )
                    } else {
                        elements().bits(32, 0).all(elements().bits(2, 0))
                    },
                )
        } else if profile_among(p, 2, 2) {
            elements().bits(7, 0).bit(p.one_picture_only_constraint_flag).all(
                elements().bits(32, 0).all(elements().bits(3, 0)),
            )
        } else {
            elements().bits(32, 0).all(elements().bits(11, 0))
        },
    )) by {
        broadcast use group_elements;

        reveal(constraint_syntax);
        reveal(range_flags_syntax);
        lemma_reserved();
    }
    assert(consists_of(
        inbld_syntax(p),
        elements().bit(
            (profile_among(p, 1, 5) || profile_among(p, 9, 9) || profile_among(p, 11, 11)) && p.inbld_flag,
        ),
    )) by {
        broadcast use group_elements;

        reveal(inbld_syntax);
        lemma_reserved();
    }
    reveal(profile_syntax);
}

/// The profile of sub-layer `k`.
pub open spec fn sub_layer_profile(ptl: ProfileTierLevel, k: int) -> ProfileFields {
    ProfileFields {
        profile_space: ptl.sub_layer_profile_space[k],
        tier_flag: ptl.sub_layer_tier_flag[k],
        profile_idc: ptl.sub_layer_profile_idc[k],
        profile_compatibility_flag: ptl.sub_layer_profile_compatibility_flag[k],
        progressive_source_flag: ptl.sub_layer_progressive_source_flag[k],
        interlaced_source_flag: ptl.sub_layer_interlaced_source_flag[k],
        non_packed_constraint_flag: ptl.sub_layer_non_packed_constraint_flag[k],
        frame_only_constraint_flag: ptl.sub_layer_frame_only_constraint_flag[k],
        max_12bit_constraint_flag: ptl.sub_layer_max_12bit_constraint_flag[k],
        max_10bit_constraint_flag: ptl.sub_layer_max_10bit_constraint_flag[k],
        max_8bit_constraint_flag: ptl.sub_layer_max_8bit_constraint_flag[k],
        max_422chroma_constraint_flag: ptl.sub_layer_max_422chroma_constraint_flag[k],
        max_420chroma_constraint_flag: ptl.sub_layer_max_420chroma_constraint_flag[k],
        max_monochrome_constraint_flag: ptl.sub_layer_max_monochrome_constraint_flag[k],
        intra_constraint_flag: ptl.sub_layer_intra_constraint_flag[k],
        one_picture_only_constraint_flag: ptl.sub_layer_one_picture_only_constraint_flag[k],
        lower_bit_rate_constraint_flag: ptl.sub_layer_lower_bit_rate_constraint_flag[k],
        max_14bit_constraint_flag: ptl.sub_layer_max_14bit_constraint_flag[k],
        inbld_flag: ptl.sub_layer_inbld_flag[k],
    }
}

/// The present flags of the sub-layers.
proof fn lemma_sub_layer_flags(ptl: ProfileTierLevel, rows: Seq<Elements>, i: int)
    requires
        0 <= i <= rows.len() <= 6,
        forall|k: int| i <= k < rows.len() ==> #[trigger] rows[k] == elements().bit(ptl.sub_layer_profile_present_flag[k]).bit(
            ptl.sub_layer_level_present_flag[k],
        ),
    ensures
        consists_of(sub_layer_flags_from(ptl, i, rows.len() as int), joined(rows.skip(i))),
    decreases rows.len() - i,
{
    broadcast use group_elements;

    if i < rows.len() {
        lemma_sub_layer_flags(ptl, rows, i + 1);
        lemma_rows(rows, i);
    } else {
        lemma_no_rows(rows);
    }
}

/// The sub-layers.
proof fn lemma_sub_layers(ptl: ProfileTierLevel, rows: Seq<Elements>, i: int)
    requires
        0 <= i <= rows.len() <= 6,
        forall|k: int|
            i <= k < rows.len() ==> #[trigger] rows[k] == elements()
                    .only(
                        ptl.sub_layer_profile_present_flag[k],
                        told(profile_syntax(sub_layer_profile(ptl, k))),
                    )
                    .only(
                        ptl.sub_layer_level_present_flag[k],
                        elements().bits(8, ptl.sub_layer_level_idc[k].code() as int),
                    ),
    ensures
        consists_of(sub_layers_from(ptl, i, rows.len() as int), joined(rows.skip(i))),
    decreases rows.len() - i,
{
    broadcast use group_elements;

    if i < rows.len() {
        lemma_sub_layers(ptl, rows, i + 1);
        lemma_rows(rows, i);
        reveal(sub_layer_syntax);
    } else {
        lemma_no_rows(rows);
    }
}

/// The reserved bits of the sub-layers that are not there.
proof fn lemma_reserved_pairs(first: int, rows: Seq<Elements>, i: int)
    requires
        0 <= i <= rows.len(),
        first + rows.len() == 8,
        forall|k: int| i <= k < rows.len() ==> #[trigger] rows[k] == elements().bits(2, 0),
    ensures
        consists_of(reserved_pairs_from(first + i), joined(rows.skip(i))),
    decreases rows.len() - i,
{
    broadcast use group_elements;

    if i < rows.len() {
        lemma_reserved_pairs(first, rows, i + 1);
        lemma_rows(rows, i);
        lemma_reserved();
    } else {
        lemma_no_rows(rows);
    }
}

/// `profile_tier_level()` (7.3.3).
pub proof fn law_ptl_elements(
    ptl: ProfileTierLevel,
    profile_present_flag: bool,
    max_sub_layers_minus1: int,
)
    requires
        0 <= max_sub_layers_minus1 <= 6,
    ensures
        consists_of(
            ptl_syntax(ptl, profile_present_flag, max_sub_layers_minus1),
            elements()
                .only(
                    profile_present_flag,
                    told(
                        profile_syntax(
                            ProfileFields {
                                profile_space: ptl.general_profile_space,
                                tier_flag: ptl.general_tier_flag,
                                profile_idc: ptl.general_profile_idc,
                                profile_compatibility_flag: ptl.general_profile_compatibility_flag,
                                progressive_source_flag: ptl.general_progressive_source_flag,
                                interlaced_source_flag: ptl.general_interlaced_source_flag,
                                non_packed_constraint_flag: ptl.general_non_packed_constraint_flag,
                                frame_only_constraint_flag: ptl.general_frame_only_constraint_flag,
                                max_12bit_constraint_flag: ptl.general_max_12bit_constraint_flag,
                                max_10bit_constraint_flag: ptl.general_max_10bit_constraint_flag,
                                max_8bit_constraint_flag: ptl.general_max_8bit_constraint_flag,
                                max_422chroma_constraint_flag: ptl.general_max_422chroma_constraint_flag,
                                max_420chroma_constraint_flag: ptl.general_max_420chroma_constraint_flag,
                                max_monochrome_constraint_flag: ptl.general_max_monochrome_constraint_flag,
                                intra_constraint_flag: ptl.general_intra_constraint_flag,
                                one_picture_only_constraint_flag: ptl.general_one_picture_only_constraint_flag,
                                lower_bit_rate_constraint_flag: ptl.general_lower_bit_rate_constraint_flag,
                                max_14bit_constraint_flag: ptl.general_max_14bit_constraint_flag,
                                inbld_flag: ptl.general_inbld_flag,
                            },
                        ),
                    ),
                )
                .bits(8, ptl.general_level_idc.code() as int)
                .all(
                    joined(
                        Seq::new(
                            max_sub_layers_minus1 as nat,
                            |k: int|
                                elements().bit(ptl.sub_layer_profile_present_flag[k]).bit(
                                    ptl.sub_layer_level_present_flag[k],
                                ),
                        ),
                    ),
                )
                .only(
                    max_sub_layers_minus1 > 0,
                    joined(Seq::new((8 - max_sub_layers_minus1) as nat, |k: int| elements().bits(2, 0))),
                )
                .all(
                    joined(
                        Seq::new(
                            max_sub_layers_minus1 as nat,
                            |k: int|
                                elements()
                                    .only(
                                        ptl.sub_layer_profile_present_flag[k],
                                        told(profile_syntax(sub_layer_profile(ptl, k))),
                                    )
                                    .only(
                                        ptl.sub_layer_level_present_flag[k],
                                        elements().bits(
                                            8,
                                            ptl.sub_layer_level_idc[k].code() as int,
                                        ),
                                    ),
                        ),
                    ),
                ),
        ),
{
    broadcast use group_elements;

    reveal(ptl_syntax);
    let flags = Seq::new(
        max_sub_layers_minus1 as nat,
        |k: int|
            elements().bit(ptl.sub_layer_profile_present_flag[k]).bit(
                ptl.sub_layer_level_present_flag[k],
            ),
    );
    let pairs = Seq::new((8 - max_sub_layers_minus1) as nat, |k: int| elements().bits(2, 0));
    let layers = Seq::new(
        max_sub_layers_minus1 as nat,
        |k: int|
            elements()
                .only(
                    ptl.sub_layer_profile_present_flag[k],
                    told(profile_syntax(sub_layer_profile(ptl, k))),
                )
                .only(
                    ptl.sub_layer_level_present_flag[k],
                    elements().bits(8, ptl.sub_layer_level_idc[k].code() as int),
                ),
    );
    assert(flags.skip(0) =~= flags);
    assert(pairs.skip(0) =~= pairs);
    assert(layers.skip(0) =~= layers);
    lemma_sub_layer_flags(ptl, flags, 0);
    lemma_reserved_pairs(max_sub_layers_minus1, pairs, 0);
    lemma_sub_layers(ptl, layers, 0);
}

/// The chroma QP offsets, pair by pair.
proof fn lemma_qp_offsets(e: PpsRangeExtension, rows: Seq<Elements>, i: int)
    requires
        0 <= i <= rows.len() <= 6,
        forall|k: int| i <= k < rows.len() ==> #[trigger] rows[k] == elements().signed(e.cb_qp_offset_list[k] as int).signed(e.cr_qp_offset_list[k] as int),
    ensures
        consists_of(qp_offsets_from(e, i, rows.len() as int), joined(rows.skip(i))),
    decreases rows.len() - i,
{
    broadcast use group_elements;

    if i < rows.len() {
        lemma_qp_offsets(e, rows, i + 1);
        lemma_rows(rows, i);
    } else {
        lemma_no_rows(rows);
    }
}

/// Exp-Golomb codes, one by one.
proof fn lemma_ues(s: Seq<u32>, rows: Seq<Elements>, i: int)
    requires
        0 <= i <= rows.len() <= s.len(),
        forall|k: int| i <= k < rows.len() ==> #[trigger] rows[k] == elements().unsigned(s[k] as int),
    ensures
        consists_of(ues_from(s, i, rows.len() as int), joined(rows.skip(i))),
    decreases rows.len() - i,
{
    broadcast use group_elements;

    if i < rows.len() {
        lemma_ues(s, rows, i + 1);
        lemma_rows(rows, i);
    } else {
        lemma_no_rows(rows);
    }
}

/// `pps_range_extension()` (7.3.2.3.2).
pub proof fn law_pps_range_extension_elements(
    e: PpsRangeExtension,
    transform_skip_enabled_flag: bool,
)
    requires
        e.chroma_qp_offset_list_enabled_flag ==> e.has_offsets(),
    ensures
        consists_of(
            pps_range_extension_syntax(e, transform_skip_enabled_flag),
            elements()
                .only(
                    transform_skip_enabled_flag,
                    elements().unsigned(e.log2_max_transform_skip_block_size_minus2 as int),
                )
                .bit(e.cross_component_prediction_enabled_flag)
                .bit(e.chroma_qp_offset_list_enabled_flag)
                .only(
                    e.chroma_qp_offset_list_enabled_flag,
                    elements()
                        .unsigned(e.diff_cu_chroma_qp_offset_depth as int)
                        .unsigned(e.chroma_qp_offset_list_len_minus1 as int)
                        .all(
                            joined(
                                Seq::new(
                                    (e.chroma_qp_offset_list_len_minus1 + 1) as nat,
                                    |k: int|
                                        elements().signed(e.cb_qp_offset_list[k] as int).signed(
                                            e.cr_qp_offset_list[k] as int,
                                        ),
                                ),
                            ),
                        ),
                )
                .unsigned(e.log2_sao_offset_scale_luma as int)
                .unsigned(e.log2_sao_offset_scale_chroma as int),
        ),
{
    broadcast use group_elements;

    reveal(pps_range_extension_syntax);
    reveal(qp_offset_list_syntax);
    if e.chroma_qp_offset_list_enabled_flag {
        let rows = Seq::new(
            (e.chroma_qp_offset_list_len_minus1 + 1) as nat,
            |k: int|
                elements().signed(e.cb_qp_offset_list[k] as int).signed(
                    e.cr_qp_offset_list[k] as int,
                ),
        );
        lemma_qp_offsets(e, rows, 0);
        assert(rows.skip(0) =~= rows);
    }
}

/// `pic_parameter_set_rbsp()` (7.3.2.3.1): what a picture parameter set is coded as, in the order
/// in which it is read.
pub proof fn law_pps_elements(p: Pps)
    requires
        p.num_tile_columns_minus1 <= 19,
        p.num_tile_rows_minus1 <= 21,
    ensures
        consists_of(
            pps_syntax(p),
            elements()
                .unsigned(p.pic_parameter_set_id as int)
                .unsigned(p.seq_parameter_set_id as int)
                .bit(p.dependent_slice_segments_enabled_flag)
                .bit(p.output_flag_present_flag)
                .bits(3, p.num_extra_slice_header_bits as int)
                .bit(p.sign_data_hiding_enabled_flag)
                .bit(p.cabac_init_present_flag)
                .unsigned(p.num_ref_idx_l0_default_active_minus1 as int)
                .unsigned(p.num_ref_idx_l1_default_active_minus1 as int)
                .signed(p.init_qp_minus26 as int)
                .all(
                    elements()
                        .bit(p.constrained_intra_pred_flag)
                        .bit(p.transform_skip_enabled_flag)
                        .bit(p.cu_qp_delta_enabled_flag)
                        .only(
                            p.cu_qp_delta_enabled_flag,
                            elements().unsigned(p.diff_cu_qp_delta_depth as int),
                        )
                        .signed(p.cb_qp_offset as int)
                        .signed(p.cr_qp_offset as int)
                        .bit(p.slice_chroma_qp_offsets_present_flag)
                        .bit(p.weighted_pred_flag)
                        .bit(p.weighted_bipred_flag)
                        .bit(p.transquant_bypass_enabled_flag)
                        .bit(p.tiles_enabled_flag)
                        .bit(p.entropy_coding_sync_enabled_flag),
                )
                .all(
                    if p.tiles_enabled_flag {
                        elements()
                            .unsigned(p.num_tile_columns_minus1 as int)
                            .unsigned(p.num_tile_rows_minus1 as int)
                            .bit(p.uniform_spacing_flag)
                            .only(
                                !p.uniform_spacing_flag,
                                joined(
                                    Seq::new(
                                        p.num_tile_columns_minus1 as nat,
                                        |k: int| elements().unsigned(p.column_width_minus1[k] as int),
                                    ),
                                ).all(
                                    joined(
                                        Seq::new(
                                            p.num_tile_rows_minus1 as nat,
                                            |k: int| elements().unsigned(p.row_height_minus1[k] as int),
                                        ),
                                    ),
                                ),
                            )
                            .bit(p.loop_filter_across_tiles_enabled_flag)
                    } else {
                        elements()
                    },
                )
                .all(
                    elements()
                        .bit(p.loop_filter_across_slices_enabled_flag)
                        .bit(p.deblocking_filter_control_present_flag)
                        .only(
                            p.deblocking_filter_control_present_flag,
                            elements()
                                .bit(p.deblocking_filter_override_enabled_flag)
                                .bit(p.deblocking_filter_disabled_flag)
                                .only(
                                    !p.deblocking_filter_disabled_flag,
                                    elements().signed(p.beta_offset_div2 as int).signed(
                                        p.tc_offset_div2 as int,
                                    ),
                                ),
                        ),
                )
                .all(
                    elements()
                        .bit(p.scaling_list_data_present_flag)
                        .only(
                            p.scaling_list_data_present_flag,
                            told(scaling_list_data_syntax(p.scaling_list)),
                        )
                        .bit(p.lists_modification_present_flag)
                        .unsigned(p.log2_parallel_merge_level_minus2 as int)
                        .bit(p.slice_segment_header_extension_present_flag),
                )
                .all(
                    elements()
                        .bit(p.extension_present_flag)
                        .only(
                            p.extension_present_flag,
                            elements()
                                .bit(p.range_extension_flag)
                                .only(
                                    p.range_extension_flag,
                                    told(
                                        pps_range_extension_syntax(
                                            p.range_extension,
                                            p.transform_skip_enabled_flag,
                                        ),
                                    ),
                                )
                                .bit(false)
                                .bit(false)
                                .bit(p.scc_extension_flag)
                                .all(
                                    if p.scc_extension_flag {
                                        elements().unsupported()
                                    } else {
                                        elements().bits(4, 0)
                                    },
                                ),
                        ),
                ),
        ),
{
    assert(consists_of(
        pps_head_syntax(p),
        elements()
            .unsigned(p.pic_parameter_set_id as int)
            .unsigned(p.seq_parameter_set_id as int)
            .bit(p.dependent_slice_segments_enabled_flag)
            .bit(p.output_flag_present_flag)
            .bits(3, p.num_extra_slice_header_bits as int)
            .bit(p.sign_data_hiding_enabled_flag)
            .bit(p.cabac_init_present_flag)
            .unsigned(p.num_ref_idx_l0_default_active_minus1 as int)
            .unsigned(p.num_ref_idx_l1_default_active_minus1 as int)
            .signed(p.init_qp_minus26 as int),
    )) by {
        broadcast use group_elements;

        reveal(pps_head_syntax);
    }
    assert(consists_of(
        pps_tools_syntax(p),
        elements()
            .bit(p.constrained_intra_pred_flag)
            .bit(p.transform_skip_enabled_flag)
            .bit(p.cu_qp_delta_enabled_flag)
            .only(p.cu_qp_delta_enabled_flag, elements().unsigned(p.diff_cu_qp_delta_depth as int))
            .signed(p.cb_qp_offset as int)
            .signed(p.cr_qp_offset as int)
            .bit(p.slice_chroma_qp_offsets_present_flag)
            .bit(p.weighted_pred_flag)
            .bit(p.weighted_bipred_flag)
            .bit(p.transquant_bypass_enabled_flag)
            .bit(p.tiles_enabled_flag)
            .bit(p.entropy_coding_sync_enabled_flag),
    )) by {
        broadcast use group_elements;

        reveal(pps_tools_syntax);
    }
    assert(consists_of(
        pps_tiles_syntax(p),
        if p.tiles_enabled_flag {
            elements()
                .unsigned(p.num_tile_columns_minus1 as int)
                .unsigned(p.num_tile_rows_minus1 as int)
                .bit(p.uniform_spacing_flag)
                .only(
                    !p.uniform_spacing_flag,
                    joined(
                        Seq::new(
                            p.num_tile_columns_minus1 as nat,
                            |k: int| elements().unsigned(p.column_width_minus1[k] as int),
                        ),
                    ).all(
                        joined(
                            Seq::new(
                                p.num_tile_rows_minus1 as nat,
                                |k: int| elements().unsigned(p.row_height_minus1[k] as int),
                            ),
                        ),
                    ),
                )
                .bit(p.loop_filter_across_tiles_enabled_flag)
        } else {
            elements()
        },
    )) by {
        broadcast use group_elements;

        reveal(pps_tiles_syntax);
        let columns = Seq::new(
            p.num_tile_columns_minus1 as nat,
            |k: int| elements().unsigned(p.column_width_minus1[k] as int),
        );
        let lines = Seq::new(
            p.num_tile_rows_minus1 as nat,
            |k: int| elements().unsigned(p.row_height_minus1[k] as int),
        );
        assert(columns.skip(0) =~= columns);
        assert(lines.skip(0) =~= lines);
        lemma_ues(p.column_width_minus1@, columns, 0);
        lemma_ues(p.row_height_minus1@, lines, 0);
    }
    assert(consists_of(
        pps_filters_syntax(p),
        elements()
            .bit(p.loop_filter_across_slices_enabled_flag)
            .bit(p.deblocking_filter_control_present_flag)
            .only(
                p.deblocking_filter_control_present_flag,
                elements()
                    .bit(p.deblocking_filter_override_enabled_flag)
                    .bit(p.deblocking_filter_disabled_flag)
                    .only(
                        !p.deblocking_filter_disabled_flag,
                        elements().signed(p.beta_offset_div2 as int).signed(
                            p.tc_offset_div2 as int,
                        ),
                    ),
            ),
    )) by {
        broadcast use group_elements;

        reveal(pps_filters_syntax);
    }
    assert(consists_of(
        pps_lists_syntax(p),
        elements()
            .bit(p.scaling_list_data_present_flag)
            .only(p.scaling_list_data_present_flag, told(scaling_list_data_syntax(p.scaling_list)))
            .bit(p.lists_modification_present_flag)
            .unsigned(p.log2_parallel_merge_level_minus2 as int)
            .bit(p.slice_segment_header_extension_present_flag),
    )) by {
        broadcast use group_elements;

        reveal(pps_lists_syntax);
    }
    assert(consists_of(
        pps_extension_syntax(p),
        elements()
            .bit(p.extension_present_flag)
            .only(
                p.extension_present_flag,
                elements()
                    .bit(p.range_extension_flag)
                    .only(
                        p.range_extension_flag,
                        told(
                            pps_range_extension_syntax(
                                p.range_extension,
                                p.transform_skip_enabled_flag,
                            ),
                        ),
                    )
                    .bit(false)
                    .bit(false)
                    .bit(p.scc_extension_flag)
                    .all(
                        if p.scc_extension_flag {
                            elements().unsupported()
                        } else {
                            elements().bits(4, 0)
                        },
                    ),
            ),
    )) by {
        broadcast use group_elements;

        reveal(pps_extension_syntax);
    }
    reveal(pps_syntax);
}

/// The pictures before the current one.
proof fn lemma_s0(st: ShortTermRefPicSet, rows: Seq<Elements>, i: int)
    requires
        0 <= i <= rows.len() <= 16,
        ordered_s0(st, rows.len() as int),
        forall|k: int| i <= k < rows.len() ==> #[trigger] rows[k] == elements().unsigned(
        (if k == 0 {
            0
        } else {
            st.delta_poc_s0[k - 1] as int
        }) - st.delta_poc_s0[k] - 1,
    ).bit(st.used_by_curr_pic_s0[k]),
    ensures
        consists_of(s0_from(st, i, rows.len() as int), joined(rows.skip(i))),
    decreases rows.len() - i,
{
    broadcast use group_elements;

    if i < rows.len() {
        lemma_s0(st, rows, i + 1);
        lemma_rows(rows, i);
    } else {
        lemma_no_rows(rows);
    }
}

/// The pictures after the current one.
proof fn lemma_s1(st: ShortTermRefPicSet, rows: Seq<Elements>, i: int)
    requires
        0 <= i <= rows.len() <= 16,
        ordered_s1(st, rows.len() as int),
        forall|k: int| i <= k < rows.len() ==> #[trigger] rows[k] == elements().unsigned(
        st.delta_poc_s1[k] - (if k == 0 {
            0
        } else {
            st.delta_poc_s1[k - 1] as int
        }) - 1,
    ).bit(st.used_by_curr_pic_s1[k]),
    ensures
        consists_of(s1_from(st, i, rows.len() as int), joined(rows.skip(i))),
    decreases rows.len() - i,
{
    broadcast use group_elements;

    if i < rows.len() {
        lemma_s1(st, rows, i + 1);
        lemma_rows(rows, i);
    } else {
        lemma_no_rows(rows);
    }
}

/// `st_ref_pic_set()` (7.3.7): a picture is coded by its distance from the one before it in its
/// list, or from the current picture, less one.
pub proof fn law_st_ref_pic_set_elements(st: ShortTermRefPicSet, st_rps_idx: int)
    requires
        !st.inter_ref_pic_set_prediction_flag ==> st.valid(),
    ensures
        consists_of(
            st_ref_pic_set_syntax(st, st_rps_idx),
            elements()
                .only(st_rps_idx != 0, elements().bit(st.inter_ref_pic_set_prediction_flag))
                .all(
                    if st.inter_ref_pic_set_prediction_flag {
                        elements().unsupported()
                    } else {
                        elements()
                            .unsigned(st.num_negative_pics as int)
                            .unsigned(st.num_positive_pics as int)
                            .all(
                                joined(
                                    Seq::new(
                                        st.num_negative_pics as nat,
                                        |k: int|
                                            elements().unsigned(
                                                (if k == 0 {
                                                    0
                                                } else {
                                                    st.delta_poc_s0[k - 1] as int
                                                }) - st.delta_poc_s0[k] - 1,
                                            ).bit(st.used_by_curr_pic_s0[k]),
                                    ),
                                ),
                            )
                            .all(
                                joined(
                                    Seq::new(
                                        st.num_positive_pics as nat,
                                        |k: int|
                                            elements().unsigned(
                                                st.delta_poc_s1[k] - (if k == 0 {
                                                    0
                                                } else {
                                                    st.delta_poc_s1[k - 1] as int
                                                }) - 1,
                                            ).bit(st.used_by_curr_pic_s1[k]),
                                    ),
                                ),
                            )
                    },
                ),
        ),
{
    broadcast use group_elements;

    reveal(st_ref_pic_set_syntax);
    if !st.inter_ref_pic_set_prediction_flag {
        let before = Seq::new(
            st.num_negative_pics as nat,
            |k: int|
                elements().unsigned(
                    (if k == 0 {
                        0
                    } else {
                        st.delta_poc_s0[k - 1] as int
                    }) - st.delta_poc_s0[k] - 1,
                ).bit(st.used_by_curr_pic_s0[k]),
        );
        let after = Seq::new(
            st.num_positive_pics as nat,
            |k: int|
                elements().unsigned(
                    st.delta_poc_s1[k] - (if k == 0 {
                        0
                    } else {
                        st.delta_poc_s1[k - 1] as int
                    }) - 1,
                ).bit(st.used_by_curr_pic_s1[k]),
        );
        assert(before.skip(0) =~= before);
        assert(after.skip(0) =~= after);
        lemma_s0(st, before, 0);
        lemma_s1(st, after, 0);
    }
}

/// The coded picture buffers.
proof fn lemma_cpbs(h: SublayerHrdParameters, sub_pic: bool, rows: Seq<Elements>, i: int)
    requires
        0 <= i <= rows.len() <= 32,
        forall|k: int| i <= k < rows.len() ==> #[trigger] rows[k] == elements()
                .unsigned(h.bit_rate_value_minus1[k] as int)
                .unsigned(h.cpb_size_value_minus1[k] as int)
                .only(
                    sub_pic,
                    elements()
                        .unsigned(h.cpb_size_du_value_minus1[k] as int)
                        .unsigned(h.bit_rate_du_value_minus1[k] as int),
                )
                .bit(h.cbr_flag[k]),
    ensures
        consists_of(cpbs_from(h, sub_pic, i, rows.len() as int), joined(rows.skip(i))),
    decreases rows.len() - i,
{
    broadcast use group_elements;

    if i < rows.len() {
        lemma_cpbs(h, sub_pic, rows, i + 1);
        lemma_rows(rows, i);
    } else {
        lemma_no_rows(rows);
    }
}

/// `sub_layer_hrd_parameters()` (E.2.3).
pub proof fn law_sub_layer_hrd_elements(h: SublayerHrdParameters, cpb_cnt: int, sub_pic: bool)
    requires
        0 <= cpb_cnt <= 32,
    ensures
        consists_of(
            sublayer_hrd_syntax(h, cpb_cnt, sub_pic),
            joined(
                Seq::new(
                    cpb_cnt as nat,
                    |k: int|
                        elements()
                            .unsigned(h.bit_rate_value_minus1[k] as int)
                            .unsigned(h.cpb_size_value_minus1[k] as int)
                            .only(
                                sub_pic,
                                elements()
                                    .unsigned(h.cpb_size_du_value_minus1[k] as int)
                                    .unsigned(h.bit_rate_du_value_minus1[k] as int),
                            )
                            .bit(h.cbr_flag[k]),
                ),
            ),
        ),
{
    broadcast use group_elements;

    reveal(sublayer_hrd_syntax);
    let rows = Seq::new(
        cpb_cnt as nat,
        |k: int|
            elements()
                .unsigned(h.bit_rate_value_minus1[k] as int)
                .unsigned(h.cpb_size_value_minus1[k] as int)
                .only(
                    sub_pic,
                    elements()
                        .unsigned(h.cpb_size_du_value_minus1[k] as int)
                        .unsigned(h.bit_rate_du_value_minus1[k] as int),
                )
                .bit(h.cbr_flag[k]),
    );
    assert(rows.skip(0) =~= rows);
    lemma_cpbs(h, sub_pic, rows, 0);
}

/// Sub-layer `i` of `hrd_parameters()` (E.2.2).
pub proof fn law_hrd_sub_layer_elements(h: HrdParams, i: int)
    requires
        0 <= i < 7,
    ensures
        consists_of(
            hrd_row_syntax(h, i),
            elements()
                .bit(h.fixed_pic_rate_general_flag[i])
                .only(
                    !h.fixed_pic_rate_general_flag[i],
                    elements().bit(h.fixed_pic_rate_within_cvs_flag[i]),
                )
                .all(
                    if h.fixed_pic_rate_general_flag[i] || h.fixed_pic_rate_within_cvs_flag[i] {
                        elements().unsigned(h.elemental_duration_in_tc_minus1[i] as int)
                    } else {
                        elements().bit(h.low_delay_hrd_flag[i])
                    },
                )
                .only(!h.low_delay_hrd_flag[i], elements().unsigned(h.cpb_cnt_minus1[i] as int))
                .all(
                    elements()
                        .only(
                            h.nal_hrd_parameters_present_flag,
                            told(sublayer_hrd_syntax(
                                h.nal_hrd[i],
                                h.cpb_cnt_minus1[i] + 1,
                                h.sub_pic_hrd_params_present_flag,
                            )),
                        )
                        .only(
                            h.vcl_hrd_parameters_present_flag,
                            told(sublayer_hrd_syntax(
                                h.vcl_hrd[i],
                                h.cpb_cnt_minus1[i] + 1,
                                h.sub_pic_hrd_params_present_flag,
                            )),
                        ),
                ),
        ),
{
    assert(consists_of(
        hrd_rate_syntax(h, i),
        elements()
            .bit(h.fixed_pic_rate_general_flag[i])
            .only(
                !h.fixed_pic_rate_general_flag[i],
                elements().bit(h.fixed_pic_rate_within_cvs_flag[i]),
            )
            .all(
                if h.fixed_pic_rate_general_flag[i] || h.fixed_pic_rate_within_cvs_flag[i] {
                    elements().unsigned(h.elemental_duration_in_tc_minus1[i] as int)
                } else {
                    elements().bit(h.low_delay_hrd_flag[i])
                },
            )
            .only(!h.low_delay_hrd_flag[i], elements().unsigned(h.cpb_cnt_minus1[i] as int)),
    )) by {
        broadcast use group_elements;

        reveal(hrd_rate_syntax);
    }
    assert(consists_of(
        hrd_buffers_syntax(h, i),
        elements()
            .only(
                h.nal_hrd_parameters_present_flag,
                told(sublayer_hrd_syntax(
                    h.nal_hrd[i],
                    h.cpb_cnt_minus1[i] + 1,
                    h.sub_pic_hrd_params_present_flag,
                )),
            )
            .only(
                h.vcl_hrd_parameters_present_flag,
                told(sublayer_hrd_syntax(
                    h.vcl_hrd[i],
                    h.cpb_cnt_minus1[i] + 1,
                    h.sub_pic_hrd_params_present_flag,
                )),
            ),
    )) by {
        broadcast use group_elements;

        reveal(hrd_buffers_syntax);
    }
    reveal(hrd_row_syntax);
}

/// The sub-layers.
proof fn lemma_hrd_rows(h: HrdParams, rows: Seq<Elements>, i: int)
    requires
        0 <= i <= rows.len() <= 7,
        forall|k: int| i <= k < rows.len() ==> #[trigger] rows[k] == told(hrd_row_syntax(h, k)),
    ensures
        consists_of(hrd_rows_from(h, i, rows.len() as int), joined(rows.skip(i))),
    decreases rows.len() - i,
{
    broadcast use group_elements;

    if i < rows.len() {
        lemma_hrd_rows(h, rows, i + 1);
        lemma_rows(rows, i);
    } else {
        lemma_no_rows(rows);
    }
}

/// `hrd_parameters()` (E.2.2).
pub proof fn law_hrd_elements(
    h: HrdParams,
    common_inf_present_flag: bool,
    max_sub_layers_minus1: int,
)
    requires
        0 <= max_sub_layers_minus1 <= 6,
    ensures
        consists_of(
            hrd_syntax(h, common_inf_present_flag, max_sub_layers_minus1),
            elements()
                .only(
                    common_inf_present_flag,
                    elements()
                        .bit(h.nal_hrd_parameters_present_flag)
                        .bit(h.vcl_hrd_parameters_present_flag)
                        .only(
                            h.nal_hrd_parameters_present_flag || h.vcl_hrd_parameters_present_flag,
                            elements()
                                .bit(h.sub_pic_hrd_params_present_flag)
                                .only(h.sub_pic_hrd_params_present_flag, elements()
                                            .bits(8, h.tick_divisor_minus2 as int)
                                            .bits(
                                                5,
                                                h.du_cpb_removal_delay_increment_length_minus1 as int,
                                            )
                                            .bit(h.sub_pic_cpb_params_in_pic_timing_sei_flag)
                                            .bits(5, h.dpb_output_delay_du_length_minus1 as int))
                                .bits(4, h.bit_rate_scale as int)
                                .bits(4, h.cpb_size_scale as int)
                                .only(
                                    h.sub_pic_hrd_params_present_flag,
                                    elements().bits(4, h.cpb_size_du_scale as int),
                                )
                                .bits(5, h.initial_cpb_removal_delay_length_minus1 as int)
                                .bits(5, h.au_cpb_removal_delay_length_minus1 as int)
                                .bits(5, h.dpb_output_delay_length_minus1 as int),
                        ),
                )
                .all(
                    joined(
                        Seq::new((max_sub_layers_minus1 + 1) as nat, |k: int| told(hrd_row_syntax(h, k))),
                    ),
                ),
        ),
{
    broadcast use group_elements;

    assert(consists_of(
        hrd_common_syntax(h),
        elements()
            .bit(h.nal_hrd_parameters_present_flag)
            .bit(h.vcl_hrd_parameters_present_flag)
            .only(
                h.nal_hrd_parameters_present_flag || h.vcl_hrd_parameters_present_flag,
                elements()
                    .bit(h.sub_pic_hrd_params_present_flag)
                    .only(h.sub_pic_hrd_params_present_flag, elements()
                                .bits(8, h.tick_divisor_minus2 as int)
                                .bits(5, h.du_cpb_removal_delay_increment_length_minus1 as int)
                                .bit(h.sub_pic_cpb_params_in_pic_timing_sei_flag)
                                .bits(5, h.dpb_output_delay_du_length_minus1 as int))
                    .bits(4, h.bit_rate_scale as int)
                    .bits(4, h.cpb_size_scale as int)
                    .only(
                        h.sub_pic_hrd_params_present_flag,
                        elements().bits(4, h.cpb_size_du_scale as int),
                    )
                    .bits(5, h.initial_cpb_removal_delay_length_minus1 as int)
                    .bits(5, h.au_cpb_removal_delay_length_minus1 as int)
                    .bits(5, h.dpb_output_delay_length_minus1 as int),
            ),
    )) by {
        reveal(hrd_common_syntax);
        reveal(hrd_sub_pic_syntax);
    }
    let rows = Seq::new((max_sub_layers_minus1 + 1) as nat, |k: int| told(hrd_row_syntax(h, k)));
    assert(rows.skip(0) =~= rows);
    lemma_hrd_rows(h, rows, 0);
    reveal(hrd_syntax);
}

/// `vui_parameters()` (E.2.1).
pub proof fn law_vui_elements(v: VuiParams, max_sub_layers_minus1: int)
    ensures
        consists_of(
            vui_syntax(v, max_sub_layers_minus1),
            elements()
                .bit(v.aspect_ratio_info_present_flag)
                .only(
                    v.aspect_ratio_info_present_flag,
                    elements()
                        .bits(8, v.aspect_ratio_idc as int)
                        .only(
                            v.aspect_ratio_idc == 255,
                            elements().bits(16, v.sar_width as int).bits(16, v.sar_height as int),
                        ),
                )
                .bit(v.overscan_info_present_flag)
                .only(v.overscan_info_present_flag, elements().bit(v.overscan_appropriate_flag))
                .all(
                    elements()
                        .bit(v.video_signal_type_present_flag)
                        .only(
                            v.video_signal_type_present_flag,
                            elements()
                                .bits(3, v.video_format as int)
                                .bit(v.video_full_range_flag)
                                .bit(v.colour_description_present_flag)
                                .only(
                                    v.colour_description_present_flag,
                                    elements()
                                        .bits(8, v.colour_primaries as int)
                                        .bits(8, v.transfer_characteristics as int)
                                        .bits(8, v.matrix_coeffs as int),
                                ),
                        )
                        .bit(v.chroma_loc_info_present_flag)
                        .only(
                            v.chroma_loc_info_present_flag,
                            elements()
                                .unsigned(v.chroma_sample_loc_type_top_field as int)
                                .unsigned(v.chroma_sample_loc_type_bottom_field as int),
                        ),
                )
                .all(
                    elements()
                        .bit(v.neutral_chroma_indication_flag)
                        .bit(v.field_seq_flag)
                        .bit(v.frame_field_info_present_flag)
                        .bit(v.default_display_window_flag)
                        .only(
                            v.default_display_window_flag,
                            elements()
                                .unsigned(v.def_disp_win_left_offset as int)
                                .unsigned(v.def_disp_win_right_offset as int)
                                .unsigned(v.def_disp_win_top_offset as int)
                                .unsigned(v.def_disp_win_bottom_offset as int),
                        ),
                )
                .all(
                    elements()
                        .bit(v.timing_info_present_flag)
                        .only(
                            v.timing_info_present_flag,
                            elements()
                                .bits(32, v.num_units_in_tick as int)
                                .bits(32, v.time_scale as int)
                                .bit(v.poc_proportional_to_timing_flag)
                                .only(
                                    v.poc_proportional_to_timing_flag,
                                    elements().unsigned(v.num_ticks_poc_diff_one_minus1 as int),
                                )
                                .bit(v.hrd_parameters_present_flag)
                                .only(
                                    v.hrd_parameters_present_flag,
                                    told(hrd_syntax(v.hrd, true, max_sub_layers_minus1)),
                                ),
                        ),
                )
                .all(
                    elements()
                        .bit(v.bitstream_restriction_flag)
                        .only(
                            v.bitstream_restriction_flag,
                            elements()
                                .bit(v.tiles_fixed_structure_flag)
                                .bit(v.motion_vectors_over_pic_boundaries_flag)
                                .bit(v.restricted_ref_pic_lists_flag)
                                .unsigned(v.min_spatial_segmentation_idc as int)
                                .unsigned(v.max_bytes_per_pic_denom as int)
                                .unsigned(v.max_bits_per_min_cu_denom as int)
                                .unsigned(v.log2_max_mv_length_horizontal as int)
                                .unsigned(v.log2_max_mv_length_vertical as int),
                        ),
                ),
        ),
{
    assert(consists_of(
        vui_display_syntax(v),
        elements()
            .bit(v.aspect_ratio_info_present_flag)
            .only(
                v.aspect_ratio_info_present_flag,
                elements()
                    .bits(8, v.aspect_ratio_idc as int)
                    .only(
                        v.aspect_ratio_idc == 255,
                        elements().bits(16, v.sar_width as int).bits(16, v.sar_height as int),
                    ),
            )
            .bit(v.overscan_info_present_flag)
            .only(v.overscan_info_present_flag, elements().bit(v.overscan_appropriate_flag)),
    )) by {
        broadcast use group_elements;

        reveal(vui_display_syntax);
    }
    assert(consists_of(
        vui_signal_syntax(v),
        elements()
            .bit(v.video_signal_type_present_flag)
            .only(
                v.video_signal_type_present_flag,
                elements()
                    .bits(3, v.video_format as int)
                    .bit(v.video_full_range_flag)
                    .bit(v.colour_description_present_flag)
                    .only(
                        v.colour_description_present_flag,
                        elements()
                            .bits(8, v.colour_primaries as int)
                            .bits(8, v.transfer_characteristics as int)
                            .bits(8, v.matrix_coeffs as int),
                    ),
            )
            .bit(v.chroma_loc_info_present_flag)
            .only(
                v.chroma_loc_info_present_flag,
                elements()
                    .unsigned(v.chroma_sample_loc_type_top_field as int)
                    .unsigned(v.chroma_sample_loc_type_bottom_field as int),
            ),
    )) by {
        broadcast use group_elements;

        reveal(vui_signal_syntax);
    }
    assert(consists_of(
        vui_window_syntax(v),
        elements()
            .bit(v.neutral_chroma_indication_flag)
            .bit(v.field_seq_flag)
            .bit(v.frame_field_info_present_flag)
            .bit(v.default_display_window_flag)
            .only(
                v.default_display_window_flag,
                elements()
                    .unsigned(v.def_disp_win_left_offset as int)
                    .unsigned(v.def_disp_win_right_offset as int)
                    .unsigned(v.def_disp_win_top_offset as int)
                    .unsigned(v.def_disp_win_bottom_offset as int),
            ),
    )) by {
        broadcast use group_elements;

        reveal(vui_window_syntax);
    }
    assert(consists_of(
        vui_timing_syntax(v, max_sub_layers_minus1),
        elements()
            .bit(v.timing_info_present_flag)
            .only(
                v.timing_info_present_flag,
                elements()
                    .bits(32, v.num_units_in_tick as int)
                    .bits(32, v.time_scale as int)
                    .bit(v.poc_proportional_to_timing_flag)
                    .only(
                        v.poc_proportional_to_timing_flag,
                        elements().unsigned(v.num_ticks_poc_diff_one_minus1 as int),
                    )
                    .bit(v.hrd_parameters_present_flag)
                    .only(
                        v.hrd_parameters_present_flag,
                        told(hrd_syntax(v.hrd, true, max_sub_layers_minus1)),
                    ),
            ),
    )) by {
        broadcast use group_elements;

        reveal(vui_timing_syntax);
    }
    assert(consists_of(
        vui_restriction_syntax(v),
        elements()
            .bit(v.bitstream_restriction_flag)
            .only(
                v.bitstream_restriction_flag,
                elements()
                    .bit(v.tiles_fixed_structure_flag)
                    .bit(v.motion_vectors_over_pic_boundaries_flag)
                    .bit(v.restricted_ref_pic_lists_flag)
                    .unsigned(v.min_spatial_segmentation_idc as int)
                    .unsigned(v.max_bytes_per_pic_denom as int)
                    .unsigned(v.max_bits_per_min_cu_denom as int)
                    .unsigned(v.log2_max_mv_length_horizontal as int)
                    .unsigned(v.log2_max_mv_length_vertical as int),
            ),
    )) by {
        broadcast use group_elements;

        reveal(vui_restriction_syntax);
    }
    reveal(vui_syntax);
}

/// The sub-layer ordering information, from sub-layer `lo`.
proof fn lemma_vps_ordering(v: Vps, lo: int, rows: Seq<Elements>, i: int)
    requires
        0 <= i <= rows.len(),
        0 <= lo,
        lo + rows.len() <= 7,
        forall|k: int|
            i <= k < rows.len() ==> #[trigger] rows[k] == elements()
                .unsigned(v.max_dec_pic_buffering_minus1[lo + k] as int)
                .unsigned(v.max_num_reorder_pics[lo + k] as int)
                .unsigned(v.max_latency_increase_plus1[lo + k] as int),
    ensures
        consists_of(vps_ordering_from(v, lo + i, lo + rows.len()), joined(rows.skip(i))),
    decreases rows.len() - i,
{
    broadcast use group_elements;

    if i < rows.len() {
        lemma_vps_ordering(v, lo, rows, i + 1);
        lemma_rows(rows, i);
    } else {
        lemma_no_rows(rows);
    }
}

/// The sub-layer ordering information, from sub-layer `lo`.
proof fn lemma_sps_ordering(s: Sps, lo: int, rows: Seq<Elements>, i: int)
    requires
        0 <= i <= rows.len(),
        0 <= lo,
        lo + rows.len() <= 7,
        forall|k: int|
            i <= k < rows.len() ==> #[trigger] rows[k] == elements()
                .unsigned(s.max_dec_pic_buffering_minus1[lo + k] as int)
                .unsigned(s.max_num_reorder_pics[lo + k] as int)
                .unsigned(s.max_latency_increase_plus1[lo + k] as int),
    ensures
        consists_of(sps_ordering_from(s, lo + i, lo + rows.len()), joined(rows.skip(i))),
    decreases rows.len() - i,
{
    broadcast use group_elements;

    if i < rows.len() {
        lemma_sps_ordering(s, lo, rows, i + 1);
        lemma_rows(rows, i);
    } else {
        lemma_no_rows(rows);
    }
}

/// The first sub-layer whose ordering information is coded: all have it, or the highest alone.
pub open spec fn first_ordered(present: bool, max_sub_layers_minus1: int) -> int {
    if present {
        0
    } else {
        max_sub_layers_minus1
    }
}

/// The first sub-layer of a video parameter set whose buffering is coded.
pub open spec fn first_of_vps(v: Vps) -> int {
    first_ordered(v.sub_layer_ordering_info_present_flag, v.max_sub_layers_minus1 as int)
}

/// The first sub-layer of a sequence parameter set whose buffering is coded.
pub open spec fn first_of_sps(s: Sps) -> int {
    first_ordered(s.sub_layer_ordering_info_present_flag, s.max_sub_layers_minus1 as int)
}

/// Zero flags, one by one.
proof fn lemma_zero_flags(rows: Seq<Elements>, i: int)
    requires
        0 <= i <= rows.len(),
        forall|k: int| i <= k < rows.len() ==> #[trigger] rows[k] == elements().bit(false),
    ensures
        consists_of(zero_flags(rows.len() - i), joined(rows.skip(i))),
    decreases rows.len() - i,
{
    broadcast use group_elements;

    if i < rows.len() {
        lemma_zero_flags(rows, i + 1);
        lemma_rows(rows, i);
    } else {
        lemma_no_rows(rows);
    }
}

/// The layer sets, each with a zero flag for each layer.
proof fn lemma_layer_sets(m: nat, rows: Seq<Elements>, i: int)
    requires
        0 <= i <= rows.len(),
        forall|k: int|
            i <= k < rows.len() ==> #[trigger] rows[k] == joined(
                Seq::new(m, |j: int| elements().bit(false)),
            ),
    ensures
        consists_of(layer_sets_from(rows.len() - i, m as int), joined(rows.skip(i))),
    decreases rows.len() - i,
{
    broadcast use group_elements;

    if i < rows.len() {
        lemma_layer_sets(m, rows, i + 1);
        lemma_rows(rows, i);
        let flags = Seq::new(m, |j: int| elements().bit(false));
        assert(flags.skip(0) =~= flags);
        lemma_zero_flags(flags, 0);
    } else {
        lemma_no_rows(rows);
    }
}

/// The hypothetical reference decoder parameters.
proof fn lemma_vps_hrds(v: Vps, rows: Seq<Elements>, i: int)
    requires
        0 <= i <= rows.len(),
        rows.len() <= v.hrd_layer_set_idx.len(),
        rows.len() <= v.cprms_present_flag.len() || rows.len() <= 1,
        rows.len() <= v.hrd_parameters.len(),
        forall|k: int| i <= k < rows.len() ==> #[trigger] rows[k] == elements()
                .unsigned(v.hrd_layer_set_idx[k] as int)
                .only(k > 0, elements().bit(v.cprms_present_flag[k]))
                .all(
                    told(
                        hrd_syntax(
                            v.hrd_parameters[k],
                            k == 0 || v.cprms_present_flag[k],
                            v.max_sub_layers_minus1 as int,
                        ),
                    ),
                ),
    ensures
        consists_of(vps_hrds_from(v, i, rows.len() as int), joined(rows.skip(i))),
    decreases rows.len() - i,
{
    broadcast use group_elements;

    if i < rows.len() {
        lemma_vps_hrds(v, rows, i + 1);
        lemma_rows(rows, i);
    } else {
        lemma_no_rows(rows);
    }
}

/// `video_parameter_set_rbsp()` (7.3.2.1): what a video parameter set is coded as, in the order in
/// which it is read. No layer set holds a layer.
pub proof fn law_vps_elements(v: Vps)
    requires
        v.max_sub_layers_minus1 <= 6,
        v.timing_info_present_flag ==> {
            &&& v.num_hrd_parameters <= v.hrd_layer_set_idx.len()
            &&& v.num_hrd_parameters <= v.cprms_present_flag.len() || v.num_hrd_parameters <= 1
            &&& v.num_hrd_parameters <= v.hrd_parameters.len()
        },
    ensures
        consists_of(
            vps_syntax(v),
            elements()
                .bits(4, v.video_parameter_set_id as int)
                .bit(v.base_layer_internal_flag)
                .bit(v.base_layer_available_flag)
                .bits(6, v.max_layers_minus1 as int)
                .bits(3, v.max_sub_layers_minus1 as int)
                .bit(v.temporal_id_nesting_flag)
                .bits(16, 0xffff)
                .all(
                    told(ptl_syntax(v.profile_tier_level, true, v.max_sub_layers_minus1 as int)),
                )
                .all(
                    elements()
                        .bit(v.sub_layer_ordering_info_present_flag)
                        .all(
                            joined(
                                Seq::new(
                                    (if v.sub_layer_ordering_info_present_flag {
                                        v.max_sub_layers_minus1 + 1
                                    } else {
                                        1
                                    }) as nat,
                                    |k: int|
                                        elements()
                                            .unsigned(
                                                v.max_dec_pic_buffering_minus1[first_of_vps(v) + k] as int,
                                            )
                                            .unsigned(
                                                v.max_num_reorder_pics[first_of_vps(v) + k] as int,
                                            )
                                            .unsigned(
                                                v.max_latency_increase_plus1[first_of_vps(v) + k] as int,
                                            ),
                                ),
                            ),
                        )
                        .bits(6, v.max_layer_id as int)
                        .unsigned(v.num_layer_sets_minus1 as int)
                        .all(
                            joined(
                                Seq::new(
                                    v.num_layer_sets_minus1 as nat,
                                    |k: int|
                                        joined(Seq::new((v.max_layer_id + 1) as nat, |j: int| elements().bit(false))),
                                ),
                            ),
                        ),
                )
                .all(
                    elements()
                        .bit(v.timing_info_present_flag)
                        .only(
                            v.timing_info_present_flag,
                            elements()
                                .bits(32, v.num_units_in_tick as int)
                                .bits(32, v.time_scale as int)
                                .bit(v.poc_proportional_to_timing_flag)
                                .only(
                                    v.poc_proportional_to_timing_flag,
                                    elements().unsigned(v.num_ticks_poc_diff_one_minus1 as int),
                                )
                                .unsigned(v.num_hrd_parameters as int)
                                .all(joined(
                                    Seq::new(
                                        v.num_hrd_parameters as nat,
                                        |k: int|
                                            elements()
                                                .unsigned(v.hrd_layer_set_idx[k] as int)
                                                .only(
                                                    k > 0,
                                                    elements().bit(v.cprms_present_flag[k]),
                                                )
                                                .all(
                                                    told(
                                                        hrd_syntax(
                                                            v.hrd_parameters[k],
                                                            k == 0 || v.cprms_present_flag[k],
                                                            v.max_sub_layers_minus1 as int,
                                                        ),
                                                    ),
                                                ),
                                    ),
                                )),
                        ),
                )
                .bit(v.extension_flag),
        ),
{
    broadcast use {lemma_bits, lemma_elements_push};

    assert(consists_of(
        vps_head_syntax(v),
        elements()
            .bits(4, v.video_parameter_set_id as int)
            .bit(v.base_layer_internal_flag)
            .bit(v.base_layer_available_flag)
            .bits(6, v.max_layers_minus1 as int)
            .bits(3, v.max_sub_layers_minus1 as int)
            .bit(v.temporal_id_nesting_flag)
            .bits(16, 0xffff),
    )) by {
        broadcast use group_elements;

        reveal(vps_head_syntax);
    }
    assert(consists_of(
        vps_layers_syntax(v),
        elements()
            .bit(v.sub_layer_ordering_info_present_flag)
            .all(
                joined(
                    Seq::new(
                        (if v.sub_layer_ordering_info_present_flag {
                            v.max_sub_layers_minus1 + 1
                        } else {
                            1
                        }) as nat,
                        |k: int|
                            elements()
                                .unsigned(
                                    v.max_dec_pic_buffering_minus1[first_of_vps(v) + k] as int,
                                )
                                .unsigned(
                                    v.max_num_reorder_pics[first_of_vps(v) + k] as int,
                                )
                                .unsigned(
                                    v.max_latency_increase_plus1[first_of_vps(v) + k] as int,
                                ),
                    ),
                ),
            )
            .bits(6, v.max_layer_id as int)
            .unsigned(v.num_layer_sets_minus1 as int)
            .all(
                joined(
                    Seq::new(
                        v.num_layer_sets_minus1 as nat,
                        |k: int|
                            joined(Seq::new((v.max_layer_id + 1) as nat, |j: int| elements().bit(false))),
                    ),
                ),
            ),
    )) by {
        broadcast use group_elements;

        reveal(vps_layers_syntax);
        let lo = first_ordered(
            v.sub_layer_ordering_info_present_flag,
            v.max_sub_layers_minus1 as int,
        );
        let rows = Seq::new(
            (if v.sub_layer_ordering_info_present_flag {
                v.max_sub_layers_minus1 + 1
            } else {
                1
            }) as nat,
            |k: int|
                elements()
                    .unsigned(
                        v.max_dec_pic_buffering_minus1[first_of_vps(v) + k] as int,
                    )
                    .unsigned(
                        v.max_num_reorder_pics[first_of_vps(v) + k] as int,
                    )
                    .unsigned(
                        v.max_latency_increase_plus1[first_of_vps(v) + k] as int,
                    ),
        );
        assert(rows.skip(0) =~= rows);
        lemma_vps_ordering(v, lo, rows, 0);
        let sets = Seq::new(
            v.num_layer_sets_minus1 as nat,
            |k: int| joined(Seq::new((v.max_layer_id + 1) as nat, |j: int| elements().bit(false))),
        );
        assert(sets.skip(0) =~= sets);
        lemma_layer_sets((v.max_layer_id + 1) as nat, sets, 0);
    }
    assert(consists_of(
        vps_timing_syntax(v),
        elements()
            .bit(v.timing_info_present_flag)
            .only(
                v.timing_info_present_flag,
                elements()
                    .bits(32, v.num_units_in_tick as int)
                    .bits(32, v.time_scale as int)
                    .bit(v.poc_proportional_to_timing_flag)
                    .only(
                        v.poc_proportional_to_timing_flag,
                        elements().unsigned(v.num_ticks_poc_diff_one_minus1 as int),
                    )
                    .unsigned(v.num_hrd_parameters as int)
                    .all(joined(
                        Seq::new(
                            v.num_hrd_parameters as nat,
                            |k: int|
                                elements()
                                    .unsigned(v.hrd_layer_set_idx[k] as int)
                                    .only(k > 0, elements().bit(v.cprms_present_flag[k]))
                                    .all(
                                        told(
                                            hrd_syntax(
                                                v.hrd_parameters[k],
                                                k == 0 || v.cprms_present_flag[k],
                                                v.max_sub_layers_minus1 as int,
                                            ),
                                        ),
                                    ),
                        ),
                    )),
            ),
    )) by {
        broadcast use group_elements;

        reveal(vps_timing_syntax);
        if v.timing_info_present_flag {
            let rows = Seq::new(
                v.num_hrd_parameters as nat,
                |k: int|
                    elements()
                        .unsigned(v.hrd_layer_set_idx[k] as int)
                        .only(k > 0, elements().bit(v.cprms_present_flag[k]))
                        .all(
                            told(
                                hrd_syntax(
                                    v.hrd_parameters[k],
                                    k == 0 || v.cprms_present_flag[k],
                                    v.max_sub_layers_minus1 as int,
                                ),
                            ),
                        ),
            );
            assert(rows.skip(0) =~= rows);
            lemma_vps_hrds(v, rows, 0);
        }
    }
    reveal(vps_syntax);
}

/// The short-term reference picture sets.
proof fn lemma_sps_sets(s: Sps, rows: Seq<Elements>, i: int)
    requires
        0 <= i <= rows.len() <= s.short_term_ref_pic_set.len(),
        forall|k: int| i <= k < rows.len() ==> #[trigger] rows[k] == told(
            st_ref_pic_set_syntax(s.short_term_ref_pic_set[k], k),
        ),
    ensures
        consists_of(sps_st_rps_from(s, i, rows.len() as int), joined(rows.skip(i))),
    decreases rows.len() - i,
{
    broadcast use group_elements;

    if i < rows.len() {
        lemma_sps_sets(s, rows, i + 1);
        lemma_rows(rows, i);
    } else {
        lemma_no_rows(rows);
    }
}

/// The long-term reference pictures.
proof fn lemma_sps_lt(s: Sps, rows: Seq<Elements>, i: int)
    requires
        0 <= i <= rows.len() <= 32,
        forall|k: int| i <= k < rows.len() ==> #[trigger] rows[k] == elements()
                .bits(s.log2_max_pic_order_cnt_lsb_minus4 + 4, s.lt_ref_pic_poc_lsb_sps[k] as int)
                .bit(s.used_by_curr_pic_lt_sps_flag[k]),
    ensures
        consists_of(sps_lt_from(s, i, rows.len() as int), joined(rows.skip(i))),
    decreases rows.len() - i,
{
    broadcast use group_elements;

    if i < rows.len() {
        lemma_sps_lt(s, rows, i + 1);
        lemma_rows(rows, i);
    } else {
        lemma_no_rows(rows);
    }
}

/// `seq_parameter_set_rbsp()` (7.3.2.2): what a sequence parameter set is coded as, in the order in
/// which it is read.
pub proof fn law_sps_elements(s: Sps)
    requires
        s.max_sub_layers_minus1 <= 6,
        s.num_short_term_ref_pic_sets <= s.short_term_ref_pic_set.len(),
        s.long_term_ref_pics_present_flag ==> s.num_long_term_ref_pics_sps <= 32,
    ensures
        consists_of(
            sps_syntax(s),
            elements()
                .bits(4, s.video_parameter_set_id as int)
                .bits(3, s.max_sub_layers_minus1 as int)
                .bit(s.temporal_id_nesting_flag)
                .all(
                    told(ptl_syntax(s.profile_tier_level, true, s.max_sub_layers_minus1 as int)),
                )
                .all(
                    elements()
                        .unsigned(s.seq_parameter_set_id as int)
                        .unsigned(s.chroma_format_idc as int)
                        .only(
                            s.chroma_format_idc == 3,
                            elements().bit(s.separate_colour_plane_flag),
                        )
                        .unsigned(s.pic_width_in_luma_samples as int)
                        .unsigned(s.pic_height_in_luma_samples as int)
                        .bit(s.conformance_window_flag)
                        .only(
                            s.conformance_window_flag,
                            elements()
                                .unsigned(s.conf_win_left_offset as int)
                                .unsigned(s.conf_win_right_offset as int)
                                .unsigned(s.conf_win_top_offset as int)
                                .unsigned(s.conf_win_bottom_offset as int),
                        )
                        .unsigned(s.bit_depth_luma_minus8 as int)
                        .unsigned(s.bit_depth_chroma_minus8 as int)
                        .unsigned(s.log2_max_pic_order_cnt_lsb_minus4 as int),
                )
                .all(
                    elements()
                        .bit(s.sub_layer_ordering_info_present_flag)
                        .all(
                            joined(
                                Seq::new(
                                    (if s.sub_layer_ordering_info_present_flag {
                                        s.max_sub_layers_minus1 + 1
                                    } else {
                                        1
                                    }) as nat,
                                    |k: int|
                                        elements()
                                            .unsigned(
                                                s.max_dec_pic_buffering_minus1[first_of_sps(s) + k] as int,
                                            )
                                            .unsigned(
                                                s.max_num_reorder_pics[first_of_sps(s) + k] as int,
                                            )
                                            .unsigned(
                                                s.max_latency_increase_plus1[first_of_sps(s) + k] as int,
                                            ),
                                ),
                            ),
                        ),
                )
                .all(
                    elements()
                        .unsigned(s.log2_min_luma_coding_block_size_minus3 as int)
                        .unsigned(s.log2_diff_max_min_luma_coding_block_size as int)
                        .unsigned(s.log2_min_luma_transform_block_size_minus2 as int)
                        .unsigned(s.log2_diff_max_min_luma_transform_block_size as int)
                        .unsigned(s.max_transform_hierarchy_depth_inter as int)
                        .unsigned(s.max_transform_hierarchy_depth_intra as int),
                )
                .all(
                    elements()
                        .bit(s.scaling_list_enabled_flag)
                        .only(
                            s.scaling_list_enabled_flag,
                            elements()
                                .bit(s.scaling_list_data_present_flag)
                                .only(
                                    s.scaling_list_data_present_flag,
                                    told(scaling_list_data_syntax(s.scaling_list)),
                                ),
                        ),
                )
                .all(
                    elements()
                        .bit(s.amp_enabled_flag)
                        .bit(s.sample_adaptive_offset_enabled_flag)
                        .bit(s.pcm_enabled_flag)
                        .only(
                            s.pcm_enabled_flag,
                            elements()
                                .bits(4, s.pcm_sample_bit_depth_luma_minus1 as int)
                                .bits(4, s.pcm_sample_bit_depth_chroma_minus1 as int)
                                .unsigned(s.log2_min_pcm_luma_coding_block_size_minus3 as int)
                                .unsigned(s.log2_diff_max_min_pcm_luma_coding_block_size as int)
                                .bit(s.pcm_loop_filter_disabled_flag),
                        ),
                )
                .all(
                    elements().unsigned(s.num_short_term_ref_pic_sets as int).all(
                        joined(
                            Seq::new(
                                s.num_short_term_ref_pic_sets as nat,
                                |k: int| told(st_ref_pic_set_syntax(s.short_term_ref_pic_set[k], k)),
                            ),
                        ),
                    ),
                )
                .all(
                    elements()
                        .bit(s.long_term_ref_pics_present_flag)
                        .only(
                            s.long_term_ref_pics_present_flag,
                            elements().unsigned(s.num_long_term_ref_pics_sps as int).all(
                                joined(
                                    Seq::new(
                                        s.num_long_term_ref_pics_sps as nat,
                                        |k: int|
                                            elements()
                                                .bits(
                                                    s.log2_max_pic_order_cnt_lsb_minus4 + 4,
                                                    s.lt_ref_pic_poc_lsb_sps[k] as int,
                                                )
                                                .bit(s.used_by_curr_pic_lt_sps_flag[k]),
                                    ),
                                ),
                            ),
                        )
                        .all(
                            elements()
                                .bit(s.temporal_mvp_enabled_flag)
                                .bit(s.strong_intra_smoothing_enabled_flag)
                                .bit(s.vui_parameters_present_flag)
                                .only(
                                    s.vui_parameters_present_flag,
                                    told(
                                        vui_syntax(
                                            s.vui_parameters,
                                            s.max_sub_layers_minus1 as int,
                                        ),
                                    ),
                                ),
                        )
                        .all(
                            elements()
                                .bit(s.extension_present_flag)
                                .only(
                                    s.extension_present_flag,
                                    elements()
                                        .bit(s.range_extension_flag)
                                        .only(s.range_extension_flag, elements()
                                                    .bit(
                                                        s.range_extension.transform_skip_rotation_enabled_flag,
                                                    )
                                                    .bit(
                                                        s.range_extension.transform_skip_context_enabled_flag,
                                                    )
                                                    .bit(
                                                        s.range_extension.implicit_rdpcm_enabled_flag,
                                                    )
                                                    .bit(
                                                        s.range_extension.explicit_rdpcm_enabled_flag,
                                                    )
                                                    .bit(
                                                        s.range_extension.extended_precision_processing_flag,
                                                    )
                                                    .bit(
                                                        s.range_extension.intra_smoothing_disabled_flag,
                                                    )
                                                    .bit(
                                                        s.range_extension.high_precision_offsets_enabled_flag,
                                                    )
                                                    .bit(
                                                        s.range_extension.persistent_rice_adaptation_enabled_flag,
                                                    )
                                                    .bit(s.range_extension.cabac_bypass_alignment_enabled_flag))
                                        .bit(false)
                                        .bit(false)
                                        .bit(s.scc_extension_flag)
                                        .all(
                                            if s.scc_extension_flag {
                                                elements().unsupported()
                                            } else {
                                                elements().bits(4, 0)
                                            },
                                        ),
                                ),
                        ),
                ),
        ),
{
    assert(consists_of(
        sps_head_syntax(s),
        elements()
            .bits(4, s.video_parameter_set_id as int)
            .bits(3, s.max_sub_layers_minus1 as int)
            .bit(s.temporal_id_nesting_flag),
    )) by {
        broadcast use group_elements;

        reveal(sps_head_syntax);
    }
    assert(consists_of(
        sps_format_syntax(s),
        elements()
            .unsigned(s.seq_parameter_set_id as int)
            .unsigned(s.chroma_format_idc as int)
            .only(s.chroma_format_idc == 3, elements().bit(s.separate_colour_plane_flag))
            .unsigned(s.pic_width_in_luma_samples as int)
            .unsigned(s.pic_height_in_luma_samples as int)
            .bit(s.conformance_window_flag)
            .only(
                s.conformance_window_flag,
                elements()
                    .unsigned(s.conf_win_left_offset as int)
                    .unsigned(s.conf_win_right_offset as int)
                    .unsigned(s.conf_win_top_offset as int)
                    .unsigned(s.conf_win_bottom_offset as int),
            )
            .unsigned(s.bit_depth_luma_minus8 as int)
            .unsigned(s.bit_depth_chroma_minus8 as int)
            .unsigned(s.log2_max_pic_order_cnt_lsb_minus4 as int),
    )) by {
        broadcast use group_elements;

        reveal(sps_format_syntax);
    }
    assert(consists_of(
        sps_ordering_syntax(s),
        elements()
            .bit(s.sub_layer_ordering_info_present_flag)
            .all(
                joined(
                    Seq::new(
                        (if s.sub_layer_ordering_info_present_flag {
                            s.max_sub_layers_minus1 + 1
                        } else {
                            1
                        }) as nat,
                        |k: int|
                            elements()
                                .unsigned(
                                    s.max_dec_pic_buffering_minus1[first_of_sps(s) + k] as int,
                                )
                                .unsigned(
                                    s.max_num_reorder_pics[first_of_sps(s) + k] as int,
                                )
                                .unsigned(
                                    s.max_latency_increase_plus1[first_of_sps(s) + k] as int,
                                ),
                    ),
                ),
            ),
    )) by {
        broadcast use group_elements;

        reveal(sps_ordering_syntax);
        let lo = first_ordered(
            s.sub_layer_ordering_info_present_flag,
            s.max_sub_layers_minus1 as int,
        );
        let rows = Seq::new(
            (if s.sub_layer_ordering_info_present_flag {
                s.max_sub_layers_minus1 + 1
            } else {
                1
            }) as nat,
            |k: int|
                elements()
                    .unsigned(
                        s.max_dec_pic_buffering_minus1[first_of_sps(s) + k] as int,
                    )
                    .unsigned(
                        s.max_num_reorder_pics[first_of_sps(s) + k] as int,
                    )
                    .unsigned(
                        s.max_latency_increase_plus1[first_of_sps(s) + k] as int,
                    ),
        );
        assert(rows.skip(0) =~= rows);
        lemma_sps_ordering(s, lo, rows, 0);
    }
    assert(consists_of(
        sps_blocks_syntax(s),
        elements()
            .unsigned(s.log2_min_luma_coding_block_size_minus3 as int)
            .unsigned(s.log2_diff_max_min_luma_coding_block_size as int)
            .unsigned(s.log2_min_luma_transform_block_size_minus2 as int)
            .unsigned(s.log2_diff_max_min_luma_transform_block_size as int)
            .unsigned(s.max_transform_hierarchy_depth_inter as int)
            .unsigned(s.max_transform_hierarchy_depth_intra as int),
    )) by {
        broadcast use group_elements;

        reveal(sps_blocks_syntax);
    }
    assert(consists_of(
        sps_scaling_syntax(s),
        elements()
            .bit(s.scaling_list_enabled_flag)
            .only(
                s.scaling_list_enabled_flag,
                elements()
                    .bit(s.scaling_list_data_present_flag)
                    .only(
                        s.scaling_list_data_present_flag,
                        told(scaling_list_data_syntax(s.scaling_list)),
                    ),
            ),
    )) by {
        broadcast use group_elements;

        reveal(sps_scaling_syntax);
    }
    assert(consists_of(
        sps_tools_syntax(s),
        elements()
            .bit(s.amp_enabled_flag)
            .bit(s.sample_adaptive_offset_enabled_flag)
            .bit(s.pcm_enabled_flag)
            .only(
                s.pcm_enabled_flag,
                elements()
                    .bits(4, s.pcm_sample_bit_depth_luma_minus1 as int)
                    .bits(4, s.pcm_sample_bit_depth_chroma_minus1 as int)
                    .unsigned(s.log2_min_pcm_luma_coding_block_size_minus3 as int)
                    .unsigned(s.log2_diff_max_min_pcm_luma_coding_block_size as int)
                    .bit(s.pcm_loop_filter_disabled_flag),
            ),
    )) by {
        broadcast use group_elements;

        reveal(sps_tools_syntax);
    }
    assert(consists_of(
        sps_short_term_syntax(s),
        elements().unsigned(s.num_short_term_ref_pic_sets as int).all(
            joined(
                Seq::new(
                    s.num_short_term_ref_pic_sets as nat,
                    |k: int| told(st_ref_pic_set_syntax(s.short_term_ref_pic_set[k], k)),
                ),
            ),
        ),
    )) by {
        broadcast use group_elements;

        reveal(sps_short_term_syntax);
        let rows = Seq::new(
            s.num_short_term_ref_pic_sets as nat,
            |k: int| told(st_ref_pic_set_syntax(s.short_term_ref_pic_set[k], k)),
        );
        assert(rows.skip(0) =~= rows);
        lemma_sps_sets(s, rows, 0);
    }
    assert(consists_of(
        sps_long_term_syntax(s),
        elements()
            .bit(s.long_term_ref_pics_present_flag)
            .only(
                s.long_term_ref_pics_present_flag,
                elements().unsigned(s.num_long_term_ref_pics_sps as int).all(
                    joined(
                        Seq::new(
                            s.num_long_term_ref_pics_sps as nat,
                            |k: int|
                                elements()
                                    .bits(
                                        s.log2_max_pic_order_cnt_lsb_minus4 + 4,
                                        s.lt_ref_pic_poc_lsb_sps[k] as int,
                                    )
                                    .bit(s.used_by_curr_pic_lt_sps_flag[k]),
                        ),
                    ),
                ),
            ),
    )) by {
        broadcast use group_elements;

        reveal(sps_long_term_syntax);
        let rows = Seq::new(
            s.num_long_term_ref_pics_sps as nat,
            |k: int|
                elements()
                    .bits(
                        s.log2_max_pic_order_cnt_lsb_minus4 + 4,
                        s.lt_ref_pic_poc_lsb_sps[k] as int,
                    )
                    .bit(s.used_by_curr_pic_lt_sps_flag[k]),
        );
        if s.long_term_ref_pics_present_flag {
            assert(rows.skip(0) =~= rows);
            lemma_sps_lt(s, rows, 0);
        }
    }
    assert(consists_of(
        sps_vui_syntax(s),
        elements()
            .bit(s.temporal_mvp_enabled_flag)
            .bit(s.strong_intra_smoothing_enabled_flag)
            .bit(s.vui_parameters_present_flag)
            .only(
                s.vui_parameters_present_flag,
                told(vui_syntax(s.vui_parameters, s.max_sub_layers_minus1 as int)),
            ),
    )) by {
        broadcast use group_elements;

        reveal(sps_vui_syntax);
    }
    assert(consists_of(
        sps_extension_syntax(s),
        elements()
            .bit(s.extension_present_flag)
            .only(
                s.extension_present_flag,
                elements()
                    .bit(s.range_extension_flag)
                    .only(s.range_extension_flag, elements()
                                .bit(s.range_extension.transform_skip_rotation_enabled_flag)
                                .bit(s.range_extension.transform_skip_context_enabled_flag)
                                .bit(s.range_extension.implicit_rdpcm_enabled_flag)
                                .bit(s.range_extension.explicit_rdpcm_enabled_flag)
                                .bit(s.range_extension.extended_precision_processing_flag)
                                .bit(s.range_extension.intra_smoothing_disabled_flag)
                                .bit(s.range_extension.high_precision_offsets_enabled_flag)
                                .bit(s.range_extension.persistent_rice_adaptation_enabled_flag)
                                .bit(s.range_extension.cabac_bypass_alignment_enabled_flag))
                    .bit(false)
                    .bit(false)
                    .bit(s.scc_extension_flag)
                    .all(
                        if s.scc_extension_flag {
                            elements().unsupported()
                        } else {
                            elements().bits(4, 0)
                        },
                    ),
            ),
    )) by {
        broadcast use group_elements;

        reveal(sps_extension_syntax);
        reveal(sps_range_extension_syntax);
    }
    reveal(sps_tail_syntax);
    reveal(sps_syntax);
}

/// `num_ref_idx_l0_active_minus1`, or that of list 1: of the header where it overrides the default
/// of the picture parameter set (7.4.7.1).
pub open spec fn active(h: SliceHeader, pps: Pps, list1: bool) -> int {
    match (h.num_ref_idx_active_override_flag, list1) {
        (true, false) => h.num_ref_idx_l0_active_minus1 as int,
        (true, true) => h.num_ref_idx_l1_active_minus1 as int,
        (false, false) => pps.num_ref_idx_l0_default_active_minus1 as int,
        (false, true) => pps.num_ref_idx_l1_default_active_minus1 as int,
    }
}

/// `CeilLog2( n )` is the number of digits that tell `n` values apart, and no fewer do.
pub proof fn law_ceil_log2(n: int)
    requires
        n >= 1,
    ensures
        spec_ceil_log2(n) >= 0,
        n <= pow2(spec_ceil_log2(n) as nat),
        spec_ceil_log2(n) > 0 ==> pow2((spec_ceil_log2(n) - 1) as nat) < n,
{
    if n > 1 {
        lemma_bit_length((n - 1) as nat);
    } else {
        lemma_pow2_values();
    }
}

/// The flags that are set are counted.
pub proof fn law_count_true(s: Seq<bool>, n: int)
    requires
        0 <= n <= s.len(),
    ensures
        count_true(s, n) == s.take(n).filter(|b: bool| b).len(),
    decreases n,
{
    reveal(Seq::filter);
    let set = |b: bool| b;
    if n > 0 {
        law_count_true(s, n - 1);
        assert(s.take(n).drop_last() =~= s.take(n - 1));
        assert(s.take(n).last() == s[n - 1]);
    }
}

/// `NumPicTotalCurr` (7-55): the reference pictures of the set in use that the current picture
/// uses, the long-term ones among them, and the current picture itself where it is one.
pub proof fn law_pic_total_curr(h: SliceHeader, sps: Sps, pps: Pps)
    requires
        h.has_references(sps),
    ensures
        ({
            let set = |b: bool| b;
            let rps = if h.short_term_ref_pic_set_sps_flag {
                sps.short_term_ref_pic_set[h.curr_rps_idx as int]
            } else {
                h.short_term_ref_pic_set
            };
            h.pic_total_curr(sps, pps) == rps.used_by_curr_pic_s0@.take(
                rps.num_negative_pics as int,
            ).filter(set).len() + rps.used_by_curr_pic_s1@.take(
                rps.num_positive_pics as int,
            ).filter(set).len() + h.used_by_curr_pic_lt@.take(
                h.num_long_term_sps + h.num_long_term_pics,
            ).filter(set).len() + if pps.scc_extension.curr_pic_ref_enabled_flag {
                1int
            } else {
                0int
            }
        }),
{
    let rps = h.rps(sps);
    law_count_true(rps.used_by_curr_pic_s0@, rps.num_negative_pics as int);
    law_count_true(rps.used_by_curr_pic_s1@, rps.num_positive_pics as int);
    law_count_true(h.used_by_curr_pic_lt@, h.num_long_term());
}

/// Entries of a fixed length.
proof fn lemma_us(bits: int, s: Seq<u32>, rows: Seq<Elements>, i: int)
    requires
        0 <= i <= rows.len() <= s.len(),
        forall|k: int| i <= k < rows.len() ==> #[trigger] rows[k] == elements().bits(bits, s[k] as int),
    ensures
        consists_of(us_from(bits, s, i, rows.len() as int), joined(rows.skip(i))),
    decreases rows.len() - i,
{
    broadcast use group_elements;

    if i < rows.len() {
        lemma_us(bits, s, rows, i + 1);
        lemma_rows(rows, i);
    } else {
        lemma_no_rows(rows);
    }
}

/// `ref_pic_lists_modification()` (7.3.6.2).
pub proof fn law_rplm_elements(
    m: RefPicListModification,
    slice_type: SliceType,
    l0_minus1: int,
    l1_minus1: int,
    total: int,
)
    requires
        0 <= l0_minus1 < m.list_entry_l0@.len(),
        0 <= l1_minus1 < m.list_entry_l1@.len(),
    ensures
        consists_of(
            rplm_syntax(m, slice_type, l0_minus1, l1_minus1, total),
            elements()
                .bit(m.ref_pic_list_modification_flag_l0)
                .only(
                    m.ref_pic_list_modification_flag_l0,
                    joined(
                        Seq::new(
                            (l0_minus1 + 1) as nat,
                            |k: int| elements().bits(spec_ceil_log2(total), m.list_entry_l0[k] as int),
                        ),
                    ),
                )
                .only(
                    slice_type == SliceType::B,
                    elements()
                        .bit(m.ref_pic_list_modification_flag_l1)
                        .only(
                            m.ref_pic_list_modification_flag_l1,
                            joined(
                                Seq::new(
                                    (l1_minus1 + 1) as nat,
                                    |k: int| elements().bits(spec_ceil_log2(total), m.list_entry_l1[k] as int),
                                ),
                            ),
                        ),
                ),
        ),
{
    broadcast use group_elements;

    reveal(rplm_syntax);
    let bits = spec_ceil_log2(total);
    let l0 = Seq::new(
        (l0_minus1 + 1) as nat,
        |k: int| elements().bits(spec_ceil_log2(total), m.list_entry_l0[k] as int),
    );
    let l1 = Seq::new(
        (l1_minus1 + 1) as nat,
        |k: int| elements().bits(spec_ceil_log2(total), m.list_entry_l1[k] as int),
    );
    assert(l0.skip(0) =~= l0);
    assert(l1.skip(0) =~= l1);
    lemma_us(bits, m.list_entry_l0@, l0, 0);
    lemma_us(bits, m.list_entry_l1@, l1, 0);
}

/// The weights of the pictures.
proof fn lemma_weights(w: Weights, rows: Seq<Elements>, i: int)
    requires
        0 <= i <= rows.len(),
        forall|k: int| i <= k < rows.len() ==> #[trigger] rows[k] == elements()
                .only(
                    w.luma_flag[k],
                    elements().signed(w.luma_weight[k] as int).signed(w.luma_offset[k] as int),
                )
                .only(
                    w.chroma_flag[k],
                    elements()
                        .signed(w.chroma_weight[k][0] as int)
                        .signed(w.chroma_offset[k][0] as int)
                        .signed(w.chroma_weight[k][1] as int)
                        .signed(w.chroma_offset[k][1] as int),
                ),
    ensures
        consists_of(weights_from(w, i, rows.len() as int), joined(rows.skip(i))),
    decreases rows.len() - i,
{
    broadcast use group_elements;

    if i < rows.len() {
        lemma_weights(w, rows, i + 1);
        lemma_rows(rows, i);
    } else {
        lemma_no_rows(rows);
    }
}

/// The weights of one list: the luma flags of all pictures, their chroma flags, and the weights of
/// each.
proof fn lemma_weight_list(w: Weights, chroma_array_type: int, n: nat)
    requires
        n <= w.luma_flag.len(),
        n <= w.chroma_flag.len(),
    ensures
        consists_of(
            weight_list_syntax(w, chroma_array_type, n as int),
            joined(Seq::new(n, |k: int| elements().bit(w.luma_flag[k])))
                .only(
                    chroma_array_type != 0,
                    joined(Seq::new(n, |k: int| elements().bit(w.chroma_flag[k]))),
                )
                .all(
                    joined(
                        Seq::new(
                            n,
                            |k: int|
                                elements()
                                    .only(
                                        w.luma_flag[k],
                                        elements().signed(w.luma_weight[k] as int).signed(
                                            w.luma_offset[k] as int,
                                        ),
                                    )
                                    .only(
                                        w.chroma_flag[k],
                                        elements()
                                            .signed(w.chroma_weight[k][0] as int)
                                            .signed(w.chroma_offset[k][0] as int)
                                            .signed(w.chroma_weight[k][1] as int)
                                            .signed(w.chroma_offset[k][1] as int),
                                    ),
                        ),
                    ),
                ),
        ),
{
    broadcast use group_elements;

    reveal(weight_list_syntax);
    let luma = Seq::new(n, |k: int| elements().bit(w.luma_flag[k]));
    let chroma = Seq::new(n, |k: int| elements().bit(w.chroma_flag[k]));
    let rows = Seq::new(
        n,
        |k: int|
            elements()
                .only(
                    w.luma_flag[k],
                    elements().signed(w.luma_weight[k] as int).signed(w.luma_offset[k] as int),
                )
                .only(
                    w.chroma_flag[k],
                    elements()
                        .signed(w.chroma_weight[k][0] as int)
                        .signed(w.chroma_offset[k][0] as int)
                        .signed(w.chroma_weight[k][1] as int)
                        .signed(w.chroma_offset[k][1] as int),
                ),
    );
    assert(luma.skip(0) =~= luma);
    assert(chroma.skip(0) =~= chroma);
    assert(rows.skip(0) =~= rows);
    lemma_flags(w.luma_flag, luma, 0);
    lemma_flags(w.chroma_flag, chroma, 0);
    lemma_weights(w, rows, 0);
}

/// `pred_weight_table()` (7.3.6.3).
pub proof fn law_pwt_elements(
    t: PredWeightTable,
    slice_type: SliceType,
    chroma_array_type: int,
    l0_minus1: int,
    l1_minus1: int,
)
    requires
        0 <= l0_minus1 < t.luma_weight_l0_flag@.len(),
        0 <= l1_minus1 < t.luma_weight_l1_flag@.len(),
        t.chroma_weight_l0_flag@.len() == t.luma_weight_l0_flag@.len(),
        t.chroma_weight_l1_flag@.len() == t.luma_weight_l1_flag@.len(),
    ensures
        consists_of(
            pwt_syntax(t, slice_type, chroma_array_type, l0_minus1, l1_minus1),
            elements()
                .unsigned(t.luma_log2_weight_denom as int)
                .only(
                    chroma_array_type != 0,
                    elements().signed(t.delta_chroma_log2_weight_denom as int),
                )
                .all(
                    joined(Seq::new((l0_minus1 + 1) as nat, |k: int| elements().bit(t.luma_weight_l0_flag[k])))
                        .only(
                            chroma_array_type != 0,
                            joined(Seq::new((l0_minus1 + 1) as nat, |k: int| elements().bit(t.chroma_weight_l0_flag[k]))),
                        )
                        .all(
                            joined(
                                Seq::new(
                                    (l0_minus1 + 1) as nat,
                                    |k: int|
                                        elements()
                                            .only(
                                                t.luma_weight_l0_flag[k],
                                                elements().signed(t.delta_luma_weight_l0[k] as int).signed(
                                                    t.luma_offset_l0[k] as int,
                                                ),
                                            )
                                            .only(
                                                t.chroma_weight_l0_flag[k],
                                                elements()
                                                    .signed(t.delta_chroma_weight_l0[k][0] as int)
                                                    .signed(t.delta_chroma_offset_l0[k][0] as int)
                                                    .signed(t.delta_chroma_weight_l0[k][1] as int)
                                                    .signed(t.delta_chroma_offset_l0[k][1] as int),
                                            ),
                                ),
                            ),
                        ),
                )
                .only(
                    slice_type == SliceType::B,
                    joined(Seq::new((l1_minus1 + 1) as nat, |k: int| elements().bit(t.luma_weight_l1_flag[k])))
                        .only(
                            chroma_array_type != 0,
                            joined(Seq::new((l1_minus1 + 1) as nat, |k: int| elements().bit(t.chroma_weight_l1_flag[k]))),
                        )
                        .all(
                            joined(
                                Seq::new(
                                    (l1_minus1 + 1) as nat,
                                    |k: int|
                                        elements()
                                            .only(
                                                t.luma_weight_l1_flag[k],
                                                elements().signed(t.delta_luma_weight_l1[k] as int).signed(
                                                    t.luma_offset_l1[k] as int,
                                                ),
                                            )
                                            .only(
                                                t.chroma_weight_l1_flag[k],
                                                elements()
                                                    .signed(t.delta_chroma_weight_l1[k][0] as int)
                                                    .signed(t.delta_chroma_offset_l1[k][0] as int)
                                                    .signed(t.delta_chroma_weight_l1[k][1] as int)
                                                    .signed(t.delta_chroma_offset_l1[k][1] as int),
                                            ),
                                ),
                            ),
                        ),
                ),
        ),
{
    broadcast use group_elements;

    reveal(pwt_syntax);
    lemma_weight_list(t.l0(), chroma_array_type, (l0_minus1 + 1) as nat);
    lemma_weight_list(t.l1(), chroma_array_type, (l1_minus1 + 1) as nat);
    assert(Seq::new((l0_minus1 + 1) as nat, |k: int| elements().bit(t.l0().luma_flag[k])) =~= Seq::new(
        (l0_minus1 + 1) as nat,
        |k: int| elements().bit(t.luma_weight_l0_flag[k]),
    ));
    assert(Seq::new((l0_minus1 + 1) as nat, |k: int| elements().bit(t.l0().chroma_flag[k])) =~= Seq::new(
        (l0_minus1 + 1) as nat,
        |k: int| elements().bit(t.chroma_weight_l0_flag[k]),
    ));
    assert(Seq::new(
        (l0_minus1 + 1) as nat,
        |k: int|
            elements()
                .only(
                    t.l0().luma_flag[k],
                    elements().signed(t.l0().luma_weight[k] as int).signed(
                        t.l0().luma_offset[k] as int,
                    ),
                )
                .only(
                    t.l0().chroma_flag[k],
                    elements()
                        .signed(t.l0().chroma_weight[k][0] as int)
                        .signed(t.l0().chroma_offset[k][0] as int)
                        .signed(t.l0().chroma_weight[k][1] as int)
                        .signed(t.l0().chroma_offset[k][1] as int),
                ),
    ) =~= Seq::new(
        (l0_minus1 + 1) as nat,
        |k: int|
            elements()
                .only(
                    t.luma_weight_l0_flag[k],
                    elements().signed(t.delta_luma_weight_l0[k] as int).signed(
                        t.luma_offset_l0[k] as int,
                    ),
                )
                .only(
                    t.chroma_weight_l0_flag[k],
                    elements()
                        .signed(t.delta_chroma_weight_l0[k][0] as int)
                        .signed(t.delta_chroma_offset_l0[k][0] as int)
                        .signed(t.delta_chroma_weight_l0[k][1] as int)
                        .signed(t.delta_chroma_offset_l0[k][1] as int),
                ),
    ));
    assert(Seq::new((l1_minus1 + 1) as nat, |k: int| elements().bit(t.l1().luma_flag[k])) =~= Seq::new(
        (l1_minus1 + 1) as nat,
        |k: int| elements().bit(t.luma_weight_l1_flag[k]),
    ));
    assert(Seq::new((l1_minus1 + 1) as nat, |k: int| elements().bit(t.l1().chroma_flag[k])) =~= Seq::new(
        (l1_minus1 + 1) as nat,
        |k: int| elements().bit(t.chroma_weight_l1_flag[k]),
    ));
    assert(Seq::new(
        (l1_minus1 + 1) as nat,
        |k: int|
            elements()
                .only(
                    t.l1().luma_flag[k],
                    elements().signed(t.l1().luma_weight[k] as int).signed(
                        t.l1().luma_offset[k] as int,
                    ),
                )
                .only(
                    t.l1().chroma_flag[k],
                    elements()
                        .signed(t.l1().chroma_weight[k][0] as int)
                        .signed(t.l1().chroma_offset[k][0] as int)
                        .signed(t.l1().chroma_weight[k][1] as int)
                        .signed(t.l1().chroma_offset[k][1] as int),
                ),
    ) =~= Seq::new(
        (l1_minus1 + 1) as nat,
        |k: int|
            elements()
                .only(
                    t.luma_weight_l1_flag[k],
                    elements().signed(t.delta_luma_weight_l1[k] as int).signed(
                        t.luma_offset_l1[k] as int,
                    ),
                )
                .only(
                    t.chroma_weight_l1_flag[k],
                    elements()
                        .signed(t.delta_chroma_weight_l1[k][0] as int)
                        .signed(t.delta_chroma_offset_l1[k][0] as int)
                        .signed(t.delta_chroma_weight_l1[k][1] as int)
                        .signed(t.delta_chroma_offset_l1[k][1] as int),
                ),
    ));
}

/// Long-term reference picture `k`.
pub open spec fn long_term_elements(h: SliceHeader, sps: Sps, k: int) -> Elements {
    (if k < h.num_long_term_sps {
        elements().only(
            sps.num_long_term_ref_pics_sps > 1,
            elements().bits(
                spec_ceil_log2(sps.num_long_term_ref_pics_sps as int),
                h.lt_idx_sps[k] as int,
            ),
        )
    } else {
        elements()
            .bits(sps.log2_max_pic_order_cnt_lsb_minus4 + 4, h.poc_lsb_lt[k] as int)
            .bit(h.used_by_curr_pic_lt[k])
    })
        .bit(h.delta_poc_msb_present_flag[k])
        .only(
            h.delta_poc_msb_present_flag[k],
            elements().unsigned(
                h.delta_poc_msb_cycle_lt[k] - (if k == 0 || k == h.num_long_term_sps {
                    0
                } else {
                    h.delta_poc_msb_cycle_lt[k - 1] as int
                }),
            ),
        )
}

/// Long-term reference picture `k`.
proof fn lemma_lt_row(h: SliceHeader, sps: Sps, k: int)
    requires
        0 <= k < 16,
        h.delta_poc_msb_present_flag[k] ==> h.coded_msb_cycle(k) >= 0,
    ensures
        consists_of(lt_row_syntax(h, sps, k), long_term_elements(h, sps, k)),
{
    broadcast use group_elements;

    reveal(lt_row_syntax);
    assert(consists_of(
        syntax().part(
            if k < h.num_long_term_sps {
                syntax().when(
                    sps.num_long_term_ref_pics_sps > 1,
                    syntax().u(
                        spec_ceil_log2(sps.num_long_term_ref_pics_sps as int),
                        h.lt_idx_sps[k] as int,
                    ),
                )
            } else {
                syntax()
                    .u(sps.log2_max_pic_order_cnt_lsb_minus4 + 4, h.poc_lsb_lt[k] as int)
                    .flag(h.used_by_curr_pic_lt[k])
            },
        ),
        if k < h.num_long_term_sps {
            elements().only(
                sps.num_long_term_ref_pics_sps > 1,
                elements().bits(
                    spec_ceil_log2(sps.num_long_term_ref_pics_sps as int),
                    h.lt_idx_sps[k] as int,
                ),
            )
        } else {
            elements()
                .bits(sps.log2_max_pic_order_cnt_lsb_minus4 + 4, h.poc_lsb_lt[k] as int)
                .bit(h.used_by_curr_pic_lt[k])
        },
    )) by {
        lemma_nothing_in_front();
    }
}

/// Elements with nothing in front of them.
proof fn lemma_nothing_in_front()
    ensures
        forall|s: Seq<SyntaxElement>| #[trigger] (Seq::<SyntaxElement>::empty() + s) == s,
{
    assert forall|s: Seq<SyntaxElement>| #[trigger] (Seq::<SyntaxElement>::empty() + s) == s by {
        assert(Seq::<SyntaxElement>::empty() + s =~= s);
    }
}

/// The long-term reference pictures.
proof fn lemma_lt_rows(h: SliceHeader, sps: Sps, rows: Seq<Elements>, i: int)
    requires
        0 <= i <= rows.len() <= 16,
        forall|k: int| i <= k < rows.len() ==> #[trigger] rows[k] == long_term_elements(h, sps, k),
        forall|k: int|
            0 <= k < rows.len() && #[trigger] h.delta_poc_msb_present_flag[k] ==> h.coded_msb_cycle(
                k,
            ) >= 0,
    ensures
        consists_of(lt_rows_from(h, sps, i, rows.len() as int), joined(rows.skip(i))),
    decreases rows.len() - i,
{
    broadcast use group_elements;

    if i < rows.len() {
        lemma_lt_rows(h, sps, rows, i + 1);
        lemma_rows(rows, i);
        lemma_lt_row(h, sps, i);
    } else {
        lemma_no_rows(rows);
    }
}

/// A part of `slice_segment_header()`.
proof fn lemma_slice_type(h: SliceHeader, sps: Sps, pps: Pps)
    requires
        pps.num_extra_slice_header_bits <= 7,
    ensures
        consists_of(
            slice_type_syntax(h, sps, pps),
            elements()
                .only(
                    pps.num_extra_slice_header_bits > 0,
                    elements().bits(pps.num_extra_slice_header_bits as int, 0),
                )
                .unsigned(
                    match h.type_ {
                        SliceType::B => 0,
                        SliceType::P => 1,
                        SliceType::I => 2,
                    },
                )
                .only(pps.output_flag_present_flag, elements().bit(h.pic_output_flag))
                .only(sps.separate_colour_plane_flag, elements().bits(2, h.colour_plane_id as int)),
        ),
{
    broadcast use group_elements;

    reveal(slice_type_syntax);
    lemma_nothing_in_front();
    reveal_with_fuel(reserved_zero, 2);
}

/// A part of `slice_segment_header()`.
proof fn lemma_slice_references(h: SliceHeader, nalu_type: NaluType, sps: Sps)
    requires
        !(nalu_type == NaluType::IdrWRadl || nalu_type == NaluType::IdrNLp) ==> {
            &&& sps.log2_max_pic_order_cnt_lsb_minus4 + 4 <= u8::MAX
            &&& sps.long_term_ref_pics_present_flag ==> h.num_long_term_sps + h.num_long_term_pics <= 16
            &&& sps.long_term_ref_pics_present_flag ==> forall|k: int|
                0 <= k < h.num_long_term_sps + h.num_long_term_pics
                    && #[trigger] h.delta_poc_msb_present_flag[k] ==> h.coded_msb_cycle(k) >= 0
        },
    ensures
        consists_of(
            slice_references_syntax(h, nalu_type, sps),
            if nalu_type == NaluType::IdrWRadl || nalu_type == NaluType::IdrNLp {
                elements()
            } else {
                elements()
                    .bits(sps.log2_max_pic_order_cnt_lsb_minus4 + 4, h.pic_order_cnt_lsb as int)
                    .bit(h.short_term_ref_pic_set_sps_flag)
                    .all(
                        if !h.short_term_ref_pic_set_sps_flag {
                            told(
                                st_ref_pic_set_syntax(
                                    h.short_term_ref_pic_set,
                                    sps.num_short_term_ref_pic_sets as int,
                                ),
                            )
                        } else if sps.num_short_term_ref_pic_sets > 1 {
                            elements().bits(
                                spec_ceil_log2(sps.num_short_term_ref_pic_sets as int),
                                h.short_term_ref_pic_set_idx as int,
                            )
                        } else {
                            elements()
                        },
                    )
                    .all(
                        (if sps.long_term_ref_pics_present_flag {
                            elements()
                                .only(
                                    sps.num_long_term_ref_pics_sps > 0,
                                    elements().unsigned(h.num_long_term_sps as int),
                                )
                                .unsigned(h.num_long_term_pics as int)
                                .all(
                                    joined(
                                        Seq::new(
                                            (h.num_long_term_sps + h.num_long_term_pics) as nat,
                                            |k: int| long_term_elements(h, sps, k),
                                        ),
                                    ),
                                )
                        } else {
                            elements()
                        }).only(sps.temporal_mvp_enabled_flag, elements().bit(h.temporal_mvp_enabled_flag)),
                    )
            },
        ),
{
    broadcast use group_elements;

    reveal(slice_references_syntax);
    reveal(slice_st_syntax);
    reveal(poc_lsb_syntax);
    reveal(slice_lt_mvp_syntax);
    reveal(slice_lt_syntax);
    if sps.long_term_ref_pics_present_flag && !(nalu_type == NaluType::IdrWRadl || nalu_type
        == NaluType::IdrNLp) {
        let rows = Seq::new(
            (h.num_long_term_sps + h.num_long_term_pics) as nat,
            |k: int| long_term_elements(h, sps, k),
        );
        assert(rows.skip(0) =~= rows);
        lemma_lt_rows(h, sps, rows, 0);
    }
}

/// A part of `slice_segment_header()`.
proof fn lemma_slice_inter(h: SliceHeader, sps: Sps, pps: Pps)
    requires
        h.type_ == SliceType::P || h.type_ == SliceType::B ==> h.has_references(sps),
    ensures
        consists_of(
            slice_inter_syntax(h, sps, pps),
            if h.type_ == SliceType::P || h.type_ == SliceType::B {
                elements()
                    .bit(h.num_ref_idx_active_override_flag)
                    .only(
                        h.num_ref_idx_active_override_flag,
                        elements()
                            .unsigned(h.num_ref_idx_l0_active_minus1 as int)
                            .only(
                                h.type_ == SliceType::B,
                                elements().unsigned(h.num_ref_idx_l1_active_minus1 as int),
                            ),
                    )
                    .all(
                        elements()
                            .only(
                                pps.lists_modification_present_flag && h.pic_total_curr(sps, pps) > 1,
                                told(
                                    rplm_syntax(
                                        h.ref_pic_list_modification,
                                        h.type_,
                                        active(h, pps, false),
                                        if h.type_ == SliceType::B {
                                            active(h, pps, true)
                                        } else {
                                            0
                                        },
                                        h.pic_total_curr(sps, pps),
                                    ),
                                ),
                            )
                            .only(h.type_ == SliceType::B, elements().bit(h.mvd_l1_zero_flag))
                            .only(pps.cabac_init_present_flag, elements().bit(h.cabac_init_flag)),
                    )
                    .all(
                        elements()
                            .only(
                                h.temporal_mvp_enabled_flag,
                                elements()
                                    .only(
                                        h.type_ == SliceType::B,
                                        elements().bit(h.collocated_from_l0_flag),
                                    )
                                    .only(
                                        (h.collocated_from_l0_flag && active(h, pps, false) > 0)
                                            || (!h.collocated_from_l0_flag && active(h, pps, true) > 0),
                                        elements().unsigned(h.collocated_ref_idx as int),
                                    ),
                            )
                            .only(
                                (pps.weighted_pred_flag && h.type_ == SliceType::P) || (pps.weighted_bipred_flag && h.type_
                                    == SliceType::B),
                                told(
                                    pwt_syntax(
                                        h.pred_weight_table,
                                        h.type_,
                                        sps.chroma_array_type as int,
                                        active(h, pps, false),
                                        if h.type_ == SliceType::B {
                                            active(h, pps, true)
                                        } else {
                                            0
                                        },
                                    ),
                                ),
                            )
                            .unsigned(h.five_minus_max_num_merge_cand as int)
                            .only(
                                sps.scc_extension.motion_vector_resolution_control_idc == 2,
                                elements().bit(h.use_integer_mv_flag),
                            ),
                    )
            } else {
                elements()
            },
        ),
{
    broadcast use group_elements;

    reveal(slice_inter_syntax);
    reveal(slice_lists_syntax);
    reveal(slice_active_syntax);
    reveal(slice_prediction_syntax);
    reveal(slice_collocated_syntax);
}

/// A part of `slice_segment_header()`.
proof fn lemma_slice_end(h: SliceHeader, pps: Pps)
    requires
        (pps.tiles_enabled_flag || pps.entropy_coding_sync_enabled_flag) && h.num_entry_point_offsets > 0
            ==> h.num_entry_point_offsets <= 32 && h.offset_len_minus1 < u8::MAX,
    ensures
        consists_of(
            slice_end_syntax(h, pps),
            elements()
                .only(
                    pps.tiles_enabled_flag || pps.entropy_coding_sync_enabled_flag,
                    elements().unsigned(h.num_entry_point_offsets as int).all(
                        if h.num_entry_point_offsets > 0 {
                            elements().unsigned(h.offset_len_minus1 as int).all(
                                joined(
                                    Seq::new(
                                        h.num_entry_point_offsets as nat,
                                        |k: int| elements().bits(h.offset_len_minus1 + 1, h.entry_point_offset_minus1[k] as int),
                                    ),
                                ),
                            )
                        } else {
                            elements()
                        },
                    ),
                )
                .only(pps.slice_segment_header_extension_present_flag, elements().unsigned(0)),
        ),
{
    broadcast use group_elements;

    reveal(slice_end_syntax);
    reveal(slice_entry_points_syntax);
    reveal(slice_offsets_syntax);
    if h.num_entry_point_offsets > 0 && h.num_entry_point_offsets <= 32 {
        let rows = Seq::new(
            h.num_entry_point_offsets as nat,
            |k: int| elements().bits(h.offset_len_minus1 + 1, h.entry_point_offset_minus1[k] as int),
        );
        assert(rows.skip(0) =~= rows);
        lemma_us(h.offset_len_minus1 + 1, h.entry_point_offset_minus1@, rows, 0);
    }
}

/// `slice_segment_header()` (7.3.6.1): what a slice segment header is coded as, in the order in which
/// it is read.
pub proof fn law_slice_header_elements(h: SliceHeader, nalu_type: NaluType, sps: Sps, pps: Pps)
    requires
        pps.num_extra_slice_header_bits <= 7,
        !h.dependent_slice_segment_flag ==> {
            &&& !(nalu_type == NaluType::IdrWRadl || nalu_type == NaluType::IdrNLp) ==> {
                    &&& sps.log2_max_pic_order_cnt_lsb_minus4 + 4 <= u8::MAX
                    &&& sps.long_term_ref_pics_present_flag ==> h.num_long_term_sps + h.num_long_term_pics <= 16
                    &&& sps.long_term_ref_pics_present_flag ==> forall|k: int|
                        0 <= k < h.num_long_term_sps + h.num_long_term_pics
                            && #[trigger] h.delta_poc_msb_present_flag[k] ==> h.coded_msb_cycle(k) >= 0
                }
            &&& h.type_ == SliceType::P || h.type_ == SliceType::B ==> h.has_references(sps)
        },
        (pps.tiles_enabled_flag || pps.entropy_coding_sync_enabled_flag) && h.num_entry_point_offsets > 0
            ==> h.num_entry_point_offsets <= 32 && h.offset_len_minus1 < u8::MAX,
    ensures
        consists_of(
            slice_syntax(h, nalu_type, sps, pps),
            elements()
                .bit(h.first_slice_segment_in_pic_flag)
                .only(16 <= nalu_type.code() <= 23, elements().bit(h.no_output_of_prior_pics_flag))
                .unsigned(h.pic_parameter_set_id as int)
                .only(
                    !h.first_slice_segment_in_pic_flag,
                    elements()
                        .only(
                            pps.dependent_slice_segments_enabled_flag,
                            elements().bit(h.dependent_slice_segment_flag),
                        )
                        .bits(
                            spec_ceil_log2(sps.pic_size_in_ctbs_y as int),
                            h.segment_address as int,
                        ),
                )
                .all(
                    if h.dependent_slice_segment_flag {
                        elements()
                    } else {
                        elements()
                            .only(
                                pps.num_extra_slice_header_bits > 0,
                                elements().bits(pps.num_extra_slice_header_bits as int, 0),
                            )
                            .unsigned(
                                match h.type_ {
                                    SliceType::B => 0,
                                    SliceType::P => 1,
                                    SliceType::I => 2,
                                },
                            )
                            .only(pps.output_flag_present_flag, elements().bit(h.pic_output_flag))
                            .only(
                                sps.separate_colour_plane_flag,
                                elements().bits(2, h.colour_plane_id as int),
                            )
                            .all(
                                if nalu_type == NaluType::IdrWRadl || nalu_type == NaluType::IdrNLp {
                                    elements()
                                } else {
                                    elements()
                                        .bits(
                                            sps.log2_max_pic_order_cnt_lsb_minus4 + 4,
                                            h.pic_order_cnt_lsb as int,
                                        )
                                        .bit(h.short_term_ref_pic_set_sps_flag)
                                        .all(
                                            if !h.short_term_ref_pic_set_sps_flag {
                                                told(
                                                    st_ref_pic_set_syntax(
                                                        h.short_term_ref_pic_set,
                                                        sps.num_short_term_ref_pic_sets as int,
                                                    ),
                                                )
                                            } else if sps.num_short_term_ref_pic_sets > 1 {
                                                elements().bits(
                                                    spec_ceil_log2(
                                                        sps.num_short_term_ref_pic_sets as int,
                                                    ),
                                                    h.short_term_ref_pic_set_idx as int,
                                                )
                                            } else {
                                                elements()
                                            },
                                        )
                                        .all(
                                            (if sps.long_term_ref_pics_present_flag {
                                                elements()
                                                    .only(
                                                        sps.num_long_term_ref_pics_sps > 0,
                                                        elements().unsigned(
                                                            h.num_long_term_sps as int,
                                                        ),
                                                    )
                                                    .unsigned(h.num_long_term_pics as int)
                                                    .all(
                                                        joined(
                                                            Seq::new(
                                                                (h.num_long_term_sps + h.num_long_term_pics) as nat,
                                                                |k: int| long_term_elements(h, sps, k),
                                                            ),
                                                        ),
                                                    )
                                            } else {
                                                elements()
                                            }).only(sps.temporal_mvp_enabled_flag, elements().bit(h.temporal_mvp_enabled_flag)),
                                        )
                                },
                            )
                            .all(
                                if sps.sample_adaptive_offset_enabled_flag {
                                    elements()
                                        .bit(h.sao_luma_flag)
                                        .only(
                                            sps.chroma_array_type != 0,
                                            elements().bit(h.sao_chroma_flag),
                                        )
                                } else {
                                    elements()
                                }
                                    .all(
                                        if h.type_ == SliceType::P || h.type_ == SliceType::B {
                                            elements()
                                                .bit(h.num_ref_idx_active_override_flag)
                                                .only(
                                                    h.num_ref_idx_active_override_flag,
                                                    elements()
                                                        .unsigned(
                                                            h.num_ref_idx_l0_active_minus1 as int,
                                                        )
                                                        .only(
                                                            h.type_ == SliceType::B,
                                                            elements().unsigned(
                                                                h.num_ref_idx_l1_active_minus1 as int,
                                                            ),
                                                        ),
                                                )
                                                .all(
                                                    elements()
                                                        .only(
                                                            pps.lists_modification_present_flag && h.pic_total_curr(sps, pps) > 1,
                                                            told(
                                                                rplm_syntax(
                                                                    h.ref_pic_list_modification,
                                                                    h.type_,
                                                                    active(h, pps, false),
                                                                    if h.type_ == SliceType::B {
                                                                        active(h, pps, true)
                                                                    } else {
                                                                        0
                                                                    },
                                                                    h.pic_total_curr(sps, pps),
                                                                ),
                                                            ),
                                                        )
                                                        .only(
                                                            h.type_ == SliceType::B,
                                                            elements().bit(h.mvd_l1_zero_flag),
                                                        )
                                                        .only(
                                                            pps.cabac_init_present_flag,
                                                            elements().bit(h.cabac_init_flag),
                                                        ),
                                                )
                                                .all(
                                                    elements()
                                                        .only(
                                                            h.temporal_mvp_enabled_flag,
                                                            elements()
                                                                .only(
                                                                    h.type_ == SliceType::B,
                                                                    elements().bit(
                                                                        h.collocated_from_l0_flag,
                                                                    ),
                                                                )
                                                                .only(
                                                                    (h.collocated_from_l0_flag && active(h, pps, false) > 0)
                                                                        || (!h.collocated_from_l0_flag && active(h, pps, true) > 0),
                                                                    elements().unsigned(
                                                                        h.collocated_ref_idx as int,
                                                                    ),
                                                                ),
                                                        )
                                                        .only(
                                                            (pps.weighted_pred_flag && h.type_ == SliceType::P) || (pps.weighted_bipred_flag && h.type_
                                                                == SliceType::B),
                                                            told(
                                                                pwt_syntax(
                                                                    h.pred_weight_table,
                                                                    h.type_,
                                                                    sps.chroma_array_type as int,
                                                                    active(h, pps, false),
                                                                    if h.type_ == SliceType::B {
                                                                        active(h, pps, true)
                                                                    } else {
                                                                        0
                                                                    },
                                                                ),
                                                            ),
                                                        )
                                                        .unsigned(
                                                            h.five_minus_max_num_merge_cand as int,
                                                        )
                                                        .only(
                                                            sps.scc_extension.motion_vector_resolution_control_idc == 2,
                                                            elements().bit(h.use_integer_mv_flag),
                                                        ),
                                                )
                                        } else {
                                            elements()
                                        },
                                    )
                                    .all(
                                        elements()
                                            .signed(h.qp_delta as int)
                                            .only(
                                                pps.slice_chroma_qp_offsets_present_flag,
                                                elements().signed(h.cb_qp_offset as int).signed(
                                                    h.cr_qp_offset as int,
                                                ),
                                            )
                                            .only(
                                                pps.scc_extension.slice_act_qp_offsets_present_flag,
                                                elements()
                                                    .signed(h.slice_act_y_qp_offset as int)
                                                    .signed(h.slice_act_cb_qp_offset as int)
                                                    .signed(h.slice_act_cr_qp_offset as int),
                                            )
                                            .only(
                                                pps.range_extension.chroma_qp_offset_list_enabled_flag,
                                                elements().bit(h.cu_chroma_qp_offset_enabled_flag),
                                            ),
                                    )
                                    .all(
                                        elements()
                                            .only(
                                                pps.deblocking_filter_override_enabled_flag,
                                                elements().bit(h.deblocking_filter_override_flag),
                                            )
                                            .only(
                                                h.deblocking_filter_override_flag,
                                                elements()
                                                    .bit(h.deblocking_filter_disabled_flag)
                                                    .only(
                                                        !h.deblocking_filter_disabled_flag,
                                                        elements().signed(h.beta_offset_div2 as int).signed(
                                                            h.tc_offset_div2 as int,
                                                        ),
                                                    ),
                                            )
                                            .only(
                                                pps.loop_filter_across_slices_enabled_flag && (h.sao_luma_flag || h.sao_chroma_flag
                                                    || !h.deblocking_filter_disabled_flag),
                                                elements().bit(
                                                    h.loop_filter_across_slices_enabled_flag,
                                                ),
                                            ),
                                    ),
                            )
                    },
                )
                .all(
                    elements()
                        .only(
                            pps.tiles_enabled_flag || pps.entropy_coding_sync_enabled_flag,
                            elements().unsigned(h.num_entry_point_offsets as int).all(
                                if h.num_entry_point_offsets > 0 {
                                    elements().unsigned(h.offset_len_minus1 as int).all(
                                        joined(
                                            Seq::new(
                                                h.num_entry_point_offsets as nat,
                                                |k: int| elements().bits(h.offset_len_minus1 + 1, h.entry_point_offset_minus1[k] as int),
                                            ),
                                        ),
                                    )
                                } else {
                                    elements()
                                },
                            ),
                        )
                        .only(
                            pps.slice_segment_header_extension_present_flag,
                            elements().unsigned(0),
                        ),
                ),
        ),
{
    broadcast use lemma_elements_none;

    assert(consists_of(
        slice_address_syntax(h, nalu_type, sps, pps),
        elements()
            .bit(h.first_slice_segment_in_pic_flag)
            .only(16 <= nalu_type.code() <= 23, elements().bit(h.no_output_of_prior_pics_flag))
            .unsigned(h.pic_parameter_set_id as int)
            .only(
                !h.first_slice_segment_in_pic_flag,
                elements()
                    .only(
                        pps.dependent_slice_segments_enabled_flag,
                        elements().bit(h.dependent_slice_segment_flag),
                    )
                    .bits(spec_ceil_log2(sps.pic_size_in_ctbs_y as int), h.segment_address as int),
            ),
    )) by {
        broadcast use group_elements;

        reveal(slice_address_syntax);
    }
    assert(consists_of(
        slice_sao_syntax(h, sps),
        if sps.sample_adaptive_offset_enabled_flag {
            elements()
                .bit(h.sao_luma_flag)
                .only(sps.chroma_array_type != 0, elements().bit(h.sao_chroma_flag))
        } else {
            elements()
        },
    )) by {
        broadcast use group_elements;

        reveal(slice_sao_syntax);
    }
    assert(consists_of(
        slice_qp_syntax(h, pps),
        elements()
            .signed(h.qp_delta as int)
            .only(
                pps.slice_chroma_qp_offsets_present_flag,
                elements().signed(h.cb_qp_offset as int).signed(h.cr_qp_offset as int),
            )
            .only(
                pps.scc_extension.slice_act_qp_offsets_present_flag,
                elements()
                    .signed(h.slice_act_y_qp_offset as int)
                    .signed(h.slice_act_cb_qp_offset as int)
                    .signed(h.slice_act_cr_qp_offset as int),
            )
            .only(
                pps.range_extension.chroma_qp_offset_list_enabled_flag,
                elements().bit(h.cu_chroma_qp_offset_enabled_flag),
            ),
    )) by {
        broadcast use group_elements;

        reveal(slice_qp_syntax);
    }
    assert(consists_of(
        slice_filters_syntax(h, pps),
        elements()
            .only(
                pps.deblocking_filter_override_enabled_flag,
                elements().bit(h.deblocking_filter_override_flag),
            )
            .only(
                h.deblocking_filter_override_flag,
                elements()
                    .bit(h.deblocking_filter_disabled_flag)
                    .only(
                        !h.deblocking_filter_disabled_flag,
                        elements().signed(h.beta_offset_div2 as int).signed(
                            h.tc_offset_div2 as int,
                        ),
                    ),
            )
            .only(
                pps.loop_filter_across_slices_enabled_flag && (h.sao_luma_flag || h.sao_chroma_flag
                    || !h.deblocking_filter_disabled_flag),
                elements().bit(h.loop_filter_across_slices_enabled_flag),
            ),
    )) by {
        broadcast use group_elements;

        reveal(slice_filters_syntax);
    }
    lemma_slice_end(h, pps);
    if !h.dependent_slice_segment_flag {
        lemma_slice_type(h, sps, pps);
        lemma_slice_references(h, nalu_type, sps);
        lemma_slice_inter(h, sps, pps);
    }
    reveal(slice_body_syntax);
    reveal(slice_independent_syntax);
    reveal(slice_syntax);
}

/// The codes of the NAL unit types (Table 7-1).
pub proof fn law_nalu_type_codes()
    ensures
        NaluType::TrailN.code() == 0,
        NaluType::TrailR.code() == 1,
        NaluType::TsaN.code() == 2,
        NaluType::TsaR.code() == 3,
        NaluType::StsaN.code() == 4,
        NaluType::StsaR.code() == 5,
        NaluType::RadlN.code() == 6,
        NaluType::RadlR.code() == 7,
        NaluType::RaslN.code() == 8,
        NaluType::RaslR.code() == 9,
        NaluType::RsvVclN10.code() == 10,
        NaluType::RsvVclR11.code() == 11,
        NaluType::RsvVclN12.code() == 12,
        NaluType::RsvVclR13.code() == 13,
        NaluType::RsvVclN14.code() == 14,
        NaluType::RsvVclR15.code() == 15,
        NaluType::BlaWLp.code() == 16,
        NaluType::BlaWRadl.code() == 17,
        NaluType::BlaNLp.code() == 18,
        NaluType::IdrWRadl.code() == 19,
        NaluType::IdrNLp.code() == 20,
        NaluType::CraNut.code() == 21,
        NaluType::RsvIrapVcl22.code() == 22,
        NaluType::RsvIrapVcl23.code() == 23,
        NaluType::VpsNut.code() == 32,
        NaluType::SpsNut.code() == 33,
        NaluType::PpsNut.code() == 34,
        NaluType::AudNut.code() == 35,
        NaluType::EosNut.code() == 36,
        NaluType::EobNut.code() == 37,
        NaluType::FdNut.code() == 38,
        NaluType::PrefixSeiNut.code() == 39,
        NaluType::SuffixSeiNut.code() == 40,
{
}

/// The codes of the slice types (Table 7-7).
pub proof fn law_slice_type_codes()
    ensures
        SliceType::B.code() == 0,
        SliceType::P.code() == 1,
        SliceType::I.code() == 2,
{
}

/// The numbers of the profiles (A.3).
pub proof fn law_profile_codes()
    ensures
        Profile::Main.code() == 1,
        Profile::Main10.code() == 2,
        Profile::MainStill.code() == 3,
        Profile::RangeExtensions.code() == 4,
        Profile::HighThroughput.code() == 5,
        Profile::MultiviewMain.code() == 6,
        Profile::ScalableMain.code() == 7,
        Profile::ThreeDMain.code() == 8,
        Profile::ScreenContentCoding.code() == 9,
        Profile::ScalableRangeExtensions.code() == 10,
        Profile::HighThroughputScreenContentCoding.code() == 11,
{
}

/// The numbers of the levels: thirty times the level (A.4).
pub proof fn law_level_codes()
    ensures
        Level::L1.code() == 30,
        Level::L2.code() == 60,
        Level::L2_1.code() == 63,
        Level::L3.code() == 90,
        Level::L3_1.code() == 93,
        Level::L4.code() == 120,
        Level::L4_1.code() == 123,
        Level::L5.code() == 150,
        Level::L5_1.code() == 153,
        Level::L5_2.code() == 156,
        Level::L6.code() == 180,
        Level::L6_1.code() == 183,
        Level::L6_2.code() == 186,
{
}

/// IDR pictures are those of two types, and intra random access point pictures those of the codes
/// from 16 to 23.
pub proof fn law_random_access_types(t: NaluType)
    ensures
        t.idr() <==> t.code() == 19 || t.code() == 20,
        t.irap() <==> 16 <= t.code() <= 23,
{
}

/// Synthesizing a video parameter set appends a NAL unit with its elements; and the same, escaped,
/// with emulation prevention.
pub proof fn law_synthesized_vps_is_carried(vps: &Vps)
    requires
        vps_syntax(*vps).fits(),
    ensures
        forall|out: &mut Vec<u8>, r: SynthesizerResult<()>| #[trigger]
            call_ensures(Synthesizer::<'_, Vps>::synthesize, (vps, out, false), r) ==> {
                &&& r is Ok
                &&& final(out)@.take(out@.len() as int) == out@
                &&& carries(
                    final(out)@.skip(out@.len() as int),
                    32,
                    vps_syntax(*vps).elements,
                )
            },
        forall|plain: &mut Vec<u8>, out: &mut Vec<u8>, r: SynthesizerResult<()>|
            #[trigger] call_ensures(Synthesizer::<'_, Vps>::synthesize, (vps, plain, false), r)
                && plain@.len() == 0 && #[trigger] call_ensures(
                Synthesizer::<'_, Vps>::synthesize,
                (vps, out, true),
                r,
            ) ==> final(out)@ == out@ + final(plain)@.take(6) + escape(final(plain)@.skip(6)),
{
    let table = vps_syntax(*vps);
    lemma_written_fits(table);
    law_nalu_carries_its_elements(NaluType::VpsNut, table);
    assert forall|out: &mut Vec<u8>, r: SynthesizerResult<()>| #[trigger]
        call_ensures(Synthesizer::<'_, Vps>::synthesize, (vps, out, false), r) implies {
        &&& r is Ok
        &&& final(out)@.take(out@.len() as int) == out@
        &&& carries(final(out)@.skip(out@.len() as int), 32, table.elements)
    } by {
        let data = nalu_bytes(NaluType::VpsNut, table, false);
        assert((out@ + data).take(out@.len() as int) =~= out@);
        assert((out@ + data).skip(out@.len() as int) =~= data);
    }
    assert forall|plain: &mut Vec<u8>, out: &mut Vec<u8>, r: SynthesizerResult<()>|
        #[trigger] call_ensures(Synthesizer::<'_, Vps>::synthesize, (vps, plain, false), r)
            && plain@.len() == 0 && #[trigger] call_ensures(
            Synthesizer::<'_, Vps>::synthesize,
            (vps, out, true),
            r,
        ) implies final(out)@ == out@ + final(plain)@.take(6) + escape(final(plain)@.skip(6)) by {
        let data = nalu_bytes(NaluType::VpsNut, table, false);
        assert(plain@ + data =~= data);
        assert(out@ + (data.take(6) + escape(data.skip(6))) =~= out@ + data.take(6) + escape(
            data.skip(6),
        ));
    }
}

/// Synthesizing a sequence parameter set appends a NAL unit with its elements; and the same, escaped,
/// with emulation prevention.
pub proof fn law_synthesized_sps_is_carried(sps: &Sps)
    requires
        sps_syntax(*sps).fits(),
    ensures
        forall|out: &mut Vec<u8>, r: SynthesizerResult<()>| #[trigger]
            call_ensures(Synthesizer::<'_, Sps>::synthesize, (sps, out, false), r) ==> {
                &&& r is Ok
                &&& final(out)@.take(out@.len() as int) == out@
                &&& carries(
                    final(out)@.skip(out@.len() as int),
                    33,
                    sps_syntax(*sps).elements,
                )
            },
        forall|plain: &mut Vec<u8>, out: &mut Vec<u8>, r: SynthesizerResult<()>|
            #[trigger] call_ensures(Synthesizer::<'_, Sps>::synthesize, (sps, plain, false), r)
                && plain@.len() == 0 && #[trigger] call_ensures(
                Synthesizer::<'_, Sps>::synthesize,
                (sps, out, true),
                r,
            ) ==> final(out)@ == out@ + final(plain)@.take(6) + escape(final(plain)@.skip(6)),
{
    let table = sps_syntax(*sps);
    lemma_written_fits(table);
    law_nalu_carries_its_elements(NaluType::SpsNut, table);
    assert forall|out: &mut Vec<u8>, r: SynthesizerResult<()>| #[trigger]
        call_ensures(Synthesizer::<'_, Sps>::synthesize, (sps, out, false), r) implies {
        &&& r is Ok
        &&& final(out)@.take(out@.len() as int) == out@
        &&& carries(final(out)@.skip(out@.len() as int), 33, table.elements)
    } by {
        let data = nalu_bytes(NaluType::SpsNut, table, false);
        assert((out@ + data).take(out@.len() as int) =~= out@);
        assert((out@ + data).skip(out@.len() as int) =~= data);
    }
    assert forall|plain: &mut Vec<u8>, out: &mut Vec<u8>, r: SynthesizerResult<()>|
        #[trigger] call_ensures(Synthesizer::<'_, Sps>::synthesize, (sps, plain, false), r)
            && plain@.len() == 0 && #[trigger] call_ensures(
            Synthesizer::<'_, Sps>::synthesize,
            (sps, out, true),
            r,
        ) implies final(out)@ == out@ + final(plain)@.take(6) + escape(final(plain)@.skip(6)) by {
        let data = nalu_bytes(NaluType::SpsNut, table, false);
        assert(plain@ + data =~= data);
        assert(out@ + (data.take(6) + escape(data.skip(6))) =~= out@ + data.take(6) + escape(
            data.skip(6),
        ));
    }
}

/// Synthesizing a picture parameter set appends a NAL unit with its elements; and the same, escaped,
/// with emulation prevention.
pub proof fn law_synthesized_pps_is_carried(pps: &Pps)
    requires
        pps_syntax(*pps).fits(),
    ensures
        forall|out: &mut Vec<u8>, r: SynthesizerResult<()>| #[trigger]
            call_ensures(Synthesizer::<'_, Pps>::synthesize, (pps, out, false), r) ==> {
                &&& r is Ok
                &&& final(out)@.take(out@.len() as int) == out@
                &&& carries(
                    final(out)@.skip(out@.len() as int),
                    34,
                    pps_syntax(*pps).elements,
                )
            },
        forall|plain: &mut Vec<u8>, out: &mut Vec<u8>, r: SynthesizerResult<()>|
            #[trigger] call_ensures(Synthesizer::<'_, Pps>::synthesize, (pps, plain, false), r)
                && plain@.len() == 0 && #[trigger] call_ensures(
                Synthesizer::<'_, Pps>::synthesize,
                (pps, out, true),
                r,
            ) ==> final(out)@ == out@ + final(plain)@.take(6) + escape(final(plain)@.skip(6)),
{
    let table = pps_syntax(*pps);
    lemma_written_fits(table);
    law_nalu_carries_its_elements(NaluType::PpsNut, table);
    assert forall|out: &mut Vec<u8>, r: SynthesizerResult<()>| #[trigger]
        call_ensures(Synthesizer::<'_, Pps>::synthesize, (pps, out, false), r) implies {
        &&& r is Ok
        &&& final(out)@.take(out@.len() as int) == out@
        &&& carries(final(out)@.skip(out@.len() as int), 34, table.elements)
    } by {
        let data = nalu_bytes(NaluType::PpsNut, table, false);
        assert((out@ + data).take(out@.len() as int) =~= out@);
        assert((out@ + data).skip(out@.len() as int) =~= data);
    }
    assert forall|plain: &mut Vec<u8>, out: &mut Vec<u8>, r: SynthesizerResult<()>|
        #[trigger] call_ensures(Synthesizer::<'_, Pps>::synthesize, (pps, plain, false), r)
            && plain@.len() == 0 && #[trigger] call_ensures(
            Synthesizer::<'_, Pps>::synthesize,
            (pps, out, true),
            r,
        ) implies final(out)@ == out@ + final(plain)@.take(6) + escape(final(plain)@.skip(6)) by {
        let data = nalu_bytes(NaluType::PpsNut, table, false);
        assert(plain@ + data =~= data);
        assert(out@ + (data.take(6) + escape(data.skip(6))) =~= out@ + data.take(6) + escape(
            data.skip(6),
        ));
    }
}

/// Synthesizing a slice segment header appends a NAL unit of its type with its elements.
pub proof fn law_synthesized_slice_header_is_carried(
    nalu_type: NaluType,
    hdr: &SliceHeader,
    sps: &Sps,
    pps: &Pps,
)
    requires
        slice_syntax(*hdr, nalu_type, *sps, *pps).fits(),
    ensures
        forall|out: &mut Vec<u8>, r: SynthesizerResult<()>| #[trigger]
            call_ensures(
                Synthesizer::<'_, SliceHeader>::synthesize,
                (nalu_type, hdr, sps, pps, out, false),
                r,
            ) ==> {
                &&& r is Ok
                &&& final(out)@.take(out@.len() as int) == out@
                &&& carries(
                    final(out)@.skip(out@.len() as int),
                    nalu_type.code(),
                    slice_syntax(*hdr, nalu_type, *sps, *pps).elements,
                )
            },
{
    let table = slice_syntax(*hdr, nalu_type, *sps, *pps);
    lemma_written_fits(table);
    law_nalu_carries_its_elements(nalu_type, table);
    assert forall|out: &mut Vec<u8>, r: SynthesizerResult<()>| #[trigger]
        call_ensures(
            Synthesizer::<'_, SliceHeader>::synthesize,
            (nalu_type, hdr, sps, pps, out, false),
            r,
        ) implies {
        &&& r is Ok
        &&& final(out)@.take(out@.len() as int) == out@
        &&& carries(final(out)@.skip(out@.len() as int), nalu_type.code(), table.elements)
    } by {
        let data = nalu_bytes(nalu_type, table, false);
        assert((out@ + data).take(out@.len() as int) =~= out@);
        assert((out@ + data).skip(out@.len() as int) =~= data);
    }
}

} // verus!
