//! What the synthesizer and the parser do together.

use crate::bits::{bits_of, lemma_bits_of_pack, lemma_with_trailing, pack, with_trailing};
use crate::codec::emulation::{escape, lemma_escape_clean, reserved_at};
use crate::codec::h265::nalu::{
    law_written_nalu_is_found, nalu_from, NaluError, NaluHeader, NaluModel,
};
use crate::codec::h265::parser::pps::{lemma_pps_equal, pps_equal, pps_same};
use crate::codec::h265::parser::{pps_parsed, slice_parsed, sps_parsed, vps_parsed};
use crate::codec::h265::parser::scaling::scaling_lists_same;
use crate::codec::h265::parser::slice::{
    lemma_dependent_header_equal, lemma_independent_header_equal, slice_same, slice_settled,
};
use crate::codec::h265::parser::sps::{lemma_sps_equal, lemma_sps_sub_layers, sps_equal, sps_same};
use crate::codec::h265::parser::vps::{lemma_vps_equal, lemma_vps_sub_layers, vps_equal, vps_same};
use crate::codec::h265::synthesizer::{nalu_bytes, table_bits, table_result};
use crate::codec::h265::tables::{
    coef_num, coefs_from, constraint_syntax, flags_from, hrd_buffers_syntax, hrd_common_syntax,
    hrd_rate_syntax, hrd_row_syntax, hrd_rows_from, hrd_sub_pic_syntax, hrd_syntax, inbld_syntax,
    pps_extension_syntax, pps_filters_syntax, pps_head_syntax, pps_lists_syntax, pps_syntax,
    pps_tiles_syntax, pps_tools_syntax, profile_head_syntax, profile_syntax, range_flags_syntax,
    scaling_list_data_syntax, scaling_list_syntax, scaling_lists_from, slice_syntax,
    sps_blocks_syntax, sps_extension_syntax, sps_format_syntax, sps_head_syntax,
    sps_long_term_syntax, sps_lt_from, sps_ordering_from, sps_ordering_syntax, sps_scaling_syntax,
    sps_short_term_syntax, sps_st_rps_from, sps_syntax, sps_tail_syntax, sps_tools_syntax,
    sps_vui_syntax, vps_cprms_present, vps_has_hrd, vps_head_syntax, vps_hrds_from,
    vps_layers_syntax, vps_ordering_from, vps_syntax, vps_timing_syntax, vui_display_syntax,
    vui_restriction_syntax, vui_signal_syntax, vui_syntax, vui_timing_syntax, vui_window_syntax,
    wrapped, ProfileFields,
};
use crate::codec::h265::types::{
    HrdParams, NaluType, Pps, ScalingLists, SliceHeader, Sps, Vps, VuiParams,
};
use crate::syntax::{
    group_append, group_bit_count, lemma_written_fits, reserved_zero, syntax, Syntax,
};
use vstd::prelude::*;

verus! {

/// The NAL unit of a table whose values fit is found again, and its RBSP starts with the
/// bits of the table.
proof fn lemma_synthesized(nalu_type: NaluType, table: Syntax)
    requires
        table.fits(),
    ensures
        ({
            let data = nalu_bytes(nalu_type, table, true);
            let rbsp = pack(with_trailing(table.bits()));
            &&& nalu_from(data, 0) == Ok::<NaluModel, NaluError>(
                NaluModel {
                    header: NaluHeader { type_: nalu_type, nuh_layer_id: 0, nuh_temporal_id_plus1: 1 },
                    rbsp,
                    end: data.len() as int,
                },
            )
            &&& bits_of(rbsp) == table.onto(with_trailing(table.bits()).skip(table.bits().len() as int))
        }),
{
    let bits = table.bits();
    lemma_written_fits(table);
    law_written_nalu_is_found(nalu_type, pack(with_trailing(bits)));
    lemma_with_trailing(bits);
    lemma_bits_of_pack(with_trailing(bits));
    reveal(Syntax::onto);
    assert(bits + with_trailing(bits).skip(bits.len() as int) =~= with_trailing(bits));
}

/// Tables that leave the same rest of the same bits are synthesized alike.
proof fn lemma_same_bytes(nalu_type: NaluType, a: Syntax, b: Syntax, rest: Seq<bool>)
    requires
        a.fits(),
        b.fits(),
        a.onto(rest) == b.onto(rest),
    ensures
        nalu_bytes(nalu_type, a, true) == nalu_bytes(nalu_type, b, true),
{
    reveal(Syntax::onto);
    lemma_written_fits(a);
    lemma_written_fits(b);
    assert((a.bits() + rest).len() == (b.bits() + rest).len());
    assert(a.bits() =~= (a.bits() + rest).take(a.bits().len() as int));
    assert(b.bits() =~= (b.bits() + rest).take(b.bits().len() as int));
}

/// A video parameter set is synthesized without error, found in the byte stream and parsed
/// again, field for field; what was parsed is synthesized to the same bytes; and these parse
/// as the same in all fields, coded or not.
pub open spec fn vps_round_trips(vps: Vps) -> bool {
    let data = nalu_bytes(NaluType::VpsNut, vps_syntax(vps), true);
    &&& table_result(vps_syntax(vps)) is Ok
    &&& nalu_from(data, 0) matches Ok(n) && n.header.type_ == NaluType::VpsNut
        && forall|r: Option<Vps>|
        #[trigger] vps_parsed(n.rbsp, r) ==> {
            &&& r is Some
            &&& vps_same(r->0, vps)
            &&& nalu_bytes(NaluType::VpsNut, vps_syntax(r->0), true) == data
        }
    &&& forall|n: NaluModel, r: Option<Vps>, q: Option<Vps>|
        nalu_from(data, 0) == Ok::<NaluModel, NaluError>(n)
            && #[trigger] vps_parsed(n.rbsp, r) && #[trigger] vps_parsed(n.rbsp, q)
            ==> vps_equal(r->0, q->0)
}

/// What an RBSP parses as is determined, in all fields of the video parameter set.
pub proof fn law_vps_parse_is_determined(rbsp: Seq<u8>, r: Option<Vps>, q: Option<Vps>)
    requires
        vps_parsed(rbsp, r),
        vps_parsed(rbsp, q),
    ensures
        r is Some <==> q is Some,
        r is Some ==> vps_equal(r->0, q->0),
{
    if let Some(p) = r {
        let rest = choose|rest: Seq<bool>| bits_of(rbsp) == #[trigger] vps_syntax(p).onto(rest);
        assert(bits_of(rbsp) == vps_syntax(p).onto(rest));
        lemma_vps_sub_layers(p);
        lemma_vps_equal(p, q->0);
    }
    if let Some(p) = q {
        let rest = choose|rest: Seq<bool>| bits_of(rbsp) == #[trigger] vps_syntax(p).onto(rest);
        assert(bits_of(rbsp) == vps_syntax(p).onto(rest));
    }
}

/// A synthesized video parameter set is found in the byte stream and parsed again, field
/// for field; and what was parsed is synthesized to the same bytes.
pub proof fn law_vps_round_trip(vps: Vps)
    requires
        vps.inferred(),
        vps_syntax(vps).fits(),
    ensures
        vps_round_trips(vps),
{
    let table = vps_syntax(vps);
    lemma_written_fits(table);
    lemma_synthesized(NaluType::VpsNut, table);
    let rbsp = pack(with_trailing(table.bits()));
    let rest = with_trailing(table.bits()).skip(table.bits().len() as int);
    assert forall|r: Option<Vps>| #[trigger] vps_parsed(rbsp, r)
        implies r is Some && vps_same(r->0, vps)
        && nalu_bytes(
            NaluType::VpsNut,
            vps_syntax(r->0),
            true,
        ) == nalu_bytes(NaluType::VpsNut, table, true) by {
        assert(bits_of(rbsp) == vps_syntax(vps).onto(rest));
        lemma_same_bytes(NaluType::VpsNut, vps_syntax(r->0), table, rest);
    }
    assert forall|r: Option<Vps>, q: Option<Vps>|
        #[trigger] vps_parsed(rbsp, r) && #[trigger] vps_parsed(rbsp, q) implies vps_equal(
        r->0,
        q->0,
    ) by {
        assert(bits_of(rbsp) == vps_syntax(vps).onto(rest));
        law_vps_parse_is_determined(rbsp, r, q);
    }
}

/// As [`vps_round_trips`], of a sequence parameter set.
pub open spec fn sps_round_trips(sps: Sps) -> bool {
    let data = nalu_bytes(NaluType::SpsNut, sps_syntax(sps), true);
    &&& table_result(sps_syntax(sps)) is Ok
    &&& nalu_from(data, 0) matches Ok(n) && n.header.type_ == NaluType::SpsNut
        && forall|r: Option<Sps>|
        #[trigger] sps_parsed(n.rbsp, r) ==> {
            &&& r is Some
            &&& sps_same(r->0, sps)
            &&& nalu_bytes(NaluType::SpsNut, sps_syntax(r->0), true) == data
        }
    &&& forall|n: NaluModel, r: Option<Sps>, q: Option<Sps>|
        nalu_from(data, 0) == Ok::<NaluModel, NaluError>(n)
            && #[trigger] sps_parsed(n.rbsp, r) && #[trigger] sps_parsed(n.rbsp, q)
            ==> sps_equal(r->0, q->0)
}

/// What an RBSP parses as is determined, in all fields of the sequence parameter set, but for
/// the video parameter set that it refers to.
pub proof fn law_sps_parse_is_determined(rbsp: Seq<u8>, r: Option<Sps>, q: Option<Sps>)
    requires
        sps_parsed(rbsp, r),
        sps_parsed(rbsp, q),
    ensures
        r is Some <==> q is Some,
        r is Some ==> sps_equal(r->0, q->0),
{
    if let Some(p) = r {
        let rest = choose|rest: Seq<bool>| bits_of(rbsp) == #[trigger] sps_syntax(p).onto(rest);
        assert(bits_of(rbsp) == sps_syntax(p).onto(rest));
        lemma_sps_sub_layers(p);
        lemma_sps_equal(p, q->0);
    }
    if let Some(p) = q {
        let rest = choose|rest: Seq<bool>| bits_of(rbsp) == #[trigger] sps_syntax(p).onto(rest);
        assert(bits_of(rbsp) == sps_syntax(p).onto(rest));
    }
}

/// A synthesized sequence parameter set is found in the byte stream and parsed again,
/// field for field; and what was parsed is synthesized to the same bytes.
pub proof fn law_sps_round_trip(sps: Sps)
    requires
        sps.inferred(),
        sps.ctb_log2() <= 31,
        sps_syntax(sps).fits(),
    ensures
        sps_round_trips(sps),
{
    let table = sps_syntax(sps);
    lemma_written_fits(table);
    lemma_synthesized(NaluType::SpsNut, table);
    let rbsp = pack(with_trailing(table.bits()));
    let rest = with_trailing(table.bits()).skip(table.bits().len() as int);
    assert forall|r: Option<Sps>| #[trigger] sps_parsed(rbsp, r)
        implies r is Some && sps_same(r->0, sps)
        && nalu_bytes(
            NaluType::SpsNut,
            sps_syntax(r->0),
            true,
        ) == nalu_bytes(NaluType::SpsNut, table, true) by {
        assert(bits_of(rbsp) == sps_syntax(sps).onto(rest));
        lemma_same_bytes(NaluType::SpsNut, sps_syntax(r->0), table, rest);
    }
    assert forall|r: Option<Sps>, q: Option<Sps>|
        #[trigger] sps_parsed(rbsp, r) && #[trigger] sps_parsed(rbsp, q) implies sps_equal(
        r->0,
        q->0,
    ) by {
        assert(bits_of(rbsp) == sps_syntax(sps).onto(rest));
        law_sps_parse_is_determined(rbsp, r, q);
    }
}

/// As [`vps_round_trips`], of a picture parameter set.
pub open spec fn pps_round_trips(pps: Pps) -> bool {
    let data = nalu_bytes(NaluType::PpsNut, pps_syntax(pps), true);
    &&& table_result(pps_syntax(pps)) is Ok
    &&& nalu_from(data, 0) matches Ok(n) && n.header.type_ == NaluType::PpsNut
        && forall|r: Option<Pps>|
        #[trigger] pps_parsed(n.rbsp, r) ==> {
            &&& r is Some
            &&& pps_same(r->0, pps)
            &&& nalu_bytes(NaluType::PpsNut, pps_syntax(r->0), true) == data
        }
    &&& forall|n: NaluModel, r: Option<Pps>, q: Option<Pps>|
        nalu_from(data, 0) == Ok::<NaluModel, NaluError>(n)
            && #[trigger] pps_parsed(n.rbsp, r) && #[trigger] pps_parsed(n.rbsp, q)
            ==> pps_equal(r->0, q->0)
}

/// What an RBSP parses as is determined, in all fields of the picture parameter set, but for the
/// sequence parameter set that it refers to, and what follows from that.
pub proof fn law_pps_parse_is_determined(rbsp: Seq<u8>, r: Option<Pps>, q: Option<Pps>)
    requires
        pps_parsed(rbsp, r),
        pps_parsed(rbsp, q),
    ensures
        r is Some <==> q is Some,
        r is Some ==> pps_equal(r->0, q->0),
{
    if let Some(p) = r {
        let rest = choose|rest: Seq<bool>| bits_of(rbsp) == #[trigger] pps_syntax(p).onto(rest);
        assert(bits_of(rbsp) == pps_syntax(p).onto(rest));
        lemma_pps_equal(p, q->0);
    }
    if let Some(p) = q {
        let rest = choose|rest: Seq<bool>| bits_of(rbsp) == #[trigger] pps_syntax(p).onto(rest);
        assert(bits_of(rbsp) == pps_syntax(p).onto(rest));
    }
}

/// A synthesized picture parameter set is found in the byte stream and parsed again,
/// field for field; and what was parsed is synthesized to the same bytes.
pub proof fn law_pps_round_trip(pps: Pps)
    requires
        pps_syntax(pps).fits(),
    ensures
        pps_round_trips(pps),
{
    let table = pps_syntax(pps);
    lemma_written_fits(table);
    lemma_synthesized(NaluType::PpsNut, table);
    let rbsp = pack(with_trailing(table.bits()));
    let rest = with_trailing(table.bits()).skip(table.bits().len() as int);
    assert forall|r: Option<Pps>| #[trigger] pps_parsed(rbsp, r)
        implies r is Some && pps_same(r->0, pps)
        && nalu_bytes(
            NaluType::PpsNut,
            pps_syntax(r->0),
            true,
        ) == nalu_bytes(NaluType::PpsNut, table, true) by {
        assert(bits_of(rbsp) == pps_syntax(pps).onto(rest));
        lemma_same_bytes(NaluType::PpsNut, pps_syntax(r->0), table, rest);
    }
    assert forall|r: Option<Pps>, q: Option<Pps>|
        #[trigger] pps_parsed(rbsp, r) && #[trigger] pps_parsed(rbsp, q) implies pps_equal(
        r->0,
        q->0,
    ) by {
        assert(bits_of(rbsp) == pps_syntax(pps).onto(rest));
        law_pps_parse_is_determined(rbsp, r, q);
    }
}

/// As [`vps_round_trips`], of a slice segment header under the active parameter sets.
pub open spec fn slice_round_trips(
    hdr: SliceHeader,
    nalu_type: NaluType,
    sps: Sps,
    pps: Pps,
) -> bool {
    let data = nalu_bytes(nalu_type, slice_syntax(hdr, nalu_type, sps, pps), true);
    &&& table_result(slice_syntax(hdr, nalu_type, sps, pps)) is Ok
    &&& nalu_from(data, 0) matches Ok(n) && n.header.type_ == nalu_type
        && forall|r: Option<SliceHeader>|
        #[trigger] slice_parsed(n.rbsp, nalu_type, sps, pps, r) ==> {
            &&& r is Some
            &&& slice_same(r->0, hdr, nalu_type, sps, pps)
            &&& nalu_bytes(nalu_type, slice_syntax(r->0, nalu_type, sps, pps), true) == data
        }
    &&& forall|n: NaluModel, r: Option<SliceHeader>, q: Option<SliceHeader>|
        nalu_from(data, 0) == Ok::<NaluModel, NaluError>(n)
            && #[trigger] slice_parsed(n.rbsp, nalu_type, sps, pps, r)
            && #[trigger] slice_parsed(n.rbsp, nalu_type, sps, pps, q)
            ==> q->0 == r->0
}

/// A header that the bits start with is the one that they parse as, as far as it is coded.
proof fn lemma_slice_recovered(
    rbsp: Seq<u8>,
    nalu_type: NaluType,
    sps: Sps,
    pps: Pps,
    p: SliceHeader,
    rest: Seq<bool>,
    q: Option<SliceHeader>,
)
    requires
        slice_parsed(rbsp, nalu_type, sps, pps, q),
        bits_of(rbsp) == slice_syntax(p, nalu_type, sps, pps).onto(rest),
        slice_syntax(p, nalu_type, sps, pps).fits(),
        p.inferred(nalu_type, sps, pps),
    ensures
        q is Some,
        slice_same(q->0, p, nalu_type, sps, pps),
        slice_settled(q->0, nalu_type, sps, pps),
        p.dependent_slice_segment_flag || nalu_type.idr() || p.inferred_lt(sps),
{
}

/// What the bits parse as is determined where they parse.
#[verifier::rlimit(60)]
proof fn lemma_slice_determined(
    rbsp: Seq<u8>,
    nalu_type: NaluType,
    sps: Sps,
    pps: Pps,
    p: SliceHeader,
    q: Option<SliceHeader>,
)
    requires
        slice_parsed(rbsp, nalu_type, sps, pps, Some(p)),
        slice_parsed(rbsp, nalu_type, sps, pps, q),
    ensures
        q == Some(p),
{
    let rest = choose|rest: Seq<bool>|
        bits_of(rbsp) == #[trigger] slice_syntax(p, nalu_type, sps, pps).onto(rest);
    lemma_slice_recovered(rbsp, nalu_type, sps, pps, p, rest, q);
    if p.dependent_slice_segment_flag {
        lemma_dependent_header_equal(p, q->0, nalu_type, sps, pps);
    } else {
        lemma_independent_header_equal(p, q->0, nalu_type, sps, pps);
    }
}

/// What an RBSP parses as under the active parameter sets is determined, in all fields of the
/// slice segment header.
pub proof fn law_slice_header_parse_is_determined(
    rbsp: Seq<u8>,
    nalu_type: NaluType,
    sps: Sps,
    pps: Pps,
    r: Option<SliceHeader>,
    q: Option<SliceHeader>,
)
    requires
        slice_parsed(rbsp, nalu_type, sps, pps, r),
        slice_parsed(rbsp, nalu_type, sps, pps, q),
    ensures
        q == r,
{
    if r is Some {
        lemma_slice_determined(rbsp, nalu_type, sps, pps, r->0, q);
    } else if q is Some {
        lemma_slice_determined(rbsp, nalu_type, sps, pps, q->0, r);
    }
}

/// A synthesized slice segment header is found in the byte stream and parsed again under
/// the same parameter sets, field for field; and what was parsed is synthesized to the
/// same bytes.
pub proof fn law_slice_header_round_trip(hdr: SliceHeader, nalu_type: NaluType, sps: Sps, pps: Pps)
    requires
        hdr.inferred(nalu_type, sps, pps),
        slice_syntax(hdr, nalu_type, sps, pps).fits(),
    ensures
        slice_round_trips(hdr, nalu_type, sps, pps),
{
    let table = slice_syntax(hdr, nalu_type, sps, pps);
    lemma_written_fits(table);
    lemma_synthesized(nalu_type, table);
    let rbsp = pack(with_trailing(table.bits()));
    let rest = with_trailing(table.bits()).skip(table.bits().len() as int);
    assert forall|r: Option<SliceHeader>| #[trigger]
        slice_parsed(rbsp, nalu_type, sps, pps, r)
            implies r is Some && slice_same(r->0, hdr, nalu_type, sps, pps)
        && nalu_bytes(
            nalu_type,
            slice_syntax(r->0, nalu_type, sps, pps),
            true,
        ) == nalu_bytes(nalu_type, table, true) by {
        assert(bits_of(rbsp) == slice_syntax(hdr, nalu_type, sps, pps).onto(rest));
        lemma_same_bytes(nalu_type, slice_syntax(r->0, nalu_type, sps, pps), table, rest);
    }
    assert forall|r: Option<SliceHeader>, q: Option<SliceHeader>|
        #[trigger] slice_parsed(rbsp, nalu_type, sps, pps, r) && #[trigger] slice_parsed(
            rbsp,
            nalu_type,
            sps,
            pps,
            q,
        ) implies q->0 == r->0 by {
        law_slice_header_parse_is_determined(rbsp, nalu_type, sps, pps, r, q);
    }
}

/// A synthesized NAL unit holds, behind its own start code, no start code, nor three zero
/// bytes, nor two zero bytes and a `2`.
pub proof fn law_no_start_code_is_emulated(nalu_type: NaluType, table: Syntax)
    ensures
        forall|i: int| 2 <= i ==> !#[trigger] reserved_at(nalu_bytes(nalu_type, table, true), i),
{
    let body = escape(pack(table_bits(table)));
    let data = nalu_bytes(nalu_type, table, true);
    lemma_escape_clean(pack(table_bits(table)));
    assert forall|i: int| 2 <= i implies !#[trigger] reserved_at(data, i) by {
        if reserved_at(data, i) {
            assert(data[3] == 1 && data[5] == 1);
            if i >= 6 {
                assert(data[i] == body[i - 6]);
                assert(data[i + 1] == body[i - 5]);
                assert(data[i + 2] == body[i - 4]);
                assert(reserved_at(body, i - 6));
            }
        }
    }
}

/// Whether `g` differs from `h` at most in `fixed_pic_rate_within_cvs_flag` of sub-layers whose
/// picture rate is fixed in general.
pub open spec fn same_but_within_cvs(g: HrdParams, h: HrdParams) -> bool {
    &&& g == (HrdParams {
        fixed_pic_rate_within_cvs_flag: g.fixed_pic_rate_within_cvs_flag,
        ..h
    })
    &&& forall|i: int|
        0 <= i < 7 && !h.fixed_pic_rate_general_flag[i]
            ==> #[trigger] g.fixed_pic_rate_within_cvs_flag[i] == h.fixed_pic_rate_within_cvs_flag[i]
}

/// Where the picture rate of a sub-layer is fixed in general, what is coded does not depend on
/// its `fixed_pic_rate_within_cvs_flag`, which is inferred.
pub proof fn law_hrd_ignores_inferred_within_cvs(
    g: HrdParams,
    h: HrdParams,
    common_inf_present_flag: bool,
    max_sub_layers_minus1: int,
)
    requires
        same_but_within_cvs(g, h),
        max_sub_layers_minus1 <= 6,
    ensures
        hrd_syntax(g, common_inf_present_flag, max_sub_layers_minus1) == hrd_syntax(
            h,
            common_inf_present_flag,
            max_sub_layers_minus1,
        ),
{
    reveal(hrd_syntax);
    reveal(hrd_common_syntax);
    reveal(hrd_sub_pic_syntax);
    lemma_rows_ignore_within_cvs(g, h, 0, max_sub_layers_minus1 + 1);
}

proof fn lemma_rows_ignore_within_cvs(g: HrdParams, h: HrdParams, i: int, n: int)
    requires
        same_but_within_cvs(g, h),
        0 <= i,
        n <= 7,
    ensures
        hrd_rows_from(g, i, n) == hrd_rows_from(h, i, n),
    decreases n - i,
{
    if i < n {
        reveal(hrd_row_syntax);
        reveal(hrd_rate_syntax);
        reveal(hrd_buffers_syntax);
        assert(h.fixed_pic_rate_general_flag[i] || g.fixed_pic_rate_within_cvs_flag[i]
            == h.fixed_pic_rate_within_cvs_flag[i]);
        lemma_rows_ignore_within_cvs(g, h, i + 1, n);
    }
}

/// Where the picture rate of a sub-layer is fixed in general, its
/// `fixed_pic_rate_within_cvs_flag` and its `low_delay_hrd_flag` are not coded, and its duration
/// is.
pub proof fn law_fixed_rate_codes_its_duration(h: HrdParams, i: int)
    requires
        0 <= i < 7,
        h.fixed_pic_rate_general_flag[i],
    ensures
        hrd_rate_syntax(h, i) == syntax()
            .flag(true)
            .ue(h.elemental_duration_in_tc_minus1[i] as int)
            .when(!h.low_delay_hrd_flag[i], syntax().ue(h.cpb_cnt_minus1[i] as int)),
{
    broadcast use group_append;

    reveal(hrd_rate_syntax);
}

/// Video parameter sets of up to seven sub-layers that differ at most in an inferred
/// `fixed_pic_rate_within_cvs_flag` are synthesized alike.
pub proof fn law_vps_ignores_inferred_within_cvs(a: Vps, b: Vps)
    requires
        b == (Vps { hrd_parameters: b.hrd_parameters, ..a }),
        b.hrd_parameters@.len() == a.hrd_parameters@.len(),
        forall|i: int|
            0 <= i < a.hrd_parameters@.len() ==> same_but_within_cvs(
                #[trigger] b.hrd_parameters[i],
                a.hrd_parameters[i],
            ),
        a.max_sub_layers_minus1 <= 6,
    ensures
        vps_syntax(b) == vps_syntax(a),
{
    assert(vps_head_syntax(b) == vps_head_syntax(a)) by {
        reveal(vps_head_syntax);
    }
    assert(vps_layers_syntax(b) == vps_layers_syntax(a)) by {
        reveal(vps_layers_syntax);
        lemma_vps_ordering_alike(a, b, 0, a.max_sub_layers_minus1 + 1);
        lemma_vps_ordering_alike(
            a,
            b,
            a.max_sub_layers_minus1 as int,
            a.max_sub_layers_minus1 + 1,
        );
    }
    assert(vps_timing_syntax(b) == vps_timing_syntax(a)) by {
        reveal(vps_timing_syntax);
        lemma_vps_hrds_alike(a, b, 0, a.num_hrd_parameters as int);
    }
    reveal(vps_syntax);
}

/// Sequence parameter sets of up to seven sub-layers that differ at most in an inferred
/// `fixed_pic_rate_within_cvs_flag` and in scaling lists that are not coded are synthesized alike.
pub proof fn law_sps_ignores_what_is_not_coded(a: Sps, b: Sps)
    requires
        b == (Sps { scaling_list: b.scaling_list, vui_parameters: b.vui_parameters, ..a }),
        scaling_lists_same(b.scaling_list, a.scaling_list),
        b.vui_parameters == (VuiParams { hrd: b.vui_parameters.hrd, ..a.vui_parameters }),
        same_but_within_cvs(b.vui_parameters.hrd, a.vui_parameters.hrd),
        a.max_sub_layers_minus1 <= 6,
    ensures
        sps_syntax(b) == sps_syntax(a),
{
    assert(sps_head_syntax(b) == sps_head_syntax(a)) by {
        reveal(sps_head_syntax);
    }
    assert(sps_format_syntax(b) == sps_format_syntax(a)) by {
        reveal(sps_format_syntax);
    }
    assert(sps_ordering_syntax(b) == sps_ordering_syntax(a)) by {
        reveal(sps_ordering_syntax);
        lemma_sps_ordering_alike(a, b, 0, a.max_sub_layers_minus1 + 1);
        lemma_sps_ordering_alike(
            a,
            b,
            a.max_sub_layers_minus1 as int,
            a.max_sub_layers_minus1 + 1,
        );
    }
    assert(sps_blocks_syntax(b) == sps_blocks_syntax(a)) by {
        reveal(sps_blocks_syntax);
    }
    assert(sps_scaling_syntax(b) == sps_scaling_syntax(a)) by {
        reveal(sps_scaling_syntax);
        law_uncoded_scaling_lists_are_ignored(b.scaling_list, a.scaling_list);
    }
    assert(sps_tools_syntax(b) == sps_tools_syntax(a)) by {
        reveal(sps_tools_syntax);
    }
    assert(sps_short_term_syntax(b) == sps_short_term_syntax(a)) by {
        reveal(sps_short_term_syntax);
        lemma_sps_sets_alike(a, b, 0, a.num_short_term_ref_pic_sets as int);
    }
    assert(sps_long_term_syntax(b) == sps_long_term_syntax(a)) by {
        reveal(sps_long_term_syntax);
        lemma_sps_lt_alike(a, b, 0, a.num_long_term_ref_pics_sps as int);
    }
    assert(sps_vui_syntax(b) == sps_vui_syntax(a)) by {
        reveal(sps_vui_syntax);
        lemma_vui_alike(a.vui_parameters, b.vui_parameters, a.max_sub_layers_minus1 as int);
    }
    assert(sps_extension_syntax(b) == sps_extension_syntax(a)) by {
        reveal(sps_extension_syntax);
    }
    reveal(sps_tail_syntax);
    reveal(sps_syntax);
}

/// Picture parameter sets that differ at most in scaling lists that are not coded are
/// synthesized alike.
pub proof fn law_pps_ignores_uncoded_scaling_lists(a: Pps, b: Pps)
    requires
        b == (Pps { scaling_list: b.scaling_list, ..a }),
        scaling_lists_same(b.scaling_list, a.scaling_list),
    ensures
        pps_syntax(b) == pps_syntax(a),
{
    assert(pps_lists_syntax(b) == pps_lists_syntax(a)) by {
        reveal(pps_lists_syntax);
        law_uncoded_scaling_lists_are_ignored(b.scaling_list, a.scaling_list);
    }
    assert(pps_head_syntax(b) == pps_head_syntax(a)) by {
        reveal(pps_head_syntax);
    }
    assert(pps_tools_syntax(b) == pps_tools_syntax(a)) by {
        reveal(pps_tools_syntax);
    }
    assert(pps_tiles_syntax(b) == pps_tiles_syntax(a)) by {
        reveal(pps_tiles_syntax);
    }
    assert(pps_filters_syntax(b) == pps_filters_syntax(a)) by {
        reveal(pps_filters_syntax);
    }
    assert(pps_extension_syntax(b) == pps_extension_syntax(a)) by {
        reveal(pps_extension_syntax);
    }
    reveal(pps_syntax);
}

proof fn lemma_vps_ordering_alike(a: Vps, b: Vps, i: int, n: int)
    requires
        b == (Vps { hrd_parameters: b.hrd_parameters, ..a }),
    ensures
        vps_ordering_from(b, i, n) == vps_ordering_from(a, i, n),
    decreases n - i,
{
    if i < n {
        lemma_vps_ordering_alike(a, b, i + 1, n);
    }
}

proof fn lemma_vps_hrds_alike(a: Vps, b: Vps, i: int, n: int)
    requires
        b == (Vps { hrd_parameters: b.hrd_parameters, ..a }),
        b.hrd_parameters@.len() == a.hrd_parameters@.len(),
        forall|i: int|
            0 <= i < a.hrd_parameters@.len() ==> same_but_within_cvs(
                #[trigger] b.hrd_parameters[i],
                a.hrd_parameters[i],
            ),
        a.max_sub_layers_minus1 <= 6,
        0 <= i,
    ensures
        vps_hrds_from(b, i, n) == vps_hrds_from(a, i, n),
    decreases n - i,
{
    if i < n && vps_has_hrd(a, i) {
        law_hrd_ignores_inferred_within_cvs(
            b.hrd_parameters[i],
            a.hrd_parameters[i],
            vps_cprms_present(a, i),
            a.max_sub_layers_minus1 as int,
        );
        lemma_vps_hrds_alike(a, b, i + 1, n);
    }
}

proof fn lemma_sps_ordering_alike(a: Sps, b: Sps, i: int, n: int)
    requires
        b == (Sps { scaling_list: b.scaling_list, vui_parameters: b.vui_parameters, ..a }),
    ensures
        sps_ordering_from(b, i, n) == sps_ordering_from(a, i, n),
    decreases n - i,
{
    if i < n {
        lemma_sps_ordering_alike(a, b, i + 1, n);
    }
}

proof fn lemma_sps_sets_alike(a: Sps, b: Sps, i: int, n: int)
    requires
        b == (Sps { scaling_list: b.scaling_list, vui_parameters: b.vui_parameters, ..a }),
    ensures
        sps_st_rps_from(b, i, n) == sps_st_rps_from(a, i, n),
    decreases n - i,
{
    if i < n {
        lemma_sps_sets_alike(a, b, i + 1, n);
    }
}

proof fn lemma_sps_lt_alike(a: Sps, b: Sps, i: int, n: int)
    requires
        b == (Sps { scaling_list: b.scaling_list, vui_parameters: b.vui_parameters, ..a }),
    ensures
        sps_lt_from(b, i, n) == sps_lt_from(a, i, n),
    decreases n - i,
{
    if i < n {
        lemma_sps_lt_alike(a, b, i + 1, n);
    }
}

proof fn lemma_vui_alike(a: VuiParams, b: VuiParams, max_sub_layers_minus1: int)
    requires
        b == (VuiParams { hrd: b.hrd, ..a }),
        same_but_within_cvs(b.hrd, a.hrd),
        max_sub_layers_minus1 <= 6,
    ensures
        vui_syntax(b, max_sub_layers_minus1) == vui_syntax(a, max_sub_layers_minus1),
{
    assert(vui_display_syntax(b) == vui_display_syntax(a)) by {
        reveal(vui_display_syntax);
    }
    assert(vui_signal_syntax(b) == vui_signal_syntax(a)) by {
        reveal(vui_signal_syntax);
    }
    assert(vui_window_syntax(b) == vui_window_syntax(a)) by {
        reveal(vui_window_syntax);
    }
    assert(vui_restriction_syntax(b) == vui_restriction_syntax(a)) by {
        reveal(vui_restriction_syntax);
    }
    assert(vui_timing_syntax(b, max_sub_layers_minus1) == vui_timing_syntax(
        a,
        max_sub_layers_minus1,
    )) by {
        reveal(vui_timing_syntax);
        law_hrd_ignores_inferred_within_cvs(b.hrd, a.hrd, true, max_sub_layers_minus1);
    }
    reveal(vui_syntax);
}

/// The coefficient in front of coefficient `i` of a scaling list.
pub open spec fn coef_before(list: Seq<u8>, first: int, i: int) -> int {
    if i == 0 {
        first
    } else {
        list[i - 1] as int
    }
}

/// The coded differences of a scaling list, of which the first is from `first`.
pub open spec fn coef_deltas(list: Seq<u8>, first: int) -> Seq<int> {
    Seq::new(list.len(), |i: int| wrapped(list[i] - coef_before(list, first, i)))
}

/// The elements of the coded differences from `i`.
pub open spec fn deltas_from(deltas: Seq<int>, i: int) -> Syntax
    decreases deltas.len() - i,
{
    if i >= deltas.len() {
        syntax()
    } else {
        syntax().se(deltas[i]).part(deltas_from(deltas, i + 1))
    }
}

/// The first `n` coefficients that differences stand for: each is the sum of the one before and
/// its difference, modulo 256 (7.3.4).
pub open spec fn decoded_coefs(deltas: Seq<int>, first: int, n: int) -> Seq<int>
    decreases n,
{
    if n <= 0 {
        Seq::empty()
    } else {
        let front = decoded_coefs(deltas, first, n - 1);
        let next = if n == 1 { first } else { front[n - 2] };
        front.push((next + deltas[n - 1] + 256) % 256)
    }
}

/// The table of a scaling list is that of its differences, each of eight bits; and decoding
/// them gives the list back.
pub proof fn law_scaling_deltas_decode(list: Seq<u8>, first: int)
    ensures
        coefs_from(list, first, 0, list.len() as int) == deltas_from(coef_deltas(list, first), 0),
        forall|i: int|
            0 <= i < list.len() ==> -128 <= #[trigger] coef_deltas(list, first)[i] <= 127,
        decoded_coefs(coef_deltas(list, first), first, list.len() as int) == Seq::new(
            list.len(),
            |i: int| list[i] as int,
        ),
{
    lemma_deltas_table(list, first, 0);
    lemma_decoded(list, first, list.len() as int);
}

/// The scaling lists that are coded, in order, each as its size and its number: all of the first
/// three sizes, and every third of the largest.
pub open spec fn coded_lists() -> Seq<(int, int)> {
    seq![
        (0int, 0int), (0, 1), (0, 2), (0, 3), (0, 4), (0, 5),
        (1, 0), (1, 1), (1, 2), (1, 3), (1, 4), (1, 5),
        (2, 0), (2, 1), (2, 2), (2, 3), (2, 4), (2, 5),
        (3, 0), (3, 3),
    ]
}

/// The value in front of the first coefficient of a list.
pub open spec fn coef_start(sl: ScalingLists, size_id: int, matrix_id: int) -> int {
    if size_id > 1 {
        sl.dc(size_id, matrix_id) + 8
    } else {
        8
    }
}

/// The differences of one list.
pub open spec fn list_deltas(sl: ScalingLists, size_id: int, matrix_id: int) -> Seq<int> {
    coef_deltas(sl.list(size_id, matrix_id), coef_start(sl, size_id, matrix_id))
}

/// One list by its differences: `scaling_list_pred_mode_flag`, which is set, the DC coefficient
/// of the two larger sizes, and the differences.
pub open spec fn list_by_deltas_syntax(sl: ScalingLists, size_id: int, matrix_id: int) -> Syntax {
    syntax()
        .flag(true)
        .when(size_id > 1, syntax().se(sl.dc(size_id, matrix_id) as int))
        .part(deltas_from(list_deltas(sl, size_id, matrix_id), 0))
}

/// The lists `ids[i..]` by their differences.
pub open spec fn lists_by_deltas_from(sl: ScalingLists, ids: Seq<(int, int)>, i: int) -> Syntax
    decreases ids.len() - i,
{
    if i >= ids.len() {
        syntax()
    } else {
        list_by_deltas_syntax(sl, ids[i].0, ids[i].1).part(lists_by_deltas_from(sl, ids, i + 1))
    }
}

/// The scaling list data are twenty explicit lists by their differences, each of eight bits; and
/// decoding these gives every list back.
pub proof fn law_scaling_list_data_decodes(sl: ScalingLists)
    ensures
        coded_lists().len() == 20,
        scaling_list_data_syntax(sl) == lists_by_deltas_from(sl, coded_lists(), 0),
        forall|size_id: int, matrix_id: int, i: int|
            0 <= size_id < 4 && 0 <= matrix_id < 6 && 0 <= i < coef_num(size_id)
                ==> -128 <= #[trigger] list_deltas(sl, size_id, matrix_id)[i] <= 127,
        forall|size_id: int, matrix_id: int|
            0 <= size_id < 4 && 0 <= matrix_id < 6 ==> {
                let list = sl.list(size_id, matrix_id);
                &&& list.len() == coef_num(size_id)
                &&& decoded_coefs(
                    #[trigger] list_deltas(sl, size_id, matrix_id),
                    coef_start(sl, size_id, matrix_id),
                    coef_num(size_id),
                ) == Seq::new(list.len(), |i: int| list[i] as int)
            },
{
    assert forall|size_id: int, matrix_id: int|
        0 <= size_id < 4 && 0 <= matrix_id < 6 implies {
        let list = sl.list(size_id, matrix_id);
        &&& list.len() == coef_num(size_id)
        &&& scaling_list_syntax(sl, size_id, matrix_id) == list_by_deltas_syntax(
            sl,
            size_id,
            matrix_id,
        )
        &&& decoded_coefs(
            #[trigger] list_deltas(sl, size_id, matrix_id),
            coef_start(sl, size_id, matrix_id),
            coef_num(size_id),
        ) == Seq::new(list.len(), |i: int| list[i] as int)
    } by {
        lemma_list_by_deltas(sl, size_id, matrix_id);
    }
    lemma_list_data_by_deltas(sl);
}

proof fn lemma_list_by_deltas(sl: ScalingLists, size_id: int, matrix_id: int)
    requires
        0 <= size_id < 4,
        0 <= matrix_id < 6,
    ensures
        sl.list(size_id, matrix_id).len() == coef_num(size_id),
        scaling_list_syntax(sl, size_id, matrix_id) == list_by_deltas_syntax(
            sl,
            size_id,
            matrix_id,
        ),
        decoded_coefs(
            list_deltas(sl, size_id, matrix_id),
            coef_start(sl, size_id, matrix_id),
            coef_num(size_id),
        ) == Seq::new(
            sl.list(size_id, matrix_id).len(),
            |i: int| sl.list(size_id, matrix_id)[i] as int,
        ),
{
    broadcast use group_append;

    reveal(scaling_list_syntax);
    law_scaling_deltas_decode(
        sl.list(size_id, matrix_id),
        coef_start(sl, size_id, matrix_id),
    );
}

proof fn lemma_list_data_by_deltas(sl: ScalingLists)
    ensures
        scaling_list_data_syntax(sl) == lists_by_deltas_from(sl, coded_lists(), 0),
{
    reveal(scaling_list_data_syntax);
    lemma_lists_step(sl, 0, 0, 0);
}

/// What is coded from one list on is the rest of the coded lists.
proof fn lemma_lists_step(sl: ScalingLists, size_id: int, matrix_id: int, i: int)
    requires
        0 <= size_id < 4,
        0 <= matrix_id <= 6,
        size_id == 3 ==> matrix_id % 3 == 0,
        i == 6 * size_id + if size_id == 3 { matrix_id / 3 } else { matrix_id },
    ensures
        scaling_lists_from(sl, size_id, matrix_id) == lists_by_deltas_from(sl, coded_lists(), i),
    decreases 4 - size_id, 9 - matrix_id,
{
    if matrix_id >= 6 {
        if size_id < 3 {
            lemma_lists_step(sl, size_id + 1, 0, i);
        } else {
            assert(scaling_lists_from(sl, 4, 0) == syntax());
        }
    } else {
        assert(coded_lists()[i] == (size_id, matrix_id));
        lemma_list_by_deltas(sl, size_id, matrix_id);
        let next = matrix_id + if size_id == 3 { 3int } else { 1int };
        lemma_lists_step(sl, size_id, next, i + 1);
    }
}

/// Scaling lists that agree in those that are coded, which of the largest size is every third,
/// are coded alike.
pub proof fn law_uncoded_scaling_lists_are_ignored(a: ScalingLists, b: ScalingLists)
    requires
        scaling_lists_same(a, b),
    ensures
        scaling_list_data_syntax(a) == scaling_list_data_syntax(b),
{
    reveal(scaling_list_data_syntax);
    lemma_lists_alike(a, b, 0, 0);
}

proof fn lemma_lists_alike(a: ScalingLists, b: ScalingLists, size_id: int, matrix_id: int)
    requires
        scaling_lists_same(a, b),
        0 <= size_id,
        0 <= matrix_id,
        size_id == 3 ==> matrix_id % 3 == 0,
    ensures
        scaling_lists_from(a, size_id, matrix_id) == scaling_lists_from(b, size_id, matrix_id),
    decreases 4 - size_id, 9 - matrix_id,
{
    if size_id < 4 && matrix_id >= 6 {
        lemma_lists_alike(a, b, size_id + 1, 0);
    } else if size_id < 4 {
        assert(a.list(size_id, matrix_id) == b.list(size_id, matrix_id));
        reveal(scaling_list_syntax);
        lemma_lists_alike(a, b, size_id, matrix_id + if size_id == 3 { 3int } else { 1int });
    }
}

proof fn lemma_deltas_table(list: Seq<u8>, first: int, i: int)
    requires
        0 <= i <= list.len(),
    ensures
        coefs_from(list, coef_before(list, first, i), i, list.len() as int) == deltas_from(
            coef_deltas(list, first),
            i,
        ),
    decreases list.len() - i,
{
    if i < list.len() {
        lemma_deltas_table(list, first, i + 1);
    }
}

proof fn lemma_decoded(list: Seq<u8>, first: int, n: int)
    requires
        0 <= n <= list.len(),
    ensures
        decoded_coefs(coef_deltas(list, first), first, n) =~= Seq::new(
            n as nat,
            |i: int| list[i] as int,
        ),
    decreases n,
{
    if n > 0 {
        lemma_decoded(list, first, n - 1);
        let next = coef_before(list, first, n - 1);
        let coef = list[n - 1] as int;
        assert(coef_deltas(list, first)[n - 1] == wrapped(coef - next));
        assert((next + wrapped(coef - next) + 256) % 256 == coef);
    }
}

/// The constraint flags of a layer always take 43 bits, the flag behind them one, and the
/// profile fields together 88.
pub proof fn law_profile_fields_have_88_bits(p: ProfileFields)
    ensures
        constraint_syntax(p).bits().len() == 43,
        inbld_syntax(p).bits().len() == 1,
        profile_syntax(p).bits().len() == 88,
{
    broadcast use group_bit_count;

    reveal(constraint_syntax);
    reveal(range_flags_syntax);
    reveal(inbld_syntax);
    reveal(profile_syntax);
    reveal(profile_head_syntax);
    lemma_reserved_bit_count(33);
    lemma_reserved_bit_count(34);
    lemma_reserved_bit_count(7);
    lemma_reserved_bit_count(35);
    lemma_reserved_bit_count(43);
    lemma_reserved_bit_count(1);
    lemma_flags_bit_count(p.profile_compatibility_flag@, 0, 32);
}

proof fn lemma_reserved_bit_count(n: int)
    requires
        n >= 0,
    ensures
        reserved_zero(n).bits().len() == n,
    decreases n,
{
    broadcast use group_bit_count;

    if n > 32 {
        lemma_reserved_bit_count(n - 32);
    }
}

proof fn lemma_flags_bit_count(s: Seq<bool>, i: int, n: int)
    requires
        i <= n,
    ensures
        flags_from(s, i, n).bits().len() == n - i,
    decreases n - i,
{
    broadcast use group_bit_count;

    if i < n {
        lemma_flags_bit_count(s, i + 1, n);
    }
}

} // verus!
