//! The reader of `slice_segment_header()`.

use crate::bits::lemma_pow2_values;
use crate::codec::bit_reader::BitReader;
use crate::codec::h265::parser::common::{
    agree, decodes, parse_reserved_zero, parse_u_max, parse_us, tail_is, MAX_UE,
};
use crate::codec::h265::parser::rps::{lemma_rps_equal, parse_st_ref_pic_set, rps_same, rps_settled};
use crate::codec::h265::parser::weights::{
    lemma_pwt_equal, parse_pred_weight_table, pwt_same, pwt_settled,
};
use crate::codec::h265::synthesizer::{ceil_log2, count_flags};
use crate::codec::h265::tables::{
    count_true, lt_row_syntax, lt_rows_from, poc_lsb_syntax, pwt_syntax, rplm_syntax,
    slice_active_syntax, slice_address_syntax, slice_body_syntax, slice_collocated_syntax,
    slice_end_syntax, slice_entry_points_syntax, slice_filters_syntax, slice_independent_syntax,
    slice_inter_syntax, slice_lists_syntax, slice_lt_mvp_syntax, slice_lt_syntax,
    slice_offsets_syntax, slice_prediction_syntax, slice_qp_syntax, slice_references_syntax,
    slice_sao_syntax, slice_st_syntax, slice_syntax, slice_type_syntax, us_from,
    weight_list_syntax,
};
use crate::codec::h265::types::{
    NaluType, Pps, PredWeightTable, RefPicListModification, ShortTermRefPicSet, SliceHeader,
    SliceType, Sps,
};
use crate::syntax::{group_onto, group_read, syntax, ue};
use vstd::prelude::*;

verus! {

broadcast use {group_onto, group_read};

/// The header of a slice segment of which nothing is coded: what is inferred from the picture
/// parameter set is taken from there.
pub open spec fn uncoded_header(pps: Pps) -> SliceHeader {
    SliceHeader {
        num_ref_idx_l0_active_minus1: pps.num_ref_idx_l0_default_active_minus1,
        num_ref_idx_l1_active_minus1: pps.num_ref_idx_l1_default_active_minus1,
        deblocking_filter_disabled_flag: pps.deblocking_filter_disabled_flag,
        beta_offset_div2: pps.beta_offset_div2,
        tc_offset_div2: pps.tc_offset_div2,
        loop_filter_across_slices_enabled_flag: pps.loop_filter_across_slices_enabled_flag,
        ..SliceHeader::initial()
    }
}

/// Where the slice segment lies.
pub struct SliceAddress {
    pub first_slice_segment_in_pic_flag: bool,
    pub no_output_of_prior_pics_flag: bool,
    pub pic_parameter_set_id: u8,
    pub dependent_slice_segment_flag: bool,
    pub segment_address: u32,
}

impl SliceAddress {
    /// The fields of `s`.
    #[verifier::opaque]
    pub open spec fn of(s: SliceHeader) -> Self {
        SliceAddress {
            first_slice_segment_in_pic_flag: s.first_slice_segment_in_pic_flag,
            no_output_of_prior_pics_flag: s.no_output_of_prior_pics_flag,
            pic_parameter_set_id: s.pic_parameter_set_id,
            dependent_slice_segment_flag: s.dependent_slice_segment_flag,
            segment_address: s.segment_address,
        }
    }

    /// Whether `s` holds these fields.
    pub open spec fn fills(self, s: SliceHeader) -> bool {
        Self::of(s) == self
    }

    /// Whether what is not coded has its inferred or initial value.
    #[verifier::opaque]
    pub open spec fn settled(self, nalu_type: NaluType, pps: Pps) -> bool {
        &&& !(nalu_type.irap()) ==> !self.no_output_of_prior_pics_flag
        &&& !(!self.first_slice_segment_in_pic_flag && pps.dependent_slice_segments_enabled_flag)
            ==> !self.dependent_slice_segment_flag
        &&& self.first_slice_segment_in_pic_flag ==> self.segment_address == 0
    }

    /// Whether the fields that are coded of `v` are these.
    #[verifier::opaque]
    pub open spec fn same(self, v: SliceHeader, nalu_type: NaluType, pps: Pps) -> bool {
        &&& self.first_slice_segment_in_pic_flag == v.first_slice_segment_in_pic_flag
        &&& nalu_type.irap() ==> self.no_output_of_prior_pics_flag == v.no_output_of_prior_pics_flag
        &&& self.pic_parameter_set_id == v.pic_parameter_set_id
        &&& !v.first_slice_segment_in_pic_flag && pps.dependent_slice_segments_enabled_flag
            ==> self.dependent_slice_segment_flag == v.dependent_slice_segment_flag
        &&& !v.first_slice_segment_in_pic_flag ==> self.segment_address == v.segment_address
    }
}

/// Where the slice segment lies.
#[verifier::rlimit(40)]
pub(crate) fn parse_slice_address(
    r: &mut BitReader,
    nalu_type: NaluType,
    sps: &Sps,
    pps: &Pps,
) -> (f: SliceAddress)
    requires
        old(r).inv(),
    ensures
        final(r).inv(),
        final(r)@ is Some ==> old(r)@ is Some,
        forall|s: SliceHeader| f.fills(s)
            ==> decodes(
                old(r)@,
                #[trigger] slice_address_syntax(s, nalu_type, *sps, *pps),
                final(r)@,
            ),
        forall|v: SliceHeader, rest: Seq<bool>|
            old(r)@ == Some(#[trigger] slice_address_syntax(v, nalu_type, *sps, *pps).onto(rest))
                && slice_address_syntax(v, nalu_type, *sps, *pps).fits()
                && (v.first_slice_segment_in_pic_flag || !pps.dependent_slice_segments_enabled_flag
                    ==> !v.dependent_slice_segment_flag)
                ==> final(r)@ == Some(
                rest,
            ) && f.same(v, nalu_type, *pps),
        f.first_slice_segment_in_pic_flag || !pps.dependent_slice_segments_enabled_flag
            ==> !f.dependent_slice_segment_flag,
        f.settled(nalu_type, *pps),
{
    proof {
        lemma_pow2_values();
        reveal(slice_address_syntax);
        reveal(SliceAddress::settled);
        reveal(SliceAddress::of);
        reveal(SliceAddress::same);
    }
    let irap = nalu_type.is_irap();
    let first_slice_segment_in_pic_flag: bool = r.flag();
    let mut no_output_of_prior_pics_flag: bool = false;
    if irap {
        no_output_of_prior_pics_flag = r.flag();
    }
    let pic_parameter_set_id: u8 = r.ue(0xff) as u8;
    let mut dependent_slice_segment_flag: bool = false;
    let mut segment_address: u32 = 0;
    if !first_slice_segment_in_pic_flag {
        if pps.dependent_slice_segments_enabled_flag {
            dependent_slice_segment_flag = r.flag();
        }
        segment_address = r.u(ceil_log2(sps.pic_size_in_ctbs_y));
    }
    SliceAddress {
        first_slice_segment_in_pic_flag,
        no_output_of_prior_pics_flag,
        pic_parameter_set_id,
        dependent_slice_segment_flag,
        segment_address,
    }
}

/// The type of the slice.
fn parse_slice_type(r: &mut BitReader) -> (t: SliceType)
    requires
        old(r).inv(),
    ensures
        final(r).inv(),
        decodes(old(r)@, syntax().ue(t.code() as int), final(r)@),
        forall|v: SliceType, rest: Seq<bool>|
            old(r)@ == Some(#[trigger] ue(v.code() as int).onto(rest))
                ==> final(r)@ == Some(rest) && t == v,
{
    let v: u8 = r.ue(0xff) as u8;
    match SliceType::from_u8(v) {
        Some(t) => t,
        None => {
            r.require(false);
            SliceType::I
        },
    }
}

/// What precedes the reference pictures.
pub struct SliceTypeFields {
    pub type_: SliceType,
    pub pic_output_flag: bool,
    pub colour_plane_id: u8,
}

impl SliceTypeFields {
    /// The fields of `s`.
    #[verifier::opaque]
    pub open spec fn of(s: SliceHeader) -> Self {
        SliceTypeFields {
            type_: s.type_,
            pic_output_flag: s.pic_output_flag,
            colour_plane_id: s.colour_plane_id,
        }
    }

    /// Whether `s` holds these fields.
    pub open spec fn fills(self, s: SliceHeader) -> bool {
        Self::of(s) == self
    }

    /// Whether what is not coded has its inferred or initial value.
    #[verifier::opaque]
    pub open spec fn settled(self, sps: Sps, pps: Pps) -> bool {
        &&& !pps.output_flag_present_flag ==> self.pic_output_flag
        &&& !sps.separate_colour_plane_flag ==> self.colour_plane_id == 0
    }

    /// Whether the fields that are coded of `v` are these.
    #[verifier::opaque]
    pub open spec fn same(self, v: SliceHeader, sps: Sps, pps: Pps) -> bool {
        &&& self.type_ == v.type_
        &&& pps.output_flag_present_flag ==> self.pic_output_flag == v.pic_output_flag
        &&& sps.separate_colour_plane_flag ==> self.colour_plane_id == v.colour_plane_id
    }
}

impl SliceTypeFields {
    /// The values where nothing is coded.
    fn absent() -> (f: Self)
        ensures
            f.fills(SliceHeader::initial()),
    {
        proof {
            reveal(SliceTypeFields::of);
        }
        SliceTypeFields {
            type_: SliceType::I,
            pic_output_flag: true,
            colour_plane_id: 0,
        }
    }
}

/// What precedes the reference pictures.
pub(crate) fn parse_slice_type_fields(
    r: &mut BitReader,
    sps: &Sps,
    pps: &Pps,
) -> (f: SliceTypeFields)
    requires
        old(r).inv(),
    ensures
        final(r).inv(),
        final(r)@ is Some ==> old(r)@ is Some,
        forall|s: SliceHeader| f.fills(s)
            ==> decodes(old(r)@, #[trigger] slice_type_syntax(s, *sps, *pps), final(r)@),
        forall|v: SliceHeader, rest: Seq<bool>|
            old(r)@ == Some(#[trigger] slice_type_syntax(v, *sps, *pps).onto(rest))
                && slice_type_syntax(v, *sps, *pps).fits()
                ==> final(r)@ == Some(
                rest,
            ) && f.same(v, *sps, *pps),
        f.settled(*sps, *pps),
{
    proof {
        lemma_pow2_values();
        reveal(slice_type_syntax);
        reveal(SliceTypeFields::settled);
        reveal(SliceTypeFields::of);
        reveal(SliceTypeFields::same);
    }
    parse_reserved_zero(r, pps.num_extra_slice_header_bits as usize);
    let type_: SliceType = parse_slice_type(r);
    let mut pic_output_flag: bool = true;
    if pps.output_flag_present_flag {
        pic_output_flag = r.flag();
    }
    let mut colour_plane_id: u8 = 0;
    if sps.separate_colour_plane_flag {
        colour_plane_id = r.u(2) as u8;
    }
    SliceTypeFields {
        type_,
        pic_output_flag,
        colour_plane_id,
    }
}

/// The picture order count and the short-term reference pictures.
pub struct SliceShortTerm {
    pub pic_order_cnt_lsb: u16,
    pub short_term_ref_pic_set_sps_flag: bool,
    pub short_term_ref_pic_set: ShortTermRefPicSet,
    pub short_term_ref_pic_set_idx: u8,
    pub curr_rps_idx: u8,
}

impl SliceShortTerm {
    /// The fields of `s`.
    #[verifier::opaque]
    pub open spec fn of(s: SliceHeader) -> Self {
        SliceShortTerm {
            pic_order_cnt_lsb: s.pic_order_cnt_lsb,
            short_term_ref_pic_set_sps_flag: s.short_term_ref_pic_set_sps_flag,
            short_term_ref_pic_set: s.short_term_ref_pic_set,
            short_term_ref_pic_set_idx: s.short_term_ref_pic_set_idx,
            curr_rps_idx: s.curr_rps_idx,
        }
    }

    /// Whether `s` holds these fields.
    pub open spec fn fills(self, s: SliceHeader) -> bool {
        Self::of(s) == self
    }

    /// Whether what is not coded has its inferred or initial value.
    #[verifier::opaque]
    pub open spec fn settled(self, sps: Sps) -> bool {
        &&& if self.short_term_ref_pic_set_sps_flag {
            self.short_term_ref_pic_set == ShortTermRefPicSet::initial()
        } else {
            &&& rps_settled(self.short_term_ref_pic_set)
            &&& self.curr_rps_idx == sps.num_short_term_ref_pic_sets
        }
        &&& !(self.short_term_ref_pic_set_sps_flag && sps.num_short_term_ref_pic_sets > 1)
            ==> self.short_term_ref_pic_set_idx == 0
    }

    /// Whether the fields that are coded of `v` are these.
    #[verifier::opaque]
    pub open spec fn same(self, v: SliceHeader, sps: Sps) -> bool {
        &&& self.pic_order_cnt_lsb == v.pic_order_cnt_lsb
        &&& self.short_term_ref_pic_set_sps_flag == v.short_term_ref_pic_set_sps_flag
        &&& !v.short_term_ref_pic_set_sps_flag
            ==> rps_same(self.short_term_ref_pic_set, v.short_term_ref_pic_set)
        &&& v.short_term_ref_pic_set_sps_flag && sps.num_short_term_ref_pic_sets > 1
            ==> self.short_term_ref_pic_set_idx == v.short_term_ref_pic_set_idx
        &&& v.short_term_ref_pic_set_sps_flag ==> self.curr_rps_idx == v.curr_rps_idx
    }
}

impl SliceShortTerm {
    /// The values where nothing is coded.
    fn absent() -> (f: Self)
        ensures
            !f.short_term_ref_pic_set_sps_flag,
            f.short_term_ref_pic_set == ShortTermRefPicSet::initial(),
            f.fills(SliceHeader::initial()),
    {
        proof {
            reveal(SliceShortTerm::of);
        }
        SliceShortTerm {
            pic_order_cnt_lsb: 0,
            short_term_ref_pic_set_sps_flag: false,
            short_term_ref_pic_set: ShortTermRefPicSet::default(),
            short_term_ref_pic_set_idx: 0,
            curr_rps_idx: 0,
        }
    }
}

/// The picture order count and the short-term reference pictures.
pub(crate) fn parse_slice_st(r: &mut BitReader, sps: &Sps) -> (f: SliceShortTerm)
    requires
        old(r).inv(),
    ensures
        final(r).inv(),
        final(r)@ is Some ==> old(r)@ is Some,
        forall|s: SliceHeader| f.fills(s)
            ==> decodes(old(r)@, #[trigger] slice_st_syntax(s, *sps), final(r)@),
        forall|v: SliceHeader, rest: Seq<bool>|
            old(r)@ == Some(#[trigger] slice_st_syntax(v, *sps).onto(rest))
                && slice_st_syntax(v, *sps).fits() && v.inferred_st(*sps)
                ==> final(r)@ == Some(
                rest,
            ) && f.same(v, *sps),
        final(r)@ is Some && f.short_term_ref_pic_set_sps_flag
            ==> f.curr_rps_idx < sps.num_short_term_ref_pic_sets
            && f.curr_rps_idx == (if sps.num_short_term_ref_pic_sets > 1 {
            f.short_term_ref_pic_set_idx
        } else {
            0
        }),
        final(r)@ is Some && !f.short_term_ref_pic_set_sps_flag ==> f.short_term_ref_pic_set.valid()
            && !f.short_term_ref_pic_set.inter_ref_pic_set_prediction_flag,
        f.settled(*sps),
{
    proof {
        lemma_pow2_values();
        reveal(slice_st_syntax);
        reveal(poc_lsb_syntax);
        reveal(SliceShortTerm::settled);
        reveal(SliceShortTerm::of);
        reveal(SliceShortTerm::same);
    }
    let pic_order_cnt_lsb: u16 = parse_u_max(
        r,
        sps.log2_max_pic_order_cnt_lsb_minus4 as usize + 4,
        0xffff,
    ) as u16;
    let short_term_ref_pic_set_sps_flag: bool = r.flag();
    let mut curr_rps_idx: u8 = sps.num_short_term_ref_pic_sets;
    let mut short_term_ref_pic_set: ShortTermRefPicSet = ShortTermRefPicSet::default();
    if !short_term_ref_pic_set_sps_flag {
        short_term_ref_pic_set = parse_st_ref_pic_set(r, sps.num_short_term_ref_pic_sets);
    }
    let mut short_term_ref_pic_set_idx: u8 = 0;
    if short_term_ref_pic_set_sps_flag {
        if sps.num_short_term_ref_pic_sets > 1 {
            short_term_ref_pic_set_idx = parse_u_max(
                r,
                ceil_log2(sps.num_short_term_ref_pic_sets as u32),
                0xff,
            ) as u8;
        }
        curr_rps_idx = short_term_ref_pic_set_idx;
        r.require(curr_rps_idx < sps.num_short_term_ref_pic_sets);
    }
    SliceShortTerm {
        pic_order_cnt_lsb,
        short_term_ref_pic_set_sps_flag,
        short_term_ref_pic_set,
        short_term_ref_pic_set_idx,
        curr_rps_idx,
    }
}

/// One long-term reference picture.
struct LongTermRow {
    lt_idx_sps: u8,
    poc_lsb_lt: u32,
    used_by_curr_pic_lt: bool,
    delta_poc_msb_present_flag: bool,
    delta_poc_msb_cycle_lt: u32,
}

impl LongTermRow {
    /// Whether row `i` of `s` holds these fields.
    spec fn fills(self, s: SliceHeader, i: int) -> bool {
        &&& s.lt_idx_sps@[i] == self.lt_idx_sps
        &&& s.poc_lsb_lt@[i] == self.poc_lsb_lt
        &&& s.used_by_curr_pic_lt@[i] == self.used_by_curr_pic_lt
        &&& s.delta_poc_msb_present_flag@[i] == self.delta_poc_msb_present_flag
        &&& s.delta_poc_msb_cycle_lt@[i] == self.delta_poc_msb_cycle_lt
    }

    /// Whether the fields that are coded or inferred of row `i` of `v` are these.
    spec fn same(self, v: SliceHeader, sps: Sps, i: int) -> bool {
        &&& i < v.num_long_term_sps ==> self.lt_idx_sps == v.lt_sps_idx(sps, i)
        &&& i >= v.num_long_term_sps ==> self.poc_lsb_lt == v.poc_lsb_lt@[i]
        &&& self.used_by_curr_pic_lt == v.used_by_curr_pic_lt@[i]
        &&& self.delta_poc_msb_present_flag == v.delta_poc_msb_present_flag@[i]
        &&& self.delta_poc_msb_cycle_lt == v.delta_poc_msb_cycle_lt@[i]
    }
}

/// Whether `previous` is what the accumulation of row `i` goes on from.
spec fn accumulates(s: SliceHeader, i: int, previous: u32) -> bool {
    previous == if i != 0 && i != s.num_long_term_sps {
        s.delta_poc_msb_cycle_lt@[i - 1]
    } else {
        0
    }
}

/// One long-term reference picture.
#[verifier::rlimit(40)]
fn parse_lt_row(r: &mut BitReader, sps: &Sps, from_sps: bool, previous: u32) -> (f: LongTermRow)
    requires
        old(r).inv(),
        sps.num_long_term_ref_pics_sps <= 32,
    ensures
        final(r).inv(),
        final(r)@ is Some ==> old(r)@ is Some,
        final(r)@ is Some ==> {
            &&& f.delta_poc_msb_cycle_lt >= previous
            &&& !f.delta_poc_msb_present_flag ==> f.delta_poc_msb_cycle_lt == previous
            &&& from_sps ==> f.lt_idx_sps < sps.num_long_term_ref_pics_sps && f.used_by_curr_pic_lt
                == sps.used_by_curr_pic_lt_sps_flag@[f.lt_idx_sps as int]
            &&& from_sps && sps.num_long_term_ref_pics_sps <= 1 ==> f.lt_idx_sps == 0
            &&& from_sps ==> f.poc_lsb_lt == sps.lt_ref_pic_poc_lsb_sps@[f.lt_idx_sps as int]
            &&& !from_sps ==> f.lt_idx_sps == 0
        },
        forall|s: SliceHeader, i: int|
            from_sps == (i < s.num_long_term_sps) && accumulates(s, i, previous) && f.fills(s, i)
                ==> decodes(
                old(r)@,
                #[trigger] lt_row_syntax(s, *sps, i),
                final(r)@,
            ),
        forall|v: SliceHeader, i: int, rest: Seq<bool>|
            from_sps == (i < v.num_long_term_sps) && accumulates(v, i, previous) && old(r)@ == Some(
                #[trigger] lt_row_syntax(v, *sps, i).onto(rest),
            ) && lt_row_syntax(v, *sps, i).fits() && v.inferred_lt_row(*sps, i)
                ==> final(r)@ == Some(rest)
                && f.same(v, *sps, i),
{
    proof {
        reveal(lt_row_syntax);
    }
    let mut lt_idx_sps: u8 = 0;
    let mut poc_lsb_lt: u32 = 0;
    let mut used_by_curr_pic_lt: bool = false;
    if from_sps {
        if sps.num_long_term_ref_pics_sps > 1 {
            lt_idx_sps = parse_u_max(
                r,
                ceil_log2(sps.num_long_term_ref_pics_sps as u32),
                0xff,
            ) as u8;
        }
        r.require(lt_idx_sps < sps.num_long_term_ref_pics_sps);
        if lt_idx_sps < sps.num_long_term_ref_pics_sps {
            poc_lsb_lt = sps.lt_ref_pic_poc_lsb_sps[lt_idx_sps as usize];
            used_by_curr_pic_lt = sps.used_by_curr_pic_lt_sps_flag[lt_idx_sps as usize];
        }
    } else {
        poc_lsb_lt = r.u(sps.log2_max_pic_order_cnt_lsb_minus4 as usize + 4);
        used_by_curr_pic_lt = r.flag();
    }
    let delta_poc_msb_present_flag: bool = r.flag();
    let mut coded: u32 = 0;
    if delta_poc_msb_present_flag {
        coded = r.ue(MAX_UE);
    }
    // The value is accumulated over the rows (7-52).
    let in_range = coded <= u32::MAX - previous;
    r.require(in_range);
    let delta_poc_msb_cycle_lt: u32 = if in_range {
        previous + coded
    } else {
        previous
    };
    LongTermRow {
        lt_idx_sps,
        poc_lsb_lt,
        used_by_curr_pic_lt,
        delta_poc_msb_present_flag,
        delta_poc_msb_cycle_lt,
    }
}

/// The long-term reference pictures.
pub struct LongTermRows {
    pub lt_idx_sps: [u8; 16],
    pub poc_lsb_lt: [u32; 16],
    pub used_by_curr_pic_lt: [bool; 16],
    pub delta_poc_msb_present_flag: [bool; 16],
    pub delta_poc_msb_cycle_lt: [u32; 16],
}

impl LongTermRows {
    /// Row `k`.
    spec fn row(self, k: int) -> LongTermRow {
        LongTermRow {
            lt_idx_sps: self.lt_idx_sps@[k],
            poc_lsb_lt: self.poc_lsb_lt@[k],
            used_by_curr_pic_lt: self.used_by_curr_pic_lt@[k],
            delta_poc_msb_present_flag: self.delta_poc_msb_present_flag@[k],
            delta_poc_msb_cycle_lt: self.delta_poc_msb_cycle_lt@[k],
        }
    }

    /// Whether the first `n` rows of `s` are these.
    pub closed spec fn fills(self, s: SliceHeader, n: int) -> bool {
        forall|k: int|
            #![trigger self.delta_poc_msb_cycle_lt@[k]]
            #![trigger s.delta_poc_msb_cycle_lt@[k]]
            0 <= k < n ==> self.row(k).fills(s, k)
    }

    /// Whether what is coded or inferred of the first `n` rows of `v` is in these.
    pub closed spec fn same(self, v: SliceHeader, sps: Sps, n: int) -> bool {
        forall|k: int|
            #![trigger self.delta_poc_msb_cycle_lt@[k]]
            #![trigger v.delta_poc_msb_cycle_lt@[k]]
            0 <= k < n ==> self.row(k).same(v, sps, k)
    }
}

impl LongTermRows {
    /// Whether what is not coded of `n` rows, of which the first refer to the sequence
    /// parameter set, has its inferred or initial value.
    pub open spec fn settled(self, sps: Sps, num_long_term_sps: int, n: int) -> bool {
        &&& forall|k: int|
            #![trigger self.lt_idx_sps@[k]]
            #![trigger self.poc_lsb_lt@[k]]
            0 <= k < n ==> if k < num_long_term_sps {
                &&& self.poc_lsb_lt@[k] == sps.lt_ref_pic_poc_lsb_sps@[self.lt_idx_sps@[k] as int]
                &&& sps.num_long_term_ref_pics_sps <= 1 ==> self.lt_idx_sps@[k] == 0
            } else {
                self.lt_idx_sps@[k] == 0
            }
        &&& tail_is(self.lt_idx_sps@, n, 0u8)
        &&& tail_is(self.poc_lsb_lt@, n, 0u32)
        &&& tail_is(self.used_by_curr_pic_lt@, n, false)
        &&& tail_is(self.delta_poc_msb_present_flag@, n, false)
        &&& tail_is(self.delta_poc_msb_cycle_lt@, n, 0u32)
    }
}

/// Whether what is not coded of the first `n` rows has its inferred value.
pub open spec fn lt_rows_inferred(v: SliceHeader, sps: Sps, n: int) -> bool {
    forall|i: int| 0 <= i < n ==> #[trigger] v.inferred_lt_row(sps, i)
}

/// The long-term reference pictures.
#[verifier::rlimit(40)]
fn parse_lt_rows(r: &mut BitReader, sps: &Sps, num_long_term_sps: u8, n: usize) -> (a: LongTermRows)
    requires
        old(r).inv(),
        n <= 16,
        sps.num_long_term_ref_pics_sps <= 32,
    ensures
        final(r).inv(),
        forall|s: SliceHeader|
            final(r)@ is Some && s.num_long_term_sps == num_long_term_sps && a.fills(s, n as int)
                ==> #[trigger] lt_rows_inferred(s, *sps, n as int),
        final(r)@ is Some ==> old(r)@ is Some,
        forall|s: SliceHeader|
            s.num_long_term_sps == num_long_term_sps && a.fills(s, n as int)
                ==> decodes(old(r)@, #[trigger] lt_rows_from(s, *sps, 0, n as int), final(r)@),
        forall|v: SliceHeader, rest: Seq<bool>|
            old(r)@ == Some(#[trigger] lt_rows_from(v, *sps, 0, n as int).onto(rest))
                && lt_rows_from(v, *sps, 0, n as int).fits()
                && v.num_long_term_sps == num_long_term_sps && lt_rows_inferred(v, *sps, n as int)
                ==> final(r)@ == Some(rest) && a.same(v, *sps, n as int),
        final(r)@ is Some ==> a.settled(*sps, num_long_term_sps as int, n as int),
{
    let mut a = LongTermRows {
        lt_idx_sps: [0; 16],
        poc_lsb_lt: [0; 16],
        used_by_curr_pic_lt: [false; 16],
        delta_poc_msb_present_flag: [false; 16],
        delta_poc_msb_cycle_lt: [0; 16],
    };
    let mut i: usize = 0;
    while i < n
        invariant
            i <= n <= 16,
            r@ is Some ==> a.settled(*sps, num_long_term_sps as int, i as int),
            sps.num_long_term_ref_pics_sps <= 32,
            r.inv(),
            forall|s: SliceHeader|
                r@ is Some && s.num_long_term_sps == num_long_term_sps && a.fills(s, i as int)
                    ==> #[trigger] lt_rows_inferred(s, *sps, i as int),
            r@ is Some ==> old(r)@ is Some,
            forall|s: SliceHeader, rest: Seq<bool>|
                s.num_long_term_sps == num_long_term_sps && a.fills(s, i as int)
                    && r@ == Some(lt_rows_from(s, *sps, i as int, n as int).onto(rest))
                    ==> old(r)@
                    == Some(#[trigger] lt_rows_from(s, *sps, 0, n as int).onto(rest)),
            forall|s: SliceHeader|
                s.num_long_term_sps == num_long_term_sps && a.fills(s, i as int) && r@ is Some
                    && lt_rows_from(s, *sps, i as int, n as int).fits()
                    ==> #[trigger] lt_rows_from(s, *sps, 0, n as int).fits(),
            forall|v: SliceHeader, rest: Seq<bool>|
                old(r)@ == Some(#[trigger] lt_rows_from(v, *sps, 0, n as int).onto(rest))
                    && lt_rows_from(v, *sps, 0, n as int).fits()
                    && v.num_long_term_sps == num_long_term_sps
                    && lt_rows_inferred(v, *sps, n as int)
                    ==> r@ == Some(lt_rows_from(v, *sps, i as int, n as int).onto(rest))
                        && lt_rows_from(v, *sps, i as int, n as int).fits()
                        && a.same(v, *sps, i as int),
        decreases n - i,
    {
        let previous: u32 = if i != 0 && i != num_long_term_sps as usize {
            a.delta_poc_msb_cycle_lt[i - 1]
        } else {
            0
        };
        let ghost start = r@;
        let ghost before = a;
        let f = parse_lt_row(r, sps, i < num_long_term_sps as usize, previous);
        a.lt_idx_sps[i] = f.lt_idx_sps;
        a.poc_lsb_lt[i] = f.poc_lsb_lt;
        a.used_by_curr_pic_lt[i] = f.used_by_curr_pic_lt;
        a.delta_poc_msb_present_flag[i] = f.delta_poc_msb_present_flag;
        a.delta_poc_msb_cycle_lt[i] = f.delta_poc_msb_cycle_lt;
        proof {
            assert(a.row(i as int) == f);
            assert forall|k: int| 0 <= k < i implies #[trigger] a.row(k) == before.row(k) by {
            }
            assert forall|s: SliceHeader| #[trigger] a.fills(s, i + 1)
                implies before.fills(s, i as int) && f.fills(
                s,
                i as int,
            )
                && (s.num_long_term_sps == num_long_term_sps
                    ==> accumulates(s, i as int, previous)) by {
                assert(a.row(i as int).fills(s, i as int));
                assert forall|k: int| 0 <= k < i implies before.row(k).fills(s, k) by {
                    assert(a.row(k).fills(s, k));
                }
                if i > 0 {
                    assert(before.row(i - 1).fills(s, i - 1));
                }
            }
            assert forall|s: SliceHeader|
                s.num_long_term_sps == num_long_term_sps && #[trigger] a.fills(s, i + 1)
                    implies decodes(
                start,
                lt_row_syntax(s, *sps, i as int),
                r@,
            ) by {
            }
            assert forall|s: SliceHeader|
                r@ is Some && s.num_long_term_sps == num_long_term_sps && a.fills(s, i + 1)
                    implies #[trigger] lt_rows_inferred(
                s,
                *sps,
                i + 1,
            ) by {
                assert(a.fills(s, i + 1));
                assert(lt_rows_inferred(s, *sps, i as int));
                assert(f.fills(s, i as int));
                assert(s.inferred_lt_row(*sps, i as int));
            }
            assert forall|s: SliceHeader, rest: Seq<bool>|
                s.num_long_term_sps == num_long_term_sps && a.fills(s, i + 1) && r@ == Some(
                    lt_rows_from(s, *sps, i + 1, n as int).onto(rest),
                )
                    implies old(r)@ == Some(#[trigger] lt_rows_from(s, *sps, 0, n as int).onto(rest)) by {
                assert(a.fills(s, i + 1));
                assert(start == Some(lt_rows_from(s, *sps, i as int, n as int).onto(rest)));
            }
            assert forall|s: SliceHeader|
                s.num_long_term_sps == num_long_term_sps && a.fills(s, i + 1) && r@ is Some
                    && lt_rows_from(
                    s,
                    *sps,
                    i + 1,
                    n as int,
                ).fits() implies #[trigger] lt_rows_from(s, *sps, 0, n as int).fits() by {
                assert(a.fills(s, i + 1));
                assert(lt_rows_from(s, *sps, i as int, n as int).fits());
            }
            assert forall|v: SliceHeader, rest: Seq<bool>|
                old(r)@ == Some(#[trigger] lt_rows_from(v, *sps, 0, n as int).onto(rest))
                    && lt_rows_from(
                    v,
                    *sps,
                    0,
                    n as int,
                ).fits() && v.num_long_term_sps == num_long_term_sps
                    && lt_rows_inferred(v, *sps, n as int)
                    implies r@
                == Some(lt_rows_from(v, *sps, i + 1, n as int).onto(rest)) && lt_rows_from(
                v,
                *sps,
                i + 1,
                n as int,
            ).fits() && a.same(v, *sps, i + 1) by {
                assert(before.same(v, *sps, i as int));
                assert(v.inferred_lt_row(*sps, i as int));
                if i > 0 {
                    assert(before.row(i - 1).same(v, *sps, i - 1));
                }
                assert(accumulates(v, i as int, previous));
                assert(start == Some(
                    lt_row_syntax(v, *sps, i as int).onto(lt_rows_from(v, *sps, i + 1, n as int).onto(rest)),
                ));
                assert forall|k: int| 0 <= k < i + 1 implies a.row(k).same(v, *sps, k) by {
                    if k < i {
                        assert(before.row(k).same(v, *sps, k));
                    }
                }
            }
        }
        i = i + 1;
    }
    a
}

/// The long-term reference pictures.
pub struct SliceLongTerm {
    pub num_long_term_sps: u8,
    pub num_long_term_pics: u8,
    pub rows: LongTermRows,
}

impl SliceLongTerm {
    /// The fields of `s`.
    #[verifier::opaque]
    pub open spec fn of(s: SliceHeader) -> Self {
        SliceLongTerm {
            num_long_term_sps: s.num_long_term_sps,
            num_long_term_pics: s.num_long_term_pics,
            rows: LongTermRows {
                lt_idx_sps: s.lt_idx_sps,
                poc_lsb_lt: s.poc_lsb_lt,
                used_by_curr_pic_lt: s.used_by_curr_pic_lt,
                delta_poc_msb_present_flag: s.delta_poc_msb_present_flag,
                delta_poc_msb_cycle_lt: s.delta_poc_msb_cycle_lt,
            },
        }
    }

    /// Whether `s` holds these fields.
    pub open spec fn fills(self, s: SliceHeader) -> bool {
        Self::of(s) == self
    }

    /// Whether what is not coded has its inferred or initial value.
    pub open spec fn settled(self, sps: Sps) -> bool {
        self.rows.settled(
            sps,
            self.num_long_term_sps as int,
            self.num_long_term_sps + self.num_long_term_pics,
        )
    }

    /// Whether the fields that are coded or inferred of `v` are these.
    pub open spec fn same(self, v: SliceHeader, sps: Sps) -> bool {
        &&& self.num_long_term_sps == v.num_long_term_sps
        &&& self.num_long_term_pics == v.num_long_term_pics
        &&& self.rows.same(v, sps, v.num_long_term())
    }

    /// No pictures.
    fn absent() -> (f: Self)
        ensures
            f.num_long_term_sps == 0,
            f.num_long_term_pics == 0,
            f.fills(SliceHeader::initial()),
    {
        proof {
            reveal(SliceLongTerm::of);
        }
        SliceLongTerm {
            num_long_term_sps: 0,
            num_long_term_pics: 0,
            rows: LongTermRows {
                lt_idx_sps: [0; 16],
                poc_lsb_lt: [0; 16],
                used_by_curr_pic_lt: [false; 16],
                delta_poc_msb_present_flag: [false; 16],
                delta_poc_msb_cycle_lt: [0; 16],
            },
        }
    }
}

/// The long-term reference pictures.
fn parse_slice_lt(r: &mut BitReader, sps: &Sps) -> (f: SliceLongTerm)
    requires
        old(r).inv(),
        sps.num_long_term_ref_pics_sps <= 32,
    ensures
        final(r).inv(),
        final(r)@ is Some ==> old(r)@ is Some,
        f.num_long_term_sps + f.num_long_term_pics <= 16,
        forall|s: SliceHeader| f.fills(s) && final(r)@ is Some ==> #[trigger] s.inferred_lt(*sps),
        forall|s: SliceHeader| f.fills(s)
            ==> decodes(old(r)@, #[trigger] slice_lt_syntax(s, *sps), final(r)@),
        forall|v: SliceHeader, rest: Seq<bool>|
            old(r)@ == Some(#[trigger] slice_lt_syntax(v, *sps).onto(rest))
                && slice_lt_syntax(v, *sps).fits()
                && v.inferred_lt(*sps) ==> final(r)@ == Some(rest) && f.same(v, *sps),
        final(r)@ is Some ==> f.settled(*sps),
{
    proof {
        reveal(slice_lt_syntax);
        reveal(SliceLongTerm::of);
    }
    if !sps.long_term_ref_pics_present_flag {
        return SliceLongTerm::absent();
    }
    let mut num_long_term_sps: u8 = 0;
    if sps.num_long_term_ref_pics_sps > 0 {
        num_long_term_sps = r.ue(16) as u8;
    }
    let mut num_long_term_pics: u8 = r.ue(16) as u8;
    let bounded = num_long_term_sps + num_long_term_pics <= 16;
    r.require(bounded);
    if !bounded {
        num_long_term_sps = 0;
        num_long_term_pics = 0;
    }
    let n: usize = (num_long_term_sps + num_long_term_pics) as usize;
    let rows = parse_lt_rows(r, sps, num_long_term_sps, n);
    let f = SliceLongTerm { num_long_term_sps, num_long_term_pics, rows };
    proof {
        assert forall|s: SliceHeader| #[trigger] f.fills(s) implies rows.fills(s, n as int) by {
        }
        assert forall|s: SliceHeader| f.fills(s) && r@ is Some
            implies #[trigger] s.inferred_lt(*sps) by {
            assert(f.fills(s));
            assert(lt_rows_inferred(s, *sps, n as int));
        }
        assert forall|s: SliceHeader| f.fills(s) implies decodes(
            old(r)@,
            #[trigger] slice_lt_syntax(s, *sps),
            r@,
        ) by {
            assert(f.fills(s));
        }
        assert forall|v: SliceHeader| v.inferred_lt(*sps) implies #[trigger] lt_rows_inferred(
            v,
            *sps,
            v.num_long_term(),
        ) by {
        }
    }
    f
}

/// The sample adaptive offset flags, where there are any.
pub struct SliceSao {
    pub sao_luma_flag: bool,
    pub sao_chroma_flag: bool,
}

impl SliceSao {
    /// The fields of `s`.
    #[verifier::opaque]
    pub open spec fn of(s: SliceHeader) -> Self {
        SliceSao {
            sao_luma_flag: s.sao_luma_flag,
            sao_chroma_flag: s.sao_chroma_flag,
        }
    }

    /// Whether `s` holds these fields.
    pub open spec fn fills(self, s: SliceHeader) -> bool {
        Self::of(s) == self
    }

    /// Whether what is not coded has its inferred or initial value.
    #[verifier::opaque]
    pub open spec fn settled(self, sps: Sps) -> bool {
        &&& !sps.sample_adaptive_offset_enabled_flag ==> !self.sao_luma_flag
        &&& !(sps.sample_adaptive_offset_enabled_flag && sps.chroma_array_type != 0)
            ==> !self.sao_chroma_flag
    }

    /// Whether the fields that are coded of `v` are these.
    #[verifier::opaque]
    pub open spec fn same(self, v: SliceHeader, sps: Sps) -> bool {
        &&& sps.sample_adaptive_offset_enabled_flag ==> self.sao_luma_flag == v.sao_luma_flag
        &&& sps.sample_adaptive_offset_enabled_flag && sps.chroma_array_type != 0
            ==> self.sao_chroma_flag == v.sao_chroma_flag
    }
}

impl SliceSao {
    /// The values where nothing is coded.
    fn absent() -> (f: Self)
        ensures
            f.fills(SliceHeader::initial()),
    {
        proof {
            reveal(SliceSao::of);
        }
        SliceSao {
            sao_luma_flag: false,
            sao_chroma_flag: false,
        }
    }
}

/// The sample adaptive offset flags, where there are any.
pub(crate) fn parse_slice_sao(r: &mut BitReader, sps: &Sps) -> (f: SliceSao)
    requires
        old(r).inv(),
    ensures
        final(r).inv(),
        final(r)@ is Some ==> old(r)@ is Some,
        forall|s: SliceHeader| f.fills(s)
            ==> decodes(old(r)@, #[trigger] slice_sao_syntax(s, *sps), final(r)@),
        forall|v: SliceHeader, rest: Seq<bool>|
            old(r)@ == Some(#[trigger] slice_sao_syntax(v, *sps).onto(rest))
                && slice_sao_syntax(v, *sps).fits() && v.inferred_sao(*sps)
                ==> final(r)@ == Some(
                rest,
            ) && f.same(v, *sps),
        !sps.sample_adaptive_offset_enabled_flag ==> !f.sao_luma_flag && !f.sao_chroma_flag,
        sps.chroma_array_type == 0 ==> !f.sao_chroma_flag,
        f.settled(*sps),
{
    proof {
        reveal(slice_sao_syntax);
        reveal(SliceSao::settled);
        reveal(SliceSao::of);
        reveal(SliceSao::same);
    }
    let mut sao_luma_flag: bool = false;
    let mut sao_chroma_flag: bool = false;
    if sps.sample_adaptive_offset_enabled_flag {
        sao_luma_flag = r.flag();
        if sps.chroma_array_type != 0 {
            sao_chroma_flag = r.flag();
        }
    }
    SliceSao {
        sao_luma_flag,
        sao_chroma_flag,
    }
}

/// The entries of a modified reference list.
fn parse_list_entries(r: &mut BitReader, bits: usize, n_minus1: u8) -> (a: [u32; 16])
    requires
        old(r).inv(),
    ensures
        final(r).inv(),
        final(r)@ is Some ==> old(r)@ is Some && n_minus1 < 16,
        forall|s: Seq<u32>|
            agree(a@, s, n_minus1 + 1) ==> decodes(
                old(r)@,
                #[trigger] us_from(bits as int, s, 0, n_minus1 + 1),
                final(r)@,
            ),
        forall|v: Seq<u32>, rest: Seq<bool>|
            n_minus1 < 16
                && old(r)@ == Some(#[trigger] us_from(bits as int, v, 0, n_minus1 + 1).onto(rest))
                && us_from(bits as int, v, 0, n_minus1 + 1).fits()
                    ==> final(r)@ == Some(rest) && agree(
                a@,
                v,
                n_minus1 + 1,
            ),
        tail_is(a@, n_minus1 + 1, 0u32),
{
    if n_minus1 < 16 {
        parse_us::<16>(r, bits, n_minus1 as usize + 1)
    } else {
        r.require(false);
        [0; 16]
    }
}

/// Whether the fields that are coded of `v` are those of `p`.
pub open spec fn rplm_same(
    p: RefPicListModification,
    v: RefPicListModification,
    slice_type: SliceType,
    l0_minus1: int,
    l1_minus1: int,
) -> bool {
    &&& p.ref_pic_list_modification_flag_l0 == v.ref_pic_list_modification_flag_l0
    &&& v.ref_pic_list_modification_flag_l0
        ==> agree(p.list_entry_l0@, v.list_entry_l0@, l0_minus1 + 1)
    &&& slice_type == SliceType::B ==> {
        &&& p.ref_pic_list_modification_flag_l1 == v.ref_pic_list_modification_flag_l1
        &&& v.ref_pic_list_modification_flag_l1
            ==> agree(p.list_entry_l1@, v.list_entry_l1@, l1_minus1 + 1)
    }
}

/// Whether what is not coded has its initial value.
pub open spec fn rplm_settled(
    p: RefPicListModification,
    slice_type: SliceType,
    l0_minus1: int,
    l1_minus1: int,
) -> bool {
    &&& slice_type != SliceType::B ==> !p.ref_pic_list_modification_flag_l1
    &&& tail_is(
        p.list_entry_l0@,
        (if p.ref_pic_list_modification_flag_l0 { l0_minus1 + 1 } else { 0 }),
        0u32,
    )
    &&& tail_is(
        p.list_entry_l1@,
        (if p.ref_pic_list_modification_flag_l1 { l1_minus1 + 1 } else { 0 }),
        0u32,
    )
}

/// Settled structures that are the same as far as they are coded are equal.
proof fn lemma_rplm_equal(
    p: RefPicListModification,
    q: RefPicListModification,
    slice_type: SliceType,
    l0_minus1: int,
    l1_minus1: int,
)
    requires
        rplm_same(q, p, slice_type, l0_minus1, l1_minus1),
        rplm_settled(p, slice_type, l0_minus1, l1_minus1),
        rplm_settled(q, slice_type, l0_minus1, l1_minus1),
    ensures
        q == p,
{
    assert(q.list_entry_l0 =~= p.list_entry_l0);
    assert(q.list_entry_l1 =~= p.list_entry_l1);
}

/// Whether the modified lists lie within the arrays.
pub open spec fn rplm_bounded(
    m: RefPicListModification,
    slice_type: SliceType,
    l0_minus1: int,
    l1_minus1: int,
) -> bool {
    &&& m.ref_pic_list_modification_flag_l0 ==> l0_minus1 < 16
    &&& slice_type == SliceType::B && m.ref_pic_list_modification_flag_l1 ==> l1_minus1 < 16
}

/// `ref_pic_lists_modification()` (7.3.6.2).
fn parse_rplm(
    r: &mut BitReader,
    slice_type: SliceType,
    l0_minus1: u8,
    l1_minus1: u8,
    total: u32,
) -> (p: RefPicListModification)
    requires
        old(r).inv(),
    ensures
        final(r).inv(),
        final(r)@ is Some ==> rplm_bounded(p, slice_type, l0_minus1 as int, l1_minus1 as int),
        decodes(
            old(r)@,
            rplm_syntax(p, slice_type, l0_minus1 as int, l1_minus1 as int, total as int),
            final(r)@,
        ),
        forall|v: RefPicListModification, rest: Seq<bool>|
            old(r)@ == Some(
                #[trigger] rplm_syntax(
                    v,
                    slice_type,
                    l0_minus1 as int,
                    l1_minus1 as int,
                    total as int,
                ).onto(rest),
            ) && rplm_syntax(v, slice_type, l0_minus1 as int, l1_minus1 as int, total as int).fits()
                && rplm_bounded(
                v,
                slice_type,
                l0_minus1 as int,
                l1_minus1 as int,
            )
                ==> final(r)@ == Some(rest)
                    && rplm_same(p, v, slice_type, l0_minus1 as int, l1_minus1 as int),
        rplm_settled(p, slice_type, l0_minus1 as int, l1_minus1 as int),
{
    proof {
        reveal(rplm_syntax);
    }
    let bits: usize = ceil_log2(total);
    let flag_l0: bool = r.flag();
    let mut list_entry_l0: [u32; 16] = [0; 16];
    if flag_l0 {
        list_entry_l0 = parse_list_entries(r, bits, l0_minus1);
    }
    let mut flag_l1: bool = false;
    let mut list_entry_l1: [u32; 16] = [0; 16];
    if slice_type.is_b() {
        flag_l1 = r.flag();
        if flag_l1 {
            list_entry_l1 = parse_list_entries(r, bits, l1_minus1);
        }
    }
    assemble_rplm(flag_l0, list_entry_l0, flag_l1, list_entry_l1)
}

/// The structure that holds these fields.
fn assemble_rplm(
    flag_l0: bool,
    list_entry_l0: [u32; 16],
    flag_l1: bool,
    list_entry_l1: [u32; 16],
) -> (p: RefPicListModification)
    ensures
        p.ref_pic_list_modification_flag_l0 == flag_l0,
        p.list_entry_l0 == list_entry_l0,
        p.ref_pic_list_modification_flag_l1 == flag_l1,
        p.list_entry_l1 == list_entry_l1,
{
    RefPicListModification {
        ref_pic_list_modification_flag_l0: flag_l0,
        list_entry_l0,
        ref_pic_list_modification_flag_l1: flag_l1,
        list_entry_l1,
    }
}

/// The reference lists of a P or B slice.
pub struct SliceLists {
    pub num_ref_idx_active_override_flag: bool,
    pub num_ref_idx_l0_active_minus1: u8,
    pub num_ref_idx_l1_active_minus1: u8,
    pub ref_pic_list_modification: RefPicListModification,
    pub mvd_l1_zero_flag: bool,
    pub cabac_init_flag: bool,
}

impl SliceLists {
    /// The fields of `s`.
    #[verifier::opaque]
    pub open spec fn of(s: SliceHeader) -> Self {
        SliceLists {
            num_ref_idx_active_override_flag: s.num_ref_idx_active_override_flag,
            num_ref_idx_l0_active_minus1: s.num_ref_idx_l0_active_minus1,
            num_ref_idx_l1_active_minus1: s.num_ref_idx_l1_active_minus1,
            ref_pic_list_modification: s.ref_pic_list_modification,
            mvd_l1_zero_flag: s.mvd_l1_zero_flag,
            cabac_init_flag: s.cabac_init_flag,
        }
    }

    /// Whether `s` holds these fields.
    pub open spec fn fills(self, s: SliceHeader) -> bool {
        Self::of(s) == self
    }

    /// Whether what is not coded has its inferred or initial value.
    #[verifier::opaque]
    pub open spec fn settled(self, slice_type: SliceType, total: u32, pps: Pps) -> bool {
        &&& !self.num_ref_idx_active_override_flag
            ==> self.num_ref_idx_l0_active_minus1 == pps.num_ref_idx_l0_default_active_minus1
        &&& !(self.num_ref_idx_active_override_flag && slice_type == SliceType::B)
            ==> self.num_ref_idx_l1_active_minus1 == pps.num_ref_idx_l1_default_active_minus1
        &&& !(slice_type == SliceType::B) ==> !self.mvd_l1_zero_flag
        &&& !pps.cabac_init_present_flag ==> !self.cabac_init_flag
        &&& if pps.lists_modification_present_flag && total > 1 {
            rplm_settled(
                self.ref_pic_list_modification,
                slice_type,
                self.num_ref_idx_l0_active_minus1 as int,
                (if slice_type == SliceType::B {
                    self.num_ref_idx_l1_active_minus1 as int
                } else {
                    0
                }),
            )
        } else {
            self.ref_pic_list_modification == RefPicListModification::initial()
        }
    }

    /// Whether the fields that are coded of `v` are these.
    #[verifier::opaque]
    pub open spec fn same(
        self,
        v: SliceHeader,
        slice_type: SliceType,
        total: u32,
        pps: Pps,
    ) -> bool {
        &&& self.num_ref_idx_active_override_flag == v.num_ref_idx_active_override_flag
        &&& v.num_ref_idx_active_override_flag
            ==> self.num_ref_idx_l0_active_minus1 == v.num_ref_idx_l0_active_minus1
        &&& v.num_ref_idx_active_override_flag && slice_type == SliceType::B
            ==> self.num_ref_idx_l1_active_minus1 == v.num_ref_idx_l1_active_minus1
        &&& pps.lists_modification_present_flag && total > 1
            ==> rplm_same(
                self.ref_pic_list_modification,
                v.ref_pic_list_modification,
                slice_type,
                v.l0_minus1(pps),
                v.l1_list(pps),
            )
        &&& slice_type == SliceType::B ==> self.mvd_l1_zero_flag == v.mvd_l1_zero_flag
        &&& pps.cabac_init_present_flag ==> self.cabac_init_flag == v.cabac_init_flag
    }
}

impl SliceLists {
    /// The values where nothing is coded.
    fn absent(pps: &Pps) -> (f: Self)
        ensures
            f.fills(uncoded_header(*pps)),
    {
        proof {
            reveal(SliceLists::of);
        }
        SliceLists {
            num_ref_idx_active_override_flag: false,
            num_ref_idx_l0_active_minus1: pps.num_ref_idx_l0_default_active_minus1,
            num_ref_idx_l1_active_minus1: pps.num_ref_idx_l1_default_active_minus1,
            ref_pic_list_modification: RefPicListModification::default(),
            mvd_l1_zero_flag: false,
            cabac_init_flag: false,
        }
    }
}

/// The reference lists of a P or B slice.
#[verifier::rlimit(60)]
pub(crate) fn parse_slice_lists(
    r: &mut BitReader,
    slice_type: SliceType,
    total: u32,
    sps: &Sps,
    pps: &Pps,
) -> (f: SliceLists)
    requires
        old(r).inv(),
    ensures
        final(r).inv(),
        final(r)@ is Some ==> old(r)@ is Some,
        forall|s: SliceHeader| s.type_ == slice_type && s.pic_total_curr(*sps, *pps) == total
            && s.has_references(*sps) && f.fills(s)
            ==> decodes(old(r)@, #[trigger] slice_lists_syntax(s, *sps, *pps), final(r)@),
        forall|v: SliceHeader, rest: Seq<bool>|
            v.type_ == slice_type && v.pic_total_curr(*sps, *pps) == total
                && old(r)@ == Some(#[trigger] slice_lists_syntax(v, *sps, *pps).onto(rest))
                && slice_lists_syntax(v, *sps, *pps).fits()
                && (pps.lists_modification_present_flag && total > 1
                    ==> rplm_bounded(
                        v.ref_pic_list_modification,
                        slice_type,
                        v.l0_minus1(*pps),
                        v.l1_list(*pps),
                    ))
                ==> final(r)@ == Some(
                rest,
            ) && f.same(v, slice_type, total, *pps),
        f.num_ref_idx_active_override_flag || f.num_ref_idx_l0_active_minus1
            == pps.num_ref_idx_l0_default_active_minus1,
        f.num_ref_idx_active_override_flag || f.num_ref_idx_l1_active_minus1
            == pps.num_ref_idx_l1_default_active_minus1,
        final(r)@ is Some && pps.lists_modification_present_flag && total > 1 ==> rplm_bounded(
            f.ref_pic_list_modification,
            slice_type,
            f.num_ref_idx_l0_active_minus1 as int,
            f.num_ref_idx_l1_active_minus1 as int,
        ),
        f.settled(slice_type, total, *pps),
{
    proof {
        reveal(slice_lists_syntax);
        reveal(slice_active_syntax);
        reveal(SliceLists::settled);
        reveal(SliceLists::of);
        reveal(SliceLists::same);
    }
    let num_ref_idx_active_override_flag: bool = r.flag();
    let mut num_ref_idx_l0_active_minus1: u8 = pps.num_ref_idx_l0_default_active_minus1;
    let mut num_ref_idx_l1_active_minus1: u8 = pps.num_ref_idx_l1_default_active_minus1;
    if num_ref_idx_active_override_flag {
        num_ref_idx_l0_active_minus1 = r.ue(0xff) as u8;
        if slice_type.is_b() {
            num_ref_idx_l1_active_minus1 = r.ue(0xff) as u8;
        }
    }
    let mut ref_pic_list_modification: RefPicListModification = RefPicListModification::default();
    if pps.lists_modification_present_flag && total > 1 {
        ref_pic_list_modification = parse_rplm(
            r,
            slice_type,
            num_ref_idx_l0_active_minus1,
            if slice_type.is_b() { num_ref_idx_l1_active_minus1 } else { 0 },
            total,
        );
    }
    let mut mvd_l1_zero_flag: bool = false;
    if slice_type.is_b() {
        mvd_l1_zero_flag = r.flag();
    }
    let mut cabac_init_flag: bool = false;
    if pps.cabac_init_present_flag {
        cabac_init_flag = r.flag();
    }
    SliceLists {
        num_ref_idx_active_override_flag,
        num_ref_idx_l0_active_minus1,
        num_ref_idx_l1_active_minus1,
        ref_pic_list_modification,
        mvd_l1_zero_flag,
        cabac_init_flag,
    }
}

/// The prediction of a P or B slice.
pub struct SlicePrediction {
    pub collocated_from_l0_flag: bool,
    pub collocated_ref_idx: u8,
    pub pred_weight_table: PredWeightTable,
    pub five_minus_max_num_merge_cand: u8,
    pub use_integer_mv_flag: bool,
}

impl SlicePrediction {
    /// The fields of `s`.
    #[verifier::opaque]
    pub open spec fn of(s: SliceHeader) -> Self {
        SlicePrediction {
            collocated_from_l0_flag: s.collocated_from_l0_flag,
            collocated_ref_idx: s.collocated_ref_idx,
            pred_weight_table: s.pred_weight_table,
            five_minus_max_num_merge_cand: s.five_minus_max_num_merge_cand,
            use_integer_mv_flag: s.use_integer_mv_flag,
        }
    }

    /// Whether `s` holds these fields.
    pub open spec fn fills(self, s: SliceHeader) -> bool {
        Self::of(s) == self
    }

    /// Whether what is not coded has its inferred or initial value.
    #[verifier::opaque]
    pub open spec fn settled(
        self,
        slice_type: SliceType,
        temporal_mvp: bool,
        l0_minus1: u8,
        l1_minus1: u8,
        sps: Sps,
        pps: Pps,
    ) -> bool {
        let l0 = self.collocated_from_l0_flag;
        &&& !(temporal_mvp && slice_type == SliceType::B) ==> l0
        &&& !(temporal_mvp && ((l0 && l0_minus1 > 0) || (!l0 && l1_minus1 > 0)))
            ==> self.collocated_ref_idx == 0
        &&& if (pps.weighted_pred_flag && slice_type == SliceType::P)
            || (pps.weighted_bipred_flag && slice_type == SliceType::B) {
            pwt_settled(
                self.pred_weight_table,
                slice_type,
                sps.chroma_array_type as int,
                l0_minus1 as int,
                (if slice_type == SliceType::B { l1_minus1 as int } else { 0 }),
            )
        } else {
            self.pred_weight_table == PredWeightTable::initial()
        }
        &&& sps.scc_extension.motion_vector_resolution_control_idc != 2
            ==> !self.use_integer_mv_flag
    }

    /// Whether the fields that are coded of `v` are these.
    #[verifier::opaque]
    pub open spec fn same(
        self,
        v: SliceHeader,
        slice_type: SliceType,
        temporal_mvp: bool,
        l0_minus1: u8,
        l1_minus1: u8,
        sps: Sps,
        pps: Pps,
    ) -> bool {
        &&& temporal_mvp && slice_type == SliceType::B
            ==> self.collocated_from_l0_flag == v.collocated_from_l0_flag
        &&& temporal_mvp
            && (((v.collocated_from_l0_flag && v.l0_minus1(pps) > 0)
                || (!v.collocated_from_l0_flag && v.l1_minus1(pps) > 0)))
            ==> self.collocated_ref_idx == v.collocated_ref_idx
        &&& v.is_weighted(pps)
            ==> pwt_same(
                self.pred_weight_table,
                v.pred_weight_table,
                slice_type,
                sps.chroma_array_type as int,
                v.l0_minus1(pps),
                v.l1_list(pps),
            )
        &&& self.five_minus_max_num_merge_cand == v.five_minus_max_num_merge_cand
        &&& sps.scc_extension.motion_vector_resolution_control_idc == 2
            ==> self.use_integer_mv_flag == v.use_integer_mv_flag
    }
}

impl SlicePrediction {
    /// The values where nothing is coded.
    fn absent() -> (f: Self)
        ensures
            f.fills(SliceHeader::initial()),
    {
        proof {
            reveal(SlicePrediction::of);
        }
        SlicePrediction {
            collocated_from_l0_flag: true,
            collocated_ref_idx: 0,
            pred_weight_table: PredWeightTable::default(),
            five_minus_max_num_merge_cand: 0,
            use_integer_mv_flag: false,
        }
    }
}

/// The prediction of a P or B slice.
#[verifier::rlimit(80)]
pub(crate) fn parse_slice_prediction(
    r: &mut BitReader,
    slice_type: SliceType,
    temporal_mvp: bool,
    l0_minus1: u8,
    l1_minus1: u8,
    sps: &Sps,
    pps: &Pps,
) -> (f: SlicePrediction)
    requires
        old(r).inv(),
    ensures
        final(r).inv(),
        final(r)@ is Some ==> old(r)@ is Some,
        forall|s: SliceHeader| s.type_ == slice_type && s.temporal_mvp_enabled_flag == temporal_mvp
            && s.l0_minus1(*pps) == l0_minus1
            && (slice_type == SliceType::B ==> s.l1_minus1(*pps) == l1_minus1) && f.fills(s)
            ==> decodes(old(r)@, #[trigger] slice_prediction_syntax(s, *sps, *pps), final(r)@),
        forall|v: SliceHeader, rest: Seq<bool>|
            v.type_ == slice_type && v.temporal_mvp_enabled_flag == temporal_mvp
                && v.l0_minus1(*pps) == l0_minus1
                && (slice_type == SliceType::B ==> v.l1_minus1(*pps) == l1_minus1)
                && old(r)@ == Some(#[trigger] slice_prediction_syntax(v, *sps, *pps).onto(rest))
                && slice_prediction_syntax(v, *sps, *pps).fits()
                && v.inferred_prediction(*sps, *pps)
                && (v.is_weighted(*pps)
                    ==> l0_minus1 < 15 && (slice_type == SliceType::B ==> l1_minus1 < 15))
                ==> final(r)@ == Some(
                rest,
            ) && f.same(v, slice_type, temporal_mvp, l0_minus1, l1_minus1, *sps, *pps),
        forall|s: SliceHeader|
            s.type_ == slice_type && s.temporal_mvp_enabled_flag == temporal_mvp
                && s.l0_minus1(*pps) == l0_minus1 && (
            slice_type == SliceType::B ==> s.l1_minus1(*pps) == l1_minus1) && f.fills(s)
                && final(r)@ is Some
                ==> #[trigger] s.inferred_prediction(*sps, *pps)
                    && (s.is_weighted(*pps) ==> l0_minus1 < 15 && (slice_type
                == SliceType::B ==> l1_minus1 < 15)),
        final(r)@ is Some ==> f.settled(slice_type, temporal_mvp, l0_minus1, l1_minus1, *sps, *pps),
{
    proof {
        reveal(slice_prediction_syntax);
        reveal(slice_collocated_syntax);
        reveal(SlicePrediction::settled);
        reveal(SlicePrediction::of);
        reveal(SlicePrediction::same);
    }
    let mut collocated_from_l0_flag: bool = true;
    let mut collocated_ref_idx: u8 = 0;
    if temporal_mvp {
        if slice_type.is_b() {
            collocated_from_l0_flag = r.flag();
        }
        if (collocated_from_l0_flag && l0_minus1 > 0)
            || (!collocated_from_l0_flag && l1_minus1 > 0) {
            collocated_ref_idx = r.ue(0xff) as u8;
        }
    }
    let weighted = (pps.weighted_pred_flag && slice_type.is_p())
        || (pps.weighted_bipred_flag && slice_type.is_b());
    let bounded = l0_minus1 < 15 && (l1_minus1 < 15 || !slice_type.is_b());
    let mut pred_weight_table: PredWeightTable = PredWeightTable::default();
    if weighted {
        r.require(bounded);
        pred_weight_table = parse_pred_weight_table(
            r,
            slice_type,
            sps.chroma_array_type,
            if bounded { l0_minus1 } else { 0 },
            if bounded && slice_type.is_b() { l1_minus1 } else { 0 },
        );
    }
    let five_minus_max_num_merge_cand: u8 = r.ue(0xff) as u8;
    let mut use_integer_mv_flag: bool = false;
    if sps.scc_extension.motion_vector_resolution_control_idc == 2 {
        use_integer_mv_flag = r.flag();
    }
    SlicePrediction {
        collocated_from_l0_flag,
        collocated_ref_idx,
        pred_weight_table,
        five_minus_max_num_merge_cand,
        use_integer_mv_flag,
    }
}

/// The quantizer.
pub struct SliceQp {
    pub qp_delta: i8,
    pub cb_qp_offset: i8,
    pub cr_qp_offset: i8,
    pub slice_act_y_qp_offset: i8,
    pub slice_act_cb_qp_offset: i8,
    pub slice_act_cr_qp_offset: i8,
    pub cu_chroma_qp_offset_enabled_flag: bool,
}

impl SliceQp {
    /// The fields of `s`.
    #[verifier::opaque]
    pub open spec fn of(s: SliceHeader) -> Self {
        SliceQp {
            qp_delta: s.qp_delta,
            cb_qp_offset: s.cb_qp_offset,
            cr_qp_offset: s.cr_qp_offset,
            slice_act_y_qp_offset: s.slice_act_y_qp_offset,
            slice_act_cb_qp_offset: s.slice_act_cb_qp_offset,
            slice_act_cr_qp_offset: s.slice_act_cr_qp_offset,
            cu_chroma_qp_offset_enabled_flag: s.cu_chroma_qp_offset_enabled_flag,
        }
    }

    /// Whether `s` holds these fields.
    pub open spec fn fills(self, s: SliceHeader) -> bool {
        Self::of(s) == self
    }

    /// Whether what is not coded has its inferred or initial value.
    #[verifier::opaque]
    pub open spec fn settled(self, pps: Pps) -> bool {
        &&& !pps.slice_chroma_qp_offsets_present_flag ==> {
            &&& self.cb_qp_offset == 0
            &&& self.cr_qp_offset == 0
        }
        &&& !pps.scc_extension.slice_act_qp_offsets_present_flag ==> {
            &&& self.slice_act_y_qp_offset == 0
            &&& self.slice_act_cb_qp_offset == 0
            &&& self.slice_act_cr_qp_offset == 0
        }
        &&& !pps.range_extension.chroma_qp_offset_list_enabled_flag
            ==> !self.cu_chroma_qp_offset_enabled_flag
    }

    /// Whether the fields that are coded of `v` are these.
    #[verifier::opaque]
    pub open spec fn same(self, v: SliceHeader, pps: Pps) -> bool {
        &&& self.qp_delta == v.qp_delta
        &&& pps.slice_chroma_qp_offsets_present_flag ==> self.cb_qp_offset == v.cb_qp_offset
        &&& pps.slice_chroma_qp_offsets_present_flag ==> self.cr_qp_offset == v.cr_qp_offset
        &&& pps.scc_extension.slice_act_qp_offsets_present_flag
            ==> self.slice_act_y_qp_offset == v.slice_act_y_qp_offset
        &&& pps.scc_extension.slice_act_qp_offsets_present_flag
            ==> self.slice_act_cb_qp_offset == v.slice_act_cb_qp_offset
        &&& pps.scc_extension.slice_act_qp_offsets_present_flag
            ==> self.slice_act_cr_qp_offset == v.slice_act_cr_qp_offset
        &&& pps.range_extension.chroma_qp_offset_list_enabled_flag
            ==> self.cu_chroma_qp_offset_enabled_flag == v.cu_chroma_qp_offset_enabled_flag
    }
}

impl SliceQp {
    /// The values where nothing is coded.
    fn absent() -> (f: Self)
        ensures
            f.fills(SliceHeader::initial()),
    {
        proof {
            reveal(SliceQp::of);
        }
        SliceQp {
            qp_delta: 0,
            cb_qp_offset: 0,
            cr_qp_offset: 0,
            slice_act_y_qp_offset: 0,
            slice_act_cb_qp_offset: 0,
            slice_act_cr_qp_offset: 0,
            cu_chroma_qp_offset_enabled_flag: false,
        }
    }
}

/// The quantizer.
#[verifier::rlimit(40)]
pub(crate) fn parse_slice_qp(r: &mut BitReader, pps: &Pps) -> (f: SliceQp)
    requires
        old(r).inv(),
    ensures
        final(r).inv(),
        final(r)@ is Some ==> old(r)@ is Some,
        forall|s: SliceHeader| f.fills(s)
            ==> decodes(old(r)@, #[trigger] slice_qp_syntax(s, *pps), final(r)@),
        forall|v: SliceHeader, rest: Seq<bool>|
            old(r)@ == Some(#[trigger] slice_qp_syntax(v, *pps).onto(rest))
                && slice_qp_syntax(v, *pps).fits()
                ==> final(r)@ == Some(
                rest,
            ) && f.same(v, *pps),
        f.settled(*pps),
{
    proof {
        reveal(slice_qp_syntax);
        reveal(SliceQp::settled);
        reveal(SliceQp::of);
        reveal(SliceQp::same);
    }
    let qp_delta: i8 = r.se(-0x80, 0x7f) as i8;
    let mut cb_qp_offset: i8 = 0;
    let mut cr_qp_offset: i8 = 0;
    if pps.slice_chroma_qp_offsets_present_flag {
        cb_qp_offset = r.se(-0x80, 0x7f) as i8;
        cr_qp_offset = r.se(-0x80, 0x7f) as i8;
    }
    let mut slice_act_y_qp_offset: i8 = 0;
    let mut slice_act_cb_qp_offset: i8 = 0;
    let mut slice_act_cr_qp_offset: i8 = 0;
    if pps.scc_extension.slice_act_qp_offsets_present_flag {
        slice_act_y_qp_offset = r.se(-0x80, 0x7f) as i8;
        slice_act_cb_qp_offset = r.se(-0x80, 0x7f) as i8;
        slice_act_cr_qp_offset = r.se(-0x80, 0x7f) as i8;
    }
    let mut cu_chroma_qp_offset_enabled_flag: bool = false;
    if pps.range_extension.chroma_qp_offset_list_enabled_flag {
        cu_chroma_qp_offset_enabled_flag = r.flag();
    }
    SliceQp {
        qp_delta,
        cb_qp_offset,
        cr_qp_offset,
        slice_act_y_qp_offset,
        slice_act_cb_qp_offset,
        slice_act_cr_qp_offset,
        cu_chroma_qp_offset_enabled_flag,
    }
}

/// The loop filters.
pub struct SliceFilters {
    pub deblocking_filter_override_flag: bool,
    pub deblocking_filter_disabled_flag: bool,
    pub beta_offset_div2: i8,
    pub tc_offset_div2: i8,
    pub loop_filter_across_slices_enabled_flag: bool,
}

impl SliceFilters {
    /// The fields of `s`.
    #[verifier::opaque]
    pub open spec fn of(s: SliceHeader) -> Self {
        SliceFilters {
            deblocking_filter_override_flag: s.deblocking_filter_override_flag,
            deblocking_filter_disabled_flag: s.deblocking_filter_disabled_flag,
            beta_offset_div2: s.beta_offset_div2,
            tc_offset_div2: s.tc_offset_div2,
            loop_filter_across_slices_enabled_flag: s.loop_filter_across_slices_enabled_flag,
        }
    }

    /// Whether `s` holds these fields.
    pub open spec fn fills(self, s: SliceHeader) -> bool {
        Self::of(s) == self
    }

    /// Whether what is not coded has its inferred or initial value.
    #[verifier::opaque]
    pub open spec fn settled(self, sao_luma: bool, sao_chroma: bool, pps: Pps) -> bool {
        &&& !pps.deblocking_filter_override_enabled_flag ==> !self.deblocking_filter_override_flag
        &&& !self.deblocking_filter_override_flag
            ==> self.deblocking_filter_disabled_flag == pps.deblocking_filter_disabled_flag
        &&& !(self.deblocking_filter_override_flag && !self.deblocking_filter_disabled_flag) ==> {
            &&& self.beta_offset_div2 == pps.beta_offset_div2
            &&& self.tc_offset_div2 == pps.tc_offset_div2
        }
        &&& !(pps.loop_filter_across_slices_enabled_flag && (sao_luma || sao_chroma
            || !self.deblocking_filter_disabled_flag))
            ==> self.loop_filter_across_slices_enabled_flag == pps.loop_filter_across_slices_enabled_flag
    }

    /// Whether the fields that are coded of `v` are these.
    #[verifier::opaque]
    pub open spec fn same(
        self,
        v: SliceHeader,
        sao_luma: bool,
        sao_chroma: bool,
        pps: Pps,
    ) -> bool {
        &&& pps.deblocking_filter_override_enabled_flag
            ==> self.deblocking_filter_override_flag == v.deblocking_filter_override_flag
        &&& v.deblocking_filter_override_flag
            ==> self.deblocking_filter_disabled_flag == v.deblocking_filter_disabled_flag
        &&& v.deblocking_filter_override_flag && !v.deblocking_filter_disabled_flag
            ==> self.beta_offset_div2 == v.beta_offset_div2
        &&& v.deblocking_filter_override_flag && !v.deblocking_filter_disabled_flag
            ==> self.tc_offset_div2 == v.tc_offset_div2
        &&& (pps.loop_filter_across_slices_enabled_flag
            && (sao_luma || sao_chroma || !v.deblocking_filter_disabled_flag))
            ==> self.loop_filter_across_slices_enabled_flag == v.loop_filter_across_slices_enabled_flag
    }
}

impl SliceFilters {
    /// The values where nothing is coded.
    fn absent(pps: &Pps) -> (f: Self)
        ensures
            f.fills(uncoded_header(*pps)),
    {
        proof {
            reveal(SliceFilters::of);
        }
        SliceFilters {
            deblocking_filter_override_flag: false,
            deblocking_filter_disabled_flag: pps.deblocking_filter_disabled_flag,
            beta_offset_div2: pps.beta_offset_div2,
            tc_offset_div2: pps.tc_offset_div2,
            loop_filter_across_slices_enabled_flag: pps.loop_filter_across_slices_enabled_flag,
        }
    }
}

/// The loop filters.
#[verifier::rlimit(40)]
pub(crate) fn parse_slice_filters(
    r: &mut BitReader,
    sao_luma: bool,
    sao_chroma: bool,
    pps: &Pps,
) -> (f: SliceFilters)
    requires
        old(r).inv(),
    ensures
        final(r).inv(),
        final(r)@ is Some ==> old(r)@ is Some,
        forall|s: SliceHeader| s.sao_luma_flag == sao_luma && s.sao_chroma_flag == sao_chroma
            && f.fills(s)
            ==> decodes(old(r)@, #[trigger] slice_filters_syntax(s, *pps), final(r)@),
        forall|v: SliceHeader, rest: Seq<bool>|
            v.sao_luma_flag == sao_luma && v.sao_chroma_flag == sao_chroma
                && old(r)@ == Some(#[trigger] slice_filters_syntax(v, *pps).onto(rest))
                && slice_filters_syntax(v, *pps).fits() && v.inferred_filters(*pps)
                ==> final(r)@ == Some(
                rest,
            ) && f.same(v, sao_luma, sao_chroma, *pps),
        forall|s: SliceHeader| f.fills(s) ==> #[trigger] s.inferred_filters(*pps),
        f.settled(sao_luma, sao_chroma, *pps),
{
    proof {
        reveal(slice_filters_syntax);
        reveal(SliceFilters::settled);
        reveal(SliceFilters::of);
        reveal(SliceFilters::same);
    }
    let mut deblocking_filter_override_flag: bool = false;
    if pps.deblocking_filter_override_enabled_flag {
        deblocking_filter_override_flag = r.flag();
    }
    let mut deblocking_filter_disabled_flag: bool = pps.deblocking_filter_disabled_flag;
    let mut beta_offset_div2: i8 = pps.beta_offset_div2;
    let mut tc_offset_div2: i8 = pps.tc_offset_div2;
    if deblocking_filter_override_flag {
        deblocking_filter_disabled_flag = r.flag();
        if !deblocking_filter_disabled_flag {
            beta_offset_div2 = r.se(-0x80, 0x7f) as i8;
            tc_offset_div2 = r.se(-0x80, 0x7f) as i8;
        }
    }
    let mut loop_filter_across_slices_enabled_flag: bool = pps.loop_filter_across_slices_enabled_flag;
    if pps.loop_filter_across_slices_enabled_flag
        && (sao_luma || sao_chroma || !deblocking_filter_disabled_flag) {
        loop_filter_across_slices_enabled_flag = r.flag();
    }
    SliceFilters {
        deblocking_filter_override_flag,
        deblocking_filter_disabled_flag,
        beta_offset_div2,
        tc_offset_div2,
        loop_filter_across_slices_enabled_flag,
    }
}

/// The entry points and an empty extension.
pub struct SliceEnd {
    pub num_entry_point_offsets: u32,
    pub offset_len_minus1: u8,
    pub entry_point_offset_minus1: [u32; 32],
}

impl SliceEnd {
    /// The fields of `s`.
    #[verifier::opaque]
    pub open spec fn of(s: SliceHeader) -> Self {
        SliceEnd {
            num_entry_point_offsets: s.num_entry_point_offsets,
            offset_len_minus1: s.offset_len_minus1,
            entry_point_offset_minus1: s.entry_point_offset_minus1,
        }
    }

    /// Whether `s` holds these fields.
    pub open spec fn fills(self, s: SliceHeader) -> bool {
        Self::of(s) == self
    }

    /// Whether what is not coded has its inferred or initial value.
    #[verifier::opaque]
    pub open spec fn settled(self, pps: Pps) -> bool {
        &&& !(pps.tiles_enabled_flag || pps.entropy_coding_sync_enabled_flag)
            ==> self.num_entry_point_offsets == 0
        &&& !((pps.tiles_enabled_flag || pps.entropy_coding_sync_enabled_flag)
            && self.num_entry_point_offsets > 0)
            ==> self.offset_len_minus1 == 0
        &&& tail_is(self.entry_point_offset_minus1@, self.num_entry_point_offsets as int, 0u32)
    }

    /// Whether the fields that are coded of `v` are these.
    #[verifier::opaque]
    pub open spec fn same(self, v: SliceHeader, pps: Pps) -> bool {
        &&& (pps.tiles_enabled_flag || pps.entropy_coding_sync_enabled_flag)
            ==> self.num_entry_point_offsets == v.num_entry_point_offsets
        &&& (pps.tiles_enabled_flag || pps.entropy_coding_sync_enabled_flag)
            && v.num_entry_point_offsets > 0
            ==> self.offset_len_minus1 == v.offset_len_minus1
        &&& (pps.tiles_enabled_flag || pps.entropy_coding_sync_enabled_flag)
            && v.num_entry_point_offsets > 0
            ==> agree(
                self.entry_point_offset_minus1@,
                v.entry_point_offset_minus1@,
                v.num_entry_point_offsets as int,
            )
    }
}

/// The entry points and an empty extension.
pub(crate) fn parse_slice_end(r: &mut BitReader, pps: &Pps) -> (f: SliceEnd)
    requires
        old(r).inv(),
    ensures
        final(r).inv(),
        final(r)@ is Some ==> old(r)@ is Some,
        forall|s: SliceHeader| f.fills(s)
            ==> decodes(old(r)@, #[trigger] slice_end_syntax(s, *pps), final(r)@),
        forall|v: SliceHeader, rest: Seq<bool>|
            old(r)@ == Some(#[trigger] slice_end_syntax(v, *pps).onto(rest))
                && slice_end_syntax(v, *pps).fits()
                ==> final(r)@ == Some(
                rest,
            ) && f.same(v, *pps),
        f.num_entry_point_offsets <= 32,
        f.offset_len_minus1 < u8::MAX,
        f.settled(*pps),
{
    proof {
        reveal(slice_end_syntax);
        reveal(slice_entry_points_syntax);
        reveal(slice_offsets_syntax);
        reveal(SliceEnd::settled);
        reveal(SliceEnd::of);
        reveal(SliceEnd::same);
    }
    let mut num_entry_point_offsets: u32 = 0;
    let mut offset_len_minus1: u8 = 0;
    let mut entry_point_offset_minus1: [u32; 32] = [0; 32];
    if pps.tiles_enabled_flag || pps.entropy_coding_sync_enabled_flag {
        num_entry_point_offsets = r.ue(32);
        if num_entry_point_offsets > 0 {
            offset_len_minus1 = r.ue(0xfe) as u8;
            entry_point_offset_minus1 = parse_us::<32>(
                r,
                offset_len_minus1 as usize + 1,
                num_entry_point_offsets as usize,
            );
        }
    }
    if pps.slice_segment_header_extension_present_flag {
        let _: u32 = r.ue(0);
    }
    SliceEnd {
        num_entry_point_offsets,
        offset_len_minus1,
        entry_point_offset_minus1,
    }
}

/// The reference pictures.
pub struct SliceReferences {
    pub st: SliceShortTerm,
    pub lt: SliceLongTerm,
    pub temporal_mvp_enabled_flag: bool,
}

impl SliceReferences {
    /// Whether `s` holds these fields.
    pub open spec fn fills(self, s: SliceHeader) -> bool {
        &&& self.st.fills(s)
        &&& self.lt.fills(s)
        &&& s.temporal_mvp_enabled_flag == self.temporal_mvp_enabled_flag
    }

    /// Whether the fields that are coded or inferred of `v` are these.
    pub open spec fn same(self, v: SliceHeader, nalu_type: NaluType, sps: Sps) -> bool {
        &&& !nalu_type.idr() ==> self.st.same(v, sps) && self.lt.same(v, sps)
        &&& self.temporal_mvp_enabled_flag == v.temporal_mvp_enabled_flag
    }

    /// Whether what is not coded has its inferred or initial value.
    pub open spec fn settled(self, nalu_type: NaluType, sps: Sps) -> bool {
        if nalu_type.idr() {
            self.fills(SliceHeader::initial())
        } else {
            self.st.settled(sps) && self.lt.settled(sps)
        }
    }

    /// Whether there are no reference pictures.
    pub open spec fn is_none(self) -> bool {
        &&& !self.st.short_term_ref_pic_set_sps_flag
        &&& self.st.short_term_ref_pic_set == ShortTermRefPicSet::initial()
        &&& self.lt.num_long_term_sps == 0
        &&& self.lt.num_long_term_pics == 0
    }

    /// Whether the pictures can be counted.
    pub open spec fn countable(self, sps: Sps) -> bool {
        &&& self.st.short_term_ref_pic_set_sps_flag
            ==> self.st.curr_rps_idx < sps.num_short_term_ref_pic_sets
        &&& !self.st.short_term_ref_pic_set_sps_flag
            ==> self.st.short_term_ref_pic_set.num_negative_pics <= 16
            && self.st.short_term_ref_pic_set.num_positive_pics <= 16
        &&& self.lt.num_long_term_sps + self.lt.num_long_term_pics <= 16
    }

    /// The short-term reference picture set in use.
    pub open spec fn rps(self, sps: Sps) -> ShortTermRefPicSet {
        if self.st.short_term_ref_pic_set_sps_flag {
            sps.short_term_ref_pic_set[self.st.curr_rps_idx as int]
        } else {
            self.st.short_term_ref_pic_set
        }
    }

    /// `NumPicTotalCurr` (7-55).
    pub open spec fn total(self, sps: Sps, pps: Pps) -> int {
        let rps = self.rps(sps);
        count_true(rps.used_by_curr_pic_s0@, rps.num_negative_pics as int)
            + count_true(rps.used_by_curr_pic_s1@, rps.num_positive_pics as int)
            + count_true(
            self.lt.rows.used_by_curr_pic_lt@,
            self.lt.num_long_term_sps + self.lt.num_long_term_pics,
        ) + if pps.scc_extension.curr_pic_ref_enabled_flag { 1int } else { 0int }
    }

    /// No reference pictures.
    fn absent() -> (f: Self)
        ensures
            f.is_none(),
            !f.temporal_mvp_enabled_flag,
            f.fills(SliceHeader::initial()),
    {
        SliceReferences {
            st: SliceShortTerm::absent(),
            lt: SliceLongTerm::absent(),
            temporal_mvp_enabled_flag: false,
        }
    }
}

/// The picture order count and the reference pictures, which an IDR picture lacks.
fn parse_slice_references(r: &mut BitReader, nalu_type: NaluType, sps: &Sps) -> (f: SliceReferences)
    requires
        old(r).inv(),
        sps.usable(),
    ensures
        final(r).inv(),
        final(r)@ is Some ==> old(r)@ is Some && f.countable(*sps),
        nalu_type.idr() ==> f.is_none(),
        forall|s: SliceHeader|
            f.fills(s) && final(r)@ is Some
                ==> #[trigger] s.inferred_references(nalu_type, *sps) && (
            s.short_term_ref_pic_set_sps_flag
                || !s.short_term_ref_pic_set.inter_ref_pic_set_prediction_flag),
        forall|s: SliceHeader|
            f.fills(s)
                ==> decodes(
                    old(r)@,
                    #[trigger] slice_references_syntax(s, nalu_type, *sps),
                    final(r)@,
                ),
        forall|v: SliceHeader, rest: Seq<bool>|
            old(r)@ == Some(#[trigger] slice_references_syntax(v, nalu_type, *sps).onto(rest))
                && slice_references_syntax(v, nalu_type, *sps).fits()
                    && v.inferred_references(nalu_type, *sps)
                ==> final(r)@ == Some(rest) && f.same(v, nalu_type, *sps),
        final(r)@ is Some ==> f.settled(nalu_type, *sps),
{
    proof {
        reveal(slice_references_syntax);
        reveal(slice_lt_mvp_syntax);
        reveal(SliceShortTerm::of);
        reveal(SliceLongTerm::of);
    }
    if nalu_type.is_idr() {
        return SliceReferences::absent();
    }
    let st = parse_slice_st(r, sps);
    let lt = parse_slice_lt(r, sps);
    let mut temporal_mvp_enabled_flag: bool = false;
    if sps.temporal_mvp_enabled_flag {
        temporal_mvp_enabled_flag = r.flag();
    }
    SliceReferences { st, lt, temporal_mvp_enabled_flag }
}

/// The number of flags set depends on the counted flags alone.
proof fn lemma_count_agree(a: Seq<bool>, b: Seq<bool>, n: int)
    requires
        agree(a, b, n),
    ensures
        count_true(a, n) == count_true(b, n),
    decreases n,
{
    if n > 0 {
        lemma_count_agree(a, b, n - 1);
        assert(a[n - 1] == b[n - 1]);
    }
}

/// A header with these reference pictures has their number.
proof fn lemma_total_fills(f: SliceReferences, s: SliceHeader, sps: Sps, pps: Pps)
    requires
        f.fills(s),
    ensures
        s.pic_total_curr(sps, pps) == f.total(sps, pps),
{
    reveal(SliceShortTerm::of);
    reveal(SliceLongTerm::of);
}

/// The reference pictures of a header with these are there.
proof fn lemma_references_fill(f: SliceReferences, s: SliceHeader, sps: Sps)
    requires
        f.fills(s),
        f.countable(sps),
        sps.usable(),
    ensures
        s.has_references(sps),
{
    reveal(SliceShortTerm::of);
    reveal(SliceLongTerm::of);
    if s.short_term_ref_pic_set_sps_flag {
        assert(sps.short_term_ref_pic_set[s.curr_rps_idx as int].valid());
    }
}

/// A header of which these reference pictures were coded has their number.
proof fn lemma_total_same(
    f: SliceReferences,
    v: SliceHeader,
    nalu_type: NaluType,
    sps: Sps,
    pps: Pps,
)
    requires
        f.same(v, nalu_type, sps),
        v.inferred_references(nalu_type, sps),
        nalu_type.idr() ==> f.is_none(),
    ensures
        v.pic_total_curr(sps, pps) == f.total(sps, pps),
{
    reveal(SliceShortTerm::same);
    if !nalu_type.idr() {
        let a = f.rps(sps);
        let b = v.rps(sps);
        lemma_count_agree(
            a.used_by_curr_pic_s0@,
            b.used_by_curr_pic_s0@,
            b.num_negative_pics as int,
        );
        lemma_count_agree(
            a.used_by_curr_pic_s1@,
            b.used_by_curr_pic_s1@,
            b.num_positive_pics as int,
        );
        let n = v.num_long_term();
        assert forall|k: int| 0 <= k < n
            implies f.lt.rows.used_by_curr_pic_lt@[k] == v.used_by_curr_pic_lt@[k] by {
            assert(f.lt.rows.row(k).same(v, sps, k));
        }
        lemma_count_agree(f.lt.rows.used_by_curr_pic_lt@, v.used_by_curr_pic_lt@, n);
    }
}

/// `NumPicTotalCurr` (7-55).
fn total_of(f: &SliceReferences, sps: &Sps, pps: &Pps) -> (c: u32)
    requires
        sps.usable(),
        f.countable(*sps),
    ensures
        c == f.total(*sps, *pps),
{
    let rps = if f.st.short_term_ref_pic_set_sps_flag {
        &sps.short_term_ref_pic_set[f.st.curr_rps_idx as usize]
    } else {
        &f.st.short_term_ref_pic_set
    };
    assert(rps.num_negative_pics <= 16 && rps.num_positive_pics <= 16);
    let mut c: u32 = count_flags(&rps.used_by_curr_pic_s0, rps.num_negative_pics as usize)
        + count_flags(&rps.used_by_curr_pic_s1, rps.num_positive_pics as usize)
        + count_flags(
        &f.lt.rows.used_by_curr_pic_lt,
        (f.lt.num_long_term_sps + f.lt.num_long_term_pics) as usize,
    );
    if pps.scc_extension.curr_pic_ref_enabled_flag {
        c = c + 1;
    }
    c
}

/// What only P and B slices have.
pub struct SliceInter {
    pub lists: SliceLists,
    pub prediction: SlicePrediction,
}

impl SliceInter {
    /// Whether `s` holds these fields.
    pub open spec fn fills(self, s: SliceHeader) -> bool {
        &&& self.lists.fills(s)
        &&& self.prediction.fills(s)
    }

    /// Whether the fields that are coded of `v` are these.
    pub open spec fn same(
        self,
        v: SliceHeader,
        total: u32,
        l0_minus1: u8,
        l1_minus1: u8,
        sps: Sps,
        pps: Pps,
    ) -> bool {
        &&& self.lists.same(v, v.type_, total, pps)
        &&& self.prediction.same(
            v,
            v.type_,
            v.temporal_mvp_enabled_flag,
            l0_minus1,
            l1_minus1,
            sps,
            pps,
        )
    }
}

impl SliceInter {
    /// Whether what is not coded has its inferred or initial value.
    pub open spec fn settled(
        self,
        slice_type: SliceType,
        total: u32,
        mvp: bool,
        sps: Sps,
        pps: Pps,
    ) -> bool {
        if slice_type == SliceType::I {
            self.fills(uncoded_header(pps))
        } else {
            &&& self.lists.settled(slice_type, total, pps)
            &&& self.prediction.settled(
                slice_type,
                mvp,
                self.lists.num_ref_idx_l0_active_minus1,
                self.lists.num_ref_idx_l1_active_minus1,
                sps,
                pps,
            )
        }
    }
}

/// Whether the lists of an inter slice lie within the arrays, as far as the lists
/// themselves go.
pub open spec fn inter_bounded(h: SliceHeader, total: int, pps: Pps) -> bool {
    &&& pps.lists_modification_present_flag && total > 1 ==> rplm_bounded(
        h.ref_pic_list_modification,
        h.type_,
        h.l0_minus1(pps),
        h.l1_list(pps),
    )
    &&& h.is_weighted(pps) ==> h.l0_minus1(pps) < 15 && h.l1_list(pps) < 15
}

/// What only P and B slices have.
#[verifier::rlimit(60)]
fn parse_slice_inter(
    r: &mut BitReader,
    slice_type: SliceType,
    total: u32,
    mvp: bool,
    sps: &Sps,
    pps: &Pps,
) -> (f: SliceInter)
    requires
        old(r).inv(),
    ensures
        final(r).inv(),
        final(r)@ is Some ==> old(r)@ is Some,
        forall|s: SliceHeader|
            s.type_ == slice_type && s.temporal_mvp_enabled_flag == mvp && #[trigger] f.fills(s)
                && s.is_inter()
                && final(r)@ is Some
                    ==> s.inferred_prediction(*sps, *pps) && inter_bounded(s, total as int, *pps),
        forall|s: SliceHeader|
            s.type_ == slice_type && s.pic_total_curr(*sps, *pps) == total
                && s.temporal_mvp_enabled_flag == mvp && s.has_references(*sps)
                && f.fills(s)
                    ==> decodes(old(r)@, #[trigger] slice_inter_syntax(s, *sps, *pps), final(r)@),
        forall|v: SliceHeader, rest: Seq<bool>|
            v.type_ == slice_type && v.pic_total_curr(*sps, *pps) == total
                && v.temporal_mvp_enabled_flag == mvp
                && old(r)@ == Some(#[trigger] slice_inter_syntax(v, *sps, *pps).onto(rest))
                    && slice_inter_syntax(
                v,
                *sps,
                *pps,
            ).fits()
                && (v.is_inter()
                    ==> v.inferred_prediction(*sps, *pps) && inter_bounded(v, total as int, *pps))
                ==> final(r)@ == Some(rest) && (v.is_inter() ==> f.same(
                v,
                total,
                f.lists.num_ref_idx_l0_active_minus1,
                f.lists.num_ref_idx_l1_active_minus1,
                *sps,
                *pps,
            )),
        final(r)@ is Some ==> f.settled(slice_type, total, mvp, *sps, *pps),
{
    proof {
        reveal(SlicePrediction::of);
        reveal(slice_inter_syntax);
        reveal(SliceLists::of);
        reveal(SliceLists::same);
    }
    if !(slice_type.is_p() || slice_type.is_b()) {
        return SliceInter { lists: SliceLists::absent(pps), prediction: SlicePrediction::absent() };
    }
    let lists = parse_slice_lists(r, slice_type, total, sps, pps);
    let l0: u8 = lists.num_ref_idx_l0_active_minus1;
    let l1: u8 = lists.num_ref_idx_l1_active_minus1;
    let ghost b1 = r@;
    let prediction = parse_slice_prediction(r, slice_type, mvp, l0, l1, sps, pps);
    let f = SliceInter { lists, prediction };
    proof {
        assert forall|s: SliceHeader|
            s.type_ == slice_type && s.temporal_mvp_enabled_flag == mvp && #[trigger] f.fills(s)
                && s.is_inter() && r@ is Some
                implies s.inferred_prediction(
            *sps,
            *pps,
        ) && inter_bounded(s, total as int, *pps) by {
            assert(b1 is Some);
            assert(lists.fills(s) && prediction.fills(s));
            assert(s.l0_minus1(*pps) == l0);
            assert(s.l1_minus1(*pps) == l1);
            assert(s.ref_pic_list_modification == lists.ref_pic_list_modification);
            assert(s.inferred_prediction(*sps, *pps));
            assert(s.is_weighted(*pps) ==> s.l0_minus1(*pps) < 15 && s.l1_list(*pps) < 15);
            assert(pps.lists_modification_present_flag && total > 1 ==> rplm_bounded(
                s.ref_pic_list_modification,
                s.type_,
                s.l0_minus1(*pps),
                s.l1_list(*pps),
            ));
        }
    }
    f
}

/// What follows the reference pictures.
pub struct SliceBody {
    pub sao: SliceSao,
    pub inter: SliceInter,
    pub qp: SliceQp,
    pub filters: SliceFilters,
}

impl SliceBody {
    /// Whether `s` holds these fields.
    pub open spec fn fills(self, s: SliceHeader) -> bool {
        &&& self.sao.fills(s)
        &&& self.inter.fills(s)
        &&& self.qp.fills(s)
        &&& self.filters.fills(s)
    }

    /// Whether the fields that are coded of `v` are these.
    pub open spec fn same(self, v: SliceHeader, total: u32, sps: Sps, pps: Pps) -> bool {
        &&& self.sao.same(v, sps)
        &&& v.is_inter() ==> self.inter.same(
            v,
            total,
            self.inter.lists.num_ref_idx_l0_active_minus1,
            self.inter.lists.num_ref_idx_l1_active_minus1,
            sps,
            pps,
        )
        &&& self.qp.same(v, pps)
        &&& self.filters.same(v, v.sao_luma_flag, v.sao_chroma_flag, pps)
    }

    /// Whether what is not coded has its inferred or initial value.
    pub open spec fn settled(
        self,
        slice_type: SliceType,
        total: u32,
        mvp: bool,
        sps: Sps,
        pps: Pps,
    ) -> bool {
        &&& self.sao.settled(sps)
        &&& self.inter.settled(slice_type, total, mvp, sps, pps)
        &&& self.qp.settled(pps)
        &&& self.filters.settled(self.sao.sao_luma_flag, self.sao.sao_chroma_flag, pps)
    }

    /// The values where nothing is coded.
    fn absent(pps: &Pps) -> (f: Self)
        ensures
            f.fills(uncoded_header(*pps)),
    {
        proof {
            reveal(SliceSao::of);
            reveal(SlicePrediction::of);
            reveal(SliceQp::of);
        }
        SliceBody {
            sao: SliceSao::absent(),
            inter: SliceInter { lists: SliceLists::absent(pps), prediction: SlicePrediction::absent() },
            qp: SliceQp::absent(),
            filters: SliceFilters::absent(pps),
        }
    }
}

/// Whether what follows the reference pictures has its inferred values where it is not
/// coded, and lies within the arrays.
pub open spec fn body_inferred(h: SliceHeader, total: int, sps: Sps, pps: Pps) -> bool {
    &&& h.inferred_sao(sps)
    &&& h.is_inter() ==> h.inferred_prediction(sps, pps) && inter_bounded(h, total, pps)
    &&& h.inferred_filters(pps)
}

/// What follows the reference pictures.
#[verifier::rlimit(60)]
fn parse_slice_body(
    r: &mut BitReader,
    slice_type: SliceType,
    total: u32,
    mvp: bool,
    sps: &Sps,
    pps: &Pps,
) -> (f: SliceBody)
    requires
        old(r).inv(),
    ensures
        final(r).inv(),
        final(r)@ is Some ==> old(r)@ is Some,
        forall|s: SliceHeader|
            s.type_ == slice_type && s.temporal_mvp_enabled_flag == mvp && f.fills(s)
                && final(r)@ is Some
                ==> #[trigger] body_inferred(s, total as int, *sps, *pps),
        forall|s: SliceHeader|
            s.type_ == slice_type && s.pic_total_curr(*sps, *pps) == total
                && s.temporal_mvp_enabled_flag == mvp && s.has_references(*sps)
                && f.fills(s)
                    ==> decodes(old(r)@, #[trigger] slice_body_syntax(s, *sps, *pps), final(r)@),
        forall|v: SliceHeader, rest: Seq<bool>|
            v.type_ == slice_type && v.pic_total_curr(*sps, *pps) == total
                && v.temporal_mvp_enabled_flag == mvp
                && old(r)@ == Some(#[trigger] slice_body_syntax(v, *sps, *pps).onto(rest))
                    && slice_body_syntax(
                v,
                *sps,
                *pps,
            ).fits() && body_inferred(v, total as int, *sps, *pps)
                ==> final(r)@ == Some(rest) && f.same(
                v,
                total,
                *sps,
                *pps,
            ),
        final(r)@ is Some ==> f.settled(slice_type, total, mvp, *sps, *pps),
{
    proof {
        reveal(slice_body_syntax);
        reveal(SliceSao::of);
        reveal(SliceSao::same);
    }
    let sao = parse_slice_sao(r, sps);
    let inter = parse_slice_inter(r, slice_type, total, mvp, sps, pps);
    let qp = parse_slice_qp(r, pps);
    let filters = parse_slice_filters(r, sao.sao_luma_flag, sao.sao_chroma_flag, pps);
    let f = SliceBody { sao, inter, qp, filters };
    proof {
        assert forall|s: SliceHeader|
            s.type_ == slice_type && s.temporal_mvp_enabled_flag == mvp && f.fills(s) && r@ is Some
                implies #[trigger] body_inferred(
            s,
            total as int,
            *sps,
            *pps,
        ) by {
            assert(sao.fills(s) && inter.fills(s) && filters.fills(s));
            assert(s.inferred_sao(*sps));
            assert(s.inferred_filters(*pps));
            if s.is_inter() {
                assert(s.inferred_prediction(*sps, *pps));
            }
        }
    }
    f
}

/// What a dependent slice segment takes over from the one before.
pub struct SliceIndependent {
    pub kind: SliceTypeFields,
    pub references: SliceReferences,
    pub total: u32,
    pub body: SliceBody,
}

impl SliceIndependent {
    /// The fields of `s`.
    pub open spec fn of(s: SliceHeader) -> Self {
        SliceIndependent {
            kind: SliceTypeFields::of(s),
            references: SliceReferences {
                st: SliceShortTerm::of(s),
                lt: SliceLongTerm::of(s),
                temporal_mvp_enabled_flag: s.temporal_mvp_enabled_flag,
            },
            total: s.num_pic_total_curr,
            body: SliceBody {
                sao: SliceSao::of(s),
                inter: SliceInter { lists: SliceLists::of(s), prediction: SlicePrediction::of(s) },
                qp: SliceQp::of(s),
                filters: SliceFilters::of(s),
            },
        }
    }

    /// Whether `s` holds these fields.
    pub open spec fn fills(self, s: SliceHeader) -> bool {
        &&& self.kind.fills(s)
        &&& self.references.fills(s)
        &&& self.body.fills(s)
    }

    /// Whether what is not coded has its inferred or initial value.
    pub open spec fn settled(self, nalu_type: NaluType, sps: Sps, pps: Pps) -> bool {
        &&& self.kind.settled(sps, pps)
        &&& self.references.settled(nalu_type, sps)
        &&& self.body.settled(
            self.kind.type_,
            self.total,
            self.references.temporal_mvp_enabled_flag,
            sps,
            pps,
        )
    }

    /// Whether the fields that are coded of `v` are these.
    pub open spec fn same(self, v: SliceHeader, nalu_type: NaluType, sps: Sps, pps: Pps) -> bool {
        &&& self.kind.same(v, sps, pps)
        &&& self.references.same(v, nalu_type, sps)
        &&& self.body.same(v, self.total, sps, pps)
        &&& self.total == v.pic_total_curr(sps, pps)
    }

    /// The values where nothing is coded.
    fn absent(pps: &Pps) -> (f: Self)
        ensures
            f.fills(uncoded_header(*pps)),
            f.total == 0,
    {
        proof {
            reveal(SliceTypeFields::of);
            reveal(SliceShortTerm::of);
            reveal(SliceLongTerm::of);
        }
        SliceIndependent {
            kind: SliceTypeFields::absent(),
            references: SliceReferences::absent(),
            total: 0,
            body: SliceBody::absent(pps),
        }
    }
}

/// Whether what an independent slice segment has is consistent, and lies within the
/// arrays.
pub open spec fn independent_inferred(
    h: SliceHeader,
    nalu_type: NaluType,
    sps: Sps,
    pps: Pps,
) -> bool {
    &&& h.inferred_references(nalu_type, sps)
    &&& body_inferred(h, h.pic_total_curr(sps, pps), sps, pps)
}

/// What a dependent slice segment takes over from the one before.
#[verifier::rlimit(60)]
fn parse_slice_independent(
    r: &mut BitReader,
    dependent: bool,
    nalu_type: NaluType,
    sps: &Sps,
    pps: &Pps,
) -> (f: SliceIndependent)
    requires
        old(r).inv(),
        sps.usable(),
    ensures
        final(r).inv(),
        final(r)@ is Some ==> old(r)@ is Some,
        forall|s: SliceHeader|
            !dependent && #[trigger] f.fills(s) && final(r)@ is Some
                ==> f.total == s.pic_total_curr(*sps, *pps)
                && independent_inferred(s, nalu_type, *sps, *pps)
                    && (s.short_term_ref_pic_set_sps_flag
                || !s.short_term_ref_pic_set.inter_ref_pic_set_prediction_flag),
        forall|s: SliceHeader|
            s.dependent_slice_segment_flag == dependent && f.fills(s) ==> decodes(
                old(r)@,
                #[trigger] slice_independent_syntax(s, nalu_type, *sps, *pps),
                final(r)@,
            ),
        forall|v: SliceHeader, rest: Seq<bool>|
            v.dependent_slice_segment_flag == dependent && old(r)@ == Some(
                #[trigger] slice_independent_syntax(v, nalu_type, *sps, *pps).onto(rest),
            ) && slice_independent_syntax(v, nalu_type, *sps, *pps).fits()
                && (!dependent ==> independent_inferred(
                v,
                nalu_type,
                *sps,
                *pps,
            )) ==> final(r)@ == Some(rest) && (!dependent ==> f.same(v, nalu_type, *sps, *pps)),
        final(r)@ is Some && !dependent ==> f.settled(nalu_type, *sps, *pps),
        dependent ==> f.fills(uncoded_header(*pps)) && f.total == 0,
{
    proof {
        reveal(slice_independent_syntax);
    }
    if dependent {
        return SliceIndependent::absent(pps);
    }
    let ghost start = r@;
    let kind = parse_slice_type_fields(r, sps, pps);
    let references = parse_slice_references(r, nalu_type, sps);
    if r.failed() {
        return SliceIndependent::absent(pps);
    }
    let ghost b2 = r@;
    let total: u32 = total_of(&references, sps, pps);
    let body = parse_slice_body(
        r,
        kind.type_,
        total,
        references.temporal_mvp_enabled_flag,
        sps,
        pps,
    );
    let f = SliceIndependent { kind, references, total, body };
    proof {
        reveal(SliceTypeFields::of);
        reveal(SliceTypeFields::same);
        assert forall|s: SliceHeader| #[trigger] f.fills(s)
            implies s.pic_total_curr(*sps, *pps) == total && s.type_ == kind.type_
            && s.temporal_mvp_enabled_flag == references.temporal_mvp_enabled_flag
            && s.has_references(*sps) by {
            lemma_total_fills(references, s, *sps, *pps);
            lemma_references_fill(references, s, *sps);
        }
        assert forall|s: SliceHeader| f.fills(s) implies decodes(
            start,
            #[trigger] slice_independent_syntax(s, nalu_type, *sps, *pps),
            r@,
        ) || s.dependent_slice_segment_flag by {
            assert(f.fills(s));
        }
        assert forall|s: SliceHeader| #[trigger] f.fills(s) && r@ is Some
            implies independent_inferred(
            s,
            nalu_type,
            *sps,
            *pps,
        ) && (s.short_term_ref_pic_set_sps_flag
            || !s.short_term_ref_pic_set.inter_ref_pic_set_prediction_flag) by {
            assert(f.fills(s));
            assert(s.inferred_references(nalu_type, *sps));
            assert(body_inferred(s, total as int, *sps, *pps));
        }
        assert forall|v: SliceHeader, rest: Seq<bool>|
            !v.dependent_slice_segment_flag && start == Some(
                #[trigger] slice_independent_syntax(v, nalu_type, *sps, *pps).onto(rest),
            ) && slice_independent_syntax(v, nalu_type, *sps, *pps).fits() && independent_inferred(
                v,
                nalu_type,
                *sps,
                *pps,
            ) implies r@ == Some(rest) && f.same(v, nalu_type, *sps, *pps) by {
            assert(b2 == Some(slice_body_syntax(v, *sps, *pps).onto(rest)));
            lemma_total_same(references, v, nalu_type, *sps, *pps);
        }
    }
    f
}

/// Whether the fields that are coded or inferred of `v` are those of `p`.
#[verifier::opaque]
pub open spec fn slice_same(
    p: SliceHeader,
    v: SliceHeader,
    nalu_type: NaluType,
    sps: Sps,
    pps: Pps,
) -> bool {
    &&& SliceAddress::of(p).same(v, nalu_type, pps)
    &&& p.dependent_slice_segment_flag == v.dependent_slice_segment_flag
    &&& !v.dependent_slice_segment_flag ==> SliceIndependent::of(p).same(v, nalu_type, sps, pps)
    &&& SliceEnd::of(p).same(v, pps)
}

/// Whether what is not coded has its inferred or initial value.
#[verifier::opaque]
pub open spec fn slice_settled(p: SliceHeader, nalu_type: NaluType, sps: Sps, pps: Pps) -> bool {
    &&& SliceAddress::of(p).settled(nalu_type, pps)
    &&& if p.dependent_slice_segment_flag {
        &&& SliceIndependent::of(p).fills(uncoded_header(pps))
        &&& p.num_pic_total_curr == 0
    } else {
        SliceIndependent::of(p).settled(nalu_type, sps, pps)
    }
    &&& SliceEnd::of(p).settled(pps)
}

proof fn lemma_slice_address_equal(p: SliceHeader, q: SliceHeader, nalu_type: NaluType, pps: Pps)
    requires
        SliceAddress::of(q).same(p, nalu_type, pps),
        SliceAddress::of(p).settled(nalu_type, pps),
        SliceAddress::of(q).settled(nalu_type, pps),
    ensures
        SliceAddress::of(q) == SliceAddress::of(p),
{
    reveal(SliceAddress::of);
    reveal(SliceAddress::same);
    reveal(SliceAddress::settled);
}

proof fn lemma_slice_type_equal(p: SliceHeader, q: SliceHeader, sps: Sps, pps: Pps)
    requires
        SliceTypeFields::of(q).same(p, sps, pps),
        SliceTypeFields::of(p).settled(sps, pps),
        SliceTypeFields::of(q).settled(sps, pps),
    ensures
        SliceTypeFields::of(q) == SliceTypeFields::of(p),
{
    reveal(SliceTypeFields::of);
    reveal(SliceTypeFields::same);
    reveal(SliceTypeFields::settled);
}

proof fn lemma_slice_st_equal(p: SliceHeader, q: SliceHeader, sps: Sps)
    requires
        SliceShortTerm::of(q).same(p, sps),
        SliceShortTerm::of(p).settled(sps),
        SliceShortTerm::of(q).settled(sps),
    ensures
        SliceShortTerm::of(q) == SliceShortTerm::of(p),
{
    reveal(SliceShortTerm::of);
    reveal(SliceShortTerm::same);
    reveal(SliceShortTerm::settled);
    if !p.short_term_ref_pic_set_sps_flag {
        lemma_rps_equal(p.short_term_ref_pic_set, q.short_term_ref_pic_set);
    }
}

proof fn lemma_slice_lt_equal(p: SliceHeader, q: SliceHeader, sps: Sps)
    requires
        SliceLongTerm::of(q).same(p, sps),
        SliceLongTerm::of(p).settled(sps),
        SliceLongTerm::of(q).settled(sps),
        p.inferred_lt(sps),
    ensures
        SliceLongTerm::of(q) == SliceLongTerm::of(p),
{
    reveal(SliceLongTerm::of);
    let a = SliceLongTerm::of(p).rows;
    let b = SliceLongTerm::of(q).rows;
    let n = p.num_long_term();
    assert forall|k: int| 0 <= k < 16 implies {
        &&& b.lt_idx_sps@[k] == a.lt_idx_sps@[k]
        &&& b.poc_lsb_lt@[k] == a.poc_lsb_lt@[k]
        &&& b.used_by_curr_pic_lt@[k] == a.used_by_curr_pic_lt@[k]
        &&& b.delta_poc_msb_present_flag@[k] == a.delta_poc_msb_present_flag@[k]
        &&& b.delta_poc_msb_cycle_lt@[k] == a.delta_poc_msb_cycle_lt@[k]
    } by {
        if k < n {
            assert(b.delta_poc_msb_cycle_lt@[k] == b.row(k).delta_poc_msb_cycle_lt);
            assert(b.row(k).same(p, sps, k));
        }
    }
    assert(b.lt_idx_sps =~= a.lt_idx_sps);
    assert(b.poc_lsb_lt =~= a.poc_lsb_lt);
    assert(b.used_by_curr_pic_lt =~= a.used_by_curr_pic_lt);
    assert(b.delta_poc_msb_present_flag =~= a.delta_poc_msb_present_flag);
    assert(b.delta_poc_msb_cycle_lt =~= a.delta_poc_msb_cycle_lt);
}

proof fn lemma_slice_sao_equal(p: SliceHeader, q: SliceHeader, sps: Sps)
    requires
        SliceSao::of(q).same(p, sps),
        SliceSao::of(p).settled(sps),
        SliceSao::of(q).settled(sps),
    ensures
        SliceSao::of(q) == SliceSao::of(p),
{
    reveal(SliceSao::of);
    reveal(SliceSao::same);
    reveal(SliceSao::settled);
}

proof fn lemma_slice_lists_equal(
    p: SliceHeader,
    q: SliceHeader,
    slice_type: SliceType,
    total: u32,
    pps: Pps,
)
    requires
        p.type_ == slice_type,
        SliceLists::of(q).same(p, slice_type, total, pps),
        SliceLists::of(p).settled(slice_type, total, pps),
        SliceLists::of(q).settled(slice_type, total, pps),
    ensures
        SliceLists::of(q) == SliceLists::of(p),
{
    reveal(SliceLists::of);
    reveal(SliceLists::same);
    reveal(SliceLists::settled);
    if pps.lists_modification_present_flag && total > 1 {
        lemma_rplm_equal(
            p.ref_pic_list_modification,
            q.ref_pic_list_modification,
            slice_type,
            p.l0_minus1(pps),
            p.l1_list(pps),
        );
    }
}

proof fn lemma_slice_prediction_equal(
    p: SliceHeader,
    q: SliceHeader,
    mvp: bool,
    l0_minus1: u8,
    l1_minus1: u8,
    sps: Sps,
    pps: Pps,
)
    requires
        SlicePrediction::of(q).same(p, p.type_, mvp, l0_minus1, l1_minus1, sps, pps),
        SlicePrediction::of(p).settled(p.type_, mvp, l0_minus1, l1_minus1, sps, pps),
        SlicePrediction::of(q).settled(p.type_, mvp, l0_minus1, l1_minus1, sps, pps),
        p.l0_minus1(pps) == l0_minus1,
        p.l1_minus1(pps) == l1_minus1,
    ensures
        SlicePrediction::of(q) == SlicePrediction::of(p),
{
    reveal(SlicePrediction::of);
    reveal(SlicePrediction::same);
    reveal(SlicePrediction::settled);
    if p.is_weighted(pps) {
        lemma_pwt_equal(
            p.pred_weight_table,
            q.pred_weight_table,
            p.type_,
            sps.chroma_array_type as int,
            p.l0_minus1(pps),
            p.l1_list(pps),
        );
    }
}

proof fn lemma_slice_qp_equal(p: SliceHeader, q: SliceHeader, pps: Pps)
    requires
        SliceQp::of(q).same(p, pps),
        SliceQp::of(p).settled(pps),
        SliceQp::of(q).settled(pps),
    ensures
        SliceQp::of(q) == SliceQp::of(p),
{
    reveal(SliceQp::of);
    reveal(SliceQp::same);
    reveal(SliceQp::settled);
}

proof fn lemma_slice_filters_equal(
    p: SliceHeader,
    q: SliceHeader,
    sao_luma: bool,
    sao_chroma: bool,
    pps: Pps,
)
    requires
        SliceFilters::of(q).same(p, sao_luma, sao_chroma, pps),
        SliceFilters::of(p).settled(sao_luma, sao_chroma, pps),
        SliceFilters::of(q).settled(sao_luma, sao_chroma, pps),
    ensures
        SliceFilters::of(q) == SliceFilters::of(p),
{
    reveal(SliceFilters::of);
    reveal(SliceFilters::same);
    reveal(SliceFilters::settled);
}

proof fn lemma_slice_end_equal(p: SliceHeader, q: SliceHeader, pps: Pps)
    requires
        SliceEnd::of(q).same(p, pps),
        SliceEnd::of(p).settled(pps),
        SliceEnd::of(q).settled(pps),
    ensures
        SliceEnd::of(q) == SliceEnd::of(p),
{
    reveal(SliceEnd::of);
    reveal(SliceEnd::same);
    reveal(SliceEnd::settled);
    assert(q.entry_point_offset_minus1 =~= p.entry_point_offset_minus1);
}

/// Settled reference pictures that are the same as far as they are coded are equal.
proof fn lemma_slice_references_equal(
    p: SliceHeader,
    q: SliceHeader,
    nalu_type: NaluType,
    sps: Sps,
)
    requires
        SliceIndependent::of(q).references.same(p, nalu_type, sps),
        SliceIndependent::of(p).references.settled(nalu_type, sps),
        SliceIndependent::of(q).references.settled(nalu_type, sps),
        !nalu_type.idr() ==> p.inferred_lt(sps),
    ensures
        SliceIndependent::of(q).references == SliceIndependent::of(p).references,
{
    if !nalu_type.idr() {
        lemma_slice_st_equal(p, q, sps);
        lemma_slice_lt_equal(p, q, sps);
    }
}

/// A settled body that is the same as far as it is coded is equal.
proof fn lemma_slice_body_equal(
    p: SliceHeader,
    q: SliceHeader,
    total: u32,
    sps: Sps,
    pps: Pps,
)
    requires
        SliceIndependent::of(q).body.same(p, total, sps, pps),
        SliceIndependent::of(p).body.settled(
            p.type_,
            total,
            p.temporal_mvp_enabled_flag,
            sps,
            pps,
        ),
        SliceIndependent::of(q).body.settled(
            p.type_,
            total,
            p.temporal_mvp_enabled_flag,
            sps,
            pps,
        ),
    ensures
        SliceIndependent::of(q).body == SliceIndependent::of(p).body,
{
    let a = SliceIndependent::of(p).body;
    let b = SliceIndependent::of(q).body;
    lemma_slice_sao_equal(p, q, sps);
    assert(a.sao.sao_luma_flag == p.sao_luma_flag && a.sao.sao_chroma_flag == p.sao_chroma_flag)
        by {
        reveal(SliceSao::of);
    }
    lemma_slice_qp_equal(p, q, pps);
    lemma_slice_filters_equal(p, q, p.sao_luma_flag, p.sao_chroma_flag, pps);
    if p.type_ != SliceType::I {
        lemma_slice_lists_equal(p, q, p.type_, total, pps);
        let l0 = a.inter.lists.num_ref_idx_l0_active_minus1;
        let l1 = a.inter.lists.num_ref_idx_l1_active_minus1;
        assert(p.l0_minus1(pps) == l0 && p.l1_minus1(pps) == l1) by {
            reveal(SliceLists::of);
            reveal(SliceLists::settled);
        }
        lemma_slice_prediction_equal(
            p,
            q,
            p.temporal_mvp_enabled_flag,
            l0,
            l1,
            sps,
            pps,
        );
    }
}

/// What an independent slice segment has, settled and the same as far as it is coded, is
/// equal.
proof fn lemma_slice_independent_equal(
    p: SliceHeader,
    q: SliceHeader,
    nalu_type: NaluType,
    sps: Sps,
    pps: Pps,
)
    requires
        SliceIndependent::of(q).same(p, nalu_type, sps, pps),
        SliceIndependent::of(p).settled(nalu_type, sps, pps),
        SliceIndependent::of(q).settled(nalu_type, sps, pps),
        !nalu_type.idr() ==> p.inferred_lt(sps),
        p.num_pic_total_curr == p.pic_total_curr(sps, pps),
    ensures
        SliceIndependent::of(q) == SliceIndependent::of(p),
{
    let a = SliceIndependent::of(p);
    let b = SliceIndependent::of(q);
    lemma_slice_type_equal(p, q, sps, pps);
    assert(a.kind.type_ == p.type_) by {
        reveal(SliceTypeFields::of);
    }
    lemma_slice_references_equal(p, q, nalu_type, sps);
    lemma_slice_body_equal(p, q, a.total, sps, pps);
}

/// What a dependent slice segment does not code is equal.
proof fn lemma_slice_dependent_equal(p: SliceHeader, q: SliceHeader, h: SliceHeader)
    requires
        SliceIndependent::of(p).fills(h),
        SliceIndependent::of(q).fills(h),
        p.num_pic_total_curr == q.num_pic_total_curr,
    ensures
        SliceIndependent::of(q) == SliceIndependent::of(p),
{
}

/// The ends of settled headers that are the same as far as they are coded are equal.
proof fn lemma_slice_ends_equal(
    p: SliceHeader,
    q: SliceHeader,
    nalu_type: NaluType,
    sps: Sps,
    pps: Pps,
)
    requires
        slice_same(q, p, nalu_type, sps, pps),
        slice_settled(p, nalu_type, sps, pps),
        slice_settled(q, nalu_type, sps, pps),
    ensures
        SliceAddress::of(q) == SliceAddress::of(p),
        SliceEnd::of(q) == SliceEnd::of(p),
{
    assert(SliceAddress::of(q).same(p, nalu_type, pps) && SliceEnd::of(q).same(p, pps)) by {
        reveal(slice_same);
    }
    assert(SliceAddress::of(p).settled(nalu_type, pps) && SliceEnd::of(p).settled(pps)) by {
        reveal(slice_settled);
    }
    assert(SliceAddress::of(q).settled(nalu_type, pps) && SliceEnd::of(q).settled(pps)) by {
        reveal(slice_settled);
    }
    lemma_slice_address_equal(p, q, nalu_type, pps);
    lemma_slice_end_equal(p, q, pps);
}

/// What lies between the ends is equal too, where it is coded.
proof fn lemma_slice_coded_equal(
    p: SliceHeader,
    q: SliceHeader,
    nalu_type: NaluType,
    sps: Sps,
    pps: Pps,
)
    requires
        slice_same(q, p, nalu_type, sps, pps),
        slice_settled(p, nalu_type, sps, pps),
        slice_settled(q, nalu_type, sps, pps),
        !p.dependent_slice_segment_flag,
        nalu_type.idr() || p.inferred_lt(sps),
        p.num_pic_total_curr == p.pic_total_curr(sps, pps),
    ensures
        SliceIndependent::of(q) == SliceIndependent::of(p),
{
    assert(SliceIndependent::of(q).same(p, nalu_type, sps, pps)
        && !q.dependent_slice_segment_flag) by {
        reveal(slice_same);
    }
    assert(SliceIndependent::of(p).settled(nalu_type, sps, pps)) by {
        reveal(slice_settled);
    }
    assert(SliceIndependent::of(q).settled(nalu_type, sps, pps)) by {
        reveal(slice_settled);
    }
    lemma_slice_independent_equal(p, q, nalu_type, sps, pps);
}

/// What lies between the ends is equal too, where it is not coded.
proof fn lemma_slice_uncoded_equal(
    p: SliceHeader,
    q: SliceHeader,
    nalu_type: NaluType,
    sps: Sps,
    pps: Pps,
)
    requires
        slice_same(q, p, nalu_type, sps, pps),
        slice_settled(p, nalu_type, sps, pps),
        slice_settled(q, nalu_type, sps, pps),
        p.dependent_slice_segment_flag,
    ensures
        SliceIndependent::of(q) == SliceIndependent::of(p),
{
    assert(q.dependent_slice_segment_flag) by {
        reveal(slice_same);
    }
    reveal(slice_settled);
    lemma_slice_dependent_equal(p, q, uncoded_header(pps));
}

/// Settled headers of independent slice segments that are the same as far as they are coded are
/// equal.
pub proof fn lemma_independent_header_equal(
    p: SliceHeader,
    q: SliceHeader,
    nalu_type: NaluType,
    sps: Sps,
    pps: Pps,
)
    requires
        slice_same(q, p, nalu_type, sps, pps),
        slice_settled(p, nalu_type, sps, pps),
        slice_settled(q, nalu_type, sps, pps),
        !p.dependent_slice_segment_flag,
        nalu_type.idr() || p.inferred_lt(sps),
        p.num_pic_total_curr == p.pic_total_curr(sps, pps),
    ensures
        q == p,
{
    lemma_slice_ends_equal(p, q, nalu_type, sps, pps);
    lemma_slice_coded_equal(p, q, nalu_type, sps, pps);
    lemma_slice_from_sections(p, q);
}

/// Settled headers of dependent slice segments that are the same as far as they are coded are
/// equal.
pub proof fn lemma_dependent_header_equal(
    p: SliceHeader,
    q: SliceHeader,
    nalu_type: NaluType,
    sps: Sps,
    pps: Pps,
)
    requires
        slice_same(q, p, nalu_type, sps, pps),
        slice_settled(p, nalu_type, sps, pps),
        slice_settled(q, nalu_type, sps, pps),
        p.dependent_slice_segment_flag,
    ensures
        q == p,
{
    lemma_slice_ends_equal(p, q, nalu_type, sps, pps);
    lemma_slice_uncoded_equal(p, q, nalu_type, sps, pps);
    lemma_slice_from_sections(p, q);
}

/// Headers with equal sections are equal.
proof fn lemma_slice_from_sections(p: SliceHeader, q: SliceHeader)
    requires
        SliceAddress::of(q) == SliceAddress::of(p),
        SliceIndependent::of(q) == SliceIndependent::of(p),
        SliceEnd::of(q) == SliceEnd::of(p),
    ensures
        q == p,
{
    reveal(SliceAddress::of);
    reveal(SliceTypeFields::of);
    reveal(SliceShortTerm::of);
    reveal(SliceLongTerm::of);
    reveal(SliceSao::of);
    reveal(SliceLists::of);
    reveal(SlicePrediction::of);
    reveal(SliceQp::of);
    reveal(SliceFilters::of);
    reveal(SliceEnd::of);
    let a = SliceIndependent::of(p);
    let b = SliceIndependent::of(q);
    assert(b.kind == a.kind);
    assert(b.references.st == a.references.st);
    assert(b.references.lt == a.references.lt);
    assert(b.body.sao == a.body.sao);
    assert(b.body.inter.lists == a.body.inter.lists);
    assert(b.body.inter.prediction == a.body.inter.prediction);
    assert(b.body.qp == a.body.qp);
    assert(b.body.filters == a.body.filters);
}

/// The structure that holds these fields.
fn assemble_slice(address: SliceAddress, f: SliceIndependent, end: SliceEnd) -> (p: SliceHeader)
    ensures
        address.fills(p),
        f.fills(p),
        end.fills(p),
        p.num_pic_total_curr == f.total,
{
    proof {
        reveal(SliceAddress::of);
        reveal(SliceTypeFields::of);
        reveal(SliceShortTerm::of);
        reveal(SliceLongTerm::of);
        reveal(SliceSao::of);
        reveal(SliceLists::of);
        reveal(SlicePrediction::of);
        reveal(SliceQp::of);
        reveal(SliceFilters::of);
        reveal(SliceEnd::of);
    }
    let SliceIndependent { kind, references, total, body } = f;
    let SliceReferences { st, lt, temporal_mvp_enabled_flag } = references;
    let SliceBody { sao, inter, qp, filters } = body;
    let SliceInter { lists, prediction } = inter;
    SliceHeader {
        first_slice_segment_in_pic_flag: address.first_slice_segment_in_pic_flag,
        no_output_of_prior_pics_flag: address.no_output_of_prior_pics_flag,
        pic_parameter_set_id: address.pic_parameter_set_id,
        dependent_slice_segment_flag: address.dependent_slice_segment_flag,
        segment_address: address.segment_address,
        type_: kind.type_,
        pic_output_flag: kind.pic_output_flag,
        colour_plane_id: kind.colour_plane_id,
        pic_order_cnt_lsb: st.pic_order_cnt_lsb,
        short_term_ref_pic_set_sps_flag: st.short_term_ref_pic_set_sps_flag,
        short_term_ref_pic_set: st.short_term_ref_pic_set,
        short_term_ref_pic_set_idx: st.short_term_ref_pic_set_idx,
        curr_rps_idx: st.curr_rps_idx,
        num_long_term_sps: lt.num_long_term_sps,
        num_long_term_pics: lt.num_long_term_pics,
        lt_idx_sps: lt.rows.lt_idx_sps,
        poc_lsb_lt: lt.rows.poc_lsb_lt,
        used_by_curr_pic_lt: lt.rows.used_by_curr_pic_lt,
        delta_poc_msb_present_flag: lt.rows.delta_poc_msb_present_flag,
        delta_poc_msb_cycle_lt: lt.rows.delta_poc_msb_cycle_lt,
        temporal_mvp_enabled_flag,
        sao_luma_flag: sao.sao_luma_flag,
        sao_chroma_flag: sao.sao_chroma_flag,
        num_ref_idx_active_override_flag: lists.num_ref_idx_active_override_flag,
        num_ref_idx_l0_active_minus1: lists.num_ref_idx_l0_active_minus1,
        num_ref_idx_l1_active_minus1: lists.num_ref_idx_l1_active_minus1,
        ref_pic_list_modification: lists.ref_pic_list_modification,
        mvd_l1_zero_flag: lists.mvd_l1_zero_flag,
        cabac_init_flag: lists.cabac_init_flag,
        collocated_from_l0_flag: prediction.collocated_from_l0_flag,
        collocated_ref_idx: prediction.collocated_ref_idx,
        pred_weight_table: prediction.pred_weight_table,
        five_minus_max_num_merge_cand: prediction.five_minus_max_num_merge_cand,
        use_integer_mv_flag: prediction.use_integer_mv_flag,
        qp_delta: qp.qp_delta,
        cb_qp_offset: qp.cb_qp_offset,
        cr_qp_offset: qp.cr_qp_offset,
        slice_act_y_qp_offset: qp.slice_act_y_qp_offset,
        slice_act_cb_qp_offset: qp.slice_act_cb_qp_offset,
        slice_act_cr_qp_offset: qp.slice_act_cr_qp_offset,
        cu_chroma_qp_offset_enabled_flag: qp.cu_chroma_qp_offset_enabled_flag,
        deblocking_filter_override_flag: filters.deblocking_filter_override_flag,
        deblocking_filter_disabled_flag: filters.deblocking_filter_disabled_flag,
        beta_offset_div2: filters.beta_offset_div2,
        tc_offset_div2: filters.tc_offset_div2,
        loop_filter_across_slices_enabled_flag: filters.loop_filter_across_slices_enabled_flag,
        num_entry_point_offsets: end.num_entry_point_offsets,
        offset_len_minus1: end.offset_len_minus1,
        entry_point_offset_minus1: end.entry_point_offset_minus1,
        num_pic_total_curr: total,
    }
}

/// `slice_segment_header()` (7.3.6.1).
#[verifier::rlimit(60)]
pub(crate) fn parse_slice(
    r: &mut BitReader,
    nalu_type: NaluType,
    sps: &Sps,
    pps: &Pps,
) -> (p: SliceHeader)
    requires
        old(r).inv(),
        sps.usable(),
    ensures
        final(r).inv(),
        decodes(old(r)@, slice_syntax(p, nalu_type, *sps, *pps), final(r)@),
        final(r)@ is Some
            ==> p.inferred(nalu_type, *sps, *pps)
            && slice_settled(p, nalu_type, *sps, *pps) && (
        p.dependent_slice_segment_flag || p.num_pic_total_curr == p.pic_total_curr(*sps, *pps)),
        forall|v: SliceHeader, rest: Seq<bool>|
            old(r)@ == Some(#[trigger] slice_syntax(v, nalu_type, *sps, *pps).onto(rest))
                && slice_syntax(
                v,
                nalu_type,
                *sps,
                *pps,
            ).fits() && v.inferred(nalu_type, *sps, *pps)
                ==> final(r)@ == Some(
                rest,
            ) && slice_same(p, v, nalu_type, *sps, *pps),
{
    proof {
        reveal(slice_same);
        reveal(slice_settled);
        reveal(slice_syntax);
    }
    let ghost start = r@;
    let address = parse_slice_address(r, nalu_type, sps, pps);
    let ghost b1 = r@;
    let f = parse_slice_independent(r, address.dependent_slice_segment_flag, nalu_type, sps, pps);
    let ghost b2 = r@;
    let end = parse_slice_end(r, pps);
    let p = assemble_slice(address, f, end);
    proof {
        reveal(SliceAddress::of);
        reveal(SliceAddress::same);
        reveal(SliceEnd::of);
        assert(f.fills(p));
        assert(f == SliceIndependent::of(p));
        if r@ is Some {
            assert(decodes(start, slice_syntax(p, nalu_type, *sps, *pps), r@));
            if !p.dependent_slice_segment_flag {
                assert(independent_inferred(p, nalu_type, *sps, *pps));
            }
        }
        assert forall|v: SliceHeader, rest: Seq<bool>|
            start == Some(#[trigger] slice_syntax(v, nalu_type, *sps, *pps).onto(rest))
                && slice_syntax(
                v,
                nalu_type,
                *sps,
                *pps,
            ).fits() && v.inferred(nalu_type, *sps, *pps)
                implies r@ == Some(
            rest,
        ) && slice_same(p, v, nalu_type, *sps, *pps) by {
            assert(b1 == Some(
                slice_independent_syntax(
                    v,
                    nalu_type,
                    *sps,
                    *pps,
                ).onto(slice_end_syntax(v, *pps).onto(rest)),
            ));
            if !v.dependent_slice_segment_flag {
                if v.is_inter() {
                    lemma_inter_bounded(v, nalu_type, *sps, *pps);
                }
                assert(independent_inferred(v, nalu_type, *sps, *pps));
            }
            assert(b2 == Some(slice_end_syntax(v, *pps).onto(rest)));
        }
    }
    p
}

/// The lists of an inter slice whose table can be written in full lie within the arrays.
proof fn lemma_inter_bounded(v: SliceHeader, nalu_type: NaluType, sps: Sps, pps: Pps)
    requires
        slice_independent_syntax(v, nalu_type, sps, pps).fits(),
        !v.dependent_slice_segment_flag,
        v.is_inter(),
    ensures
        inter_bounded(v, v.pic_total_curr(sps, pps), pps),
{
    assert(slice_lists_syntax(v, sps, pps).fits() && slice_prediction_syntax(v, sps, pps).fits())
        by {
        reveal(slice_independent_syntax);
        reveal(slice_body_syntax);
        reveal(slice_inter_syntax);
    }
    assert(pps.lists_modification_present_flag && v.pic_total_curr(sps, pps) > 1 ==> rplm_bounded(
        v.ref_pic_list_modification,
        v.type_,
        v.l0_minus1(pps),
        v.l1_list(pps),
    )) by {
        reveal(slice_lists_syntax);
        reveal(rplm_syntax);
    }
    assert(v.is_weighted(pps) ==> v.l0_minus1(pps) < 15 && v.l1_list(pps) < 15) by {
        reveal(slice_prediction_syntax);
        reveal(pwt_syntax);
        reveal(weight_list_syntax);
    }
}

} // verus!
