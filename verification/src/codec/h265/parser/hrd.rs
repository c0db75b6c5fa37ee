//! The reader of `hrd_parameters()`.

use crate::bits::lemma_pow2_values;
use crate::codec::bit_reader::BitReader;
use crate::codec::h265::parser::common::{agree, decodes, tail_is, MAX_UE};
use crate::codec::h265::tables::{
    cpbs_from, hrd_buffers_syntax, hrd_common_syntax, hrd_rate_syntax, hrd_row_syntax,
    hrd_rows_from, hrd_sub_pic_syntax, hrd_syntax, sublayer_hrd_syntax,
};
use crate::codec::h265::types::{HrdParams, SublayerHrdParameters};
use crate::syntax::{group_onto, group_read};
use vstd::prelude::*;

verus! {

broadcast use {group_onto, group_read};

/// The common information of `hrd_parameters()`.
#[derive(Clone, Copy)]
pub struct HrdCommon {
    pub nal_hrd_parameters_present_flag: bool,
    pub vcl_hrd_parameters_present_flag: bool,
    pub sub_pic_hrd_params_present_flag: bool,
    pub tick_divisor_minus2: u8,
    pub du_cpb_removal_delay_increment_length_minus1: u8,
    pub sub_pic_cpb_params_in_pic_timing_sei_flag: bool,
    pub dpb_output_delay_du_length_minus1: u8,
    pub bit_rate_scale: u8,
    pub cpb_size_scale: u8,
    pub cpb_size_du_scale: u8,
    pub initial_cpb_removal_delay_length_minus1: u8,
    pub au_cpb_removal_delay_length_minus1: u8,
    pub dpb_output_delay_length_minus1: u8,
}

impl HrdCommon {
    /// The fields of `s`.
    #[verifier::opaque]
    pub open spec fn of(s: HrdParams) -> Self {
        HrdCommon {
            nal_hrd_parameters_present_flag: s.nal_hrd_parameters_present_flag,
            vcl_hrd_parameters_present_flag: s.vcl_hrd_parameters_present_flag,
            sub_pic_hrd_params_present_flag: s.sub_pic_hrd_params_present_flag,
            tick_divisor_minus2: s.tick_divisor_minus2,
            du_cpb_removal_delay_increment_length_minus1: s.du_cpb_removal_delay_increment_length_minus1,
            sub_pic_cpb_params_in_pic_timing_sei_flag: s.sub_pic_cpb_params_in_pic_timing_sei_flag,
            dpb_output_delay_du_length_minus1: s.dpb_output_delay_du_length_minus1,
            bit_rate_scale: s.bit_rate_scale,
            cpb_size_scale: s.cpb_size_scale,
            cpb_size_du_scale: s.cpb_size_du_scale,
            initial_cpb_removal_delay_length_minus1: s.initial_cpb_removal_delay_length_minus1,
            au_cpb_removal_delay_length_minus1: s.au_cpb_removal_delay_length_minus1,
            dpb_output_delay_length_minus1: s.dpb_output_delay_length_minus1,
        }
    }

    /// Whether `s` holds these fields.
    pub open spec fn fills(self, s: HrdParams) -> bool {
        Self::of(s) == self
    }

    /// Whether what is not coded has its inferred or initial value.
    #[verifier::opaque]
    pub open spec fn settled(self) -> bool {
        let coded = self.nal_hrd_parameters_present_flag || self.vcl_hrd_parameters_present_flag;
        &&& !coded ==> {
            &&& !self.sub_pic_hrd_params_present_flag
            &&& self.bit_rate_scale == 0
            &&& self.cpb_size_scale == 0
            &&& self.initial_cpb_removal_delay_length_minus1 == 23
            &&& self.au_cpb_removal_delay_length_minus1 == 23
            &&& self.dpb_output_delay_length_minus1 == 23
        }
        &&& !(coded && self.sub_pic_hrd_params_present_flag) ==> {
            &&& self.tick_divisor_minus2 == 0
            &&& self.du_cpb_removal_delay_increment_length_minus1 == 0
            &&& !self.sub_pic_cpb_params_in_pic_timing_sei_flag
            &&& self.dpb_output_delay_du_length_minus1 == 0
            &&& self.cpb_size_du_scale == 0
        }
    }

    /// Whether the fields that are coded of `v` are these.
    #[verifier::opaque]
    pub open spec fn same(self, v: HrdParams) -> bool {
        &&& self.nal_hrd_parameters_present_flag == v.nal_hrd_parameters_present_flag
        &&& self.vcl_hrd_parameters_present_flag == v.vcl_hrd_parameters_present_flag
        &&& (v.nal_hrd_parameters_present_flag || v.vcl_hrd_parameters_present_flag)
            ==> self.sub_pic_hrd_params_present_flag == v.sub_pic_hrd_params_present_flag
        &&& (v.nal_hrd_parameters_present_flag || v.vcl_hrd_parameters_present_flag)
            && v.sub_pic_hrd_params_present_flag
            ==> self.tick_divisor_minus2 == v.tick_divisor_minus2
        &&& (v.nal_hrd_parameters_present_flag || v.vcl_hrd_parameters_present_flag)
            && v.sub_pic_hrd_params_present_flag
            ==> self.du_cpb_removal_delay_increment_length_minus1 == v.du_cpb_removal_delay_increment_length_minus1
        &&& (v.nal_hrd_parameters_present_flag || v.vcl_hrd_parameters_present_flag)
            && v.sub_pic_hrd_params_present_flag
            ==> self.sub_pic_cpb_params_in_pic_timing_sei_flag == v.sub_pic_cpb_params_in_pic_timing_sei_flag
        &&& (v.nal_hrd_parameters_present_flag || v.vcl_hrd_parameters_present_flag)
            && v.sub_pic_hrd_params_present_flag
            ==> self.dpb_output_delay_du_length_minus1 == v.dpb_output_delay_du_length_minus1
        &&& (v.nal_hrd_parameters_present_flag || v.vcl_hrd_parameters_present_flag)
            ==> self.bit_rate_scale == v.bit_rate_scale
        &&& (v.nal_hrd_parameters_present_flag || v.vcl_hrd_parameters_present_flag)
            ==> self.cpb_size_scale == v.cpb_size_scale
        &&& (v.nal_hrd_parameters_present_flag || v.vcl_hrd_parameters_present_flag)
            && v.sub_pic_hrd_params_present_flag
            ==> self.cpb_size_du_scale == v.cpb_size_du_scale
        &&& (v.nal_hrd_parameters_present_flag || v.vcl_hrd_parameters_present_flag)
            ==> self.initial_cpb_removal_delay_length_minus1 == v.initial_cpb_removal_delay_length_minus1
        &&& (v.nal_hrd_parameters_present_flag || v.vcl_hrd_parameters_present_flag)
            ==> self.au_cpb_removal_delay_length_minus1 == v.au_cpb_removal_delay_length_minus1
        &&& (v.nal_hrd_parameters_present_flag || v.vcl_hrd_parameters_present_flag)
            ==> self.dpb_output_delay_length_minus1 == v.dpb_output_delay_length_minus1
    }
}

/// The common information of `hrd_parameters()`.
#[verifier::rlimit(40)]
pub(crate) fn parse_hrd_common(r: &mut BitReader) -> (f: HrdCommon)
    requires
        old(r).inv(),
    ensures
        final(r).inv(),
        final(r)@ is Some ==> old(r)@ is Some,
        forall|s: HrdParams| f.fills(s)
            ==> decodes(old(r)@, #[trigger] hrd_common_syntax(s), final(r)@),
        forall|v: HrdParams, rest: Seq<bool>|
            old(r)@ == Some(#[trigger] hrd_common_syntax(v).onto(rest))
                && hrd_common_syntax(v).fits()
                ==> final(r)@ == Some(
                rest,
            ) && f.same(v),
        f.settled(),
{
    proof {
        lemma_pow2_values();
        reveal(hrd_common_syntax);
        reveal(hrd_sub_pic_syntax);
        reveal(HrdCommon::settled);
        reveal(HrdCommon::of);
        reveal(HrdCommon::same);
    }
    let nal_hrd_parameters_present_flag: bool = r.flag();
    let vcl_hrd_parameters_present_flag: bool = r.flag();
    let mut sub_pic_hrd_params_present_flag: bool = false;
    let mut tick_divisor_minus2: u8 = 0;
    let mut du_cpb_removal_delay_increment_length_minus1: u8 = 0;
    let mut sub_pic_cpb_params_in_pic_timing_sei_flag: bool = false;
    let mut dpb_output_delay_du_length_minus1: u8 = 0;
    let mut bit_rate_scale: u8 = 0;
    let mut cpb_size_scale: u8 = 0;
    let mut cpb_size_du_scale: u8 = 0;
    let mut initial_cpb_removal_delay_length_minus1: u8 = 23;
    let mut au_cpb_removal_delay_length_minus1: u8 = 23;
    let mut dpb_output_delay_length_minus1: u8 = 23;
    if nal_hrd_parameters_present_flag || vcl_hrd_parameters_present_flag {
        sub_pic_hrd_params_present_flag = r.flag();
        if sub_pic_hrd_params_present_flag {
            tick_divisor_minus2 = r.u(8) as u8;
            du_cpb_removal_delay_increment_length_minus1 = r.u(5) as u8;
            sub_pic_cpb_params_in_pic_timing_sei_flag = r.flag();
            dpb_output_delay_du_length_minus1 = r.u(5) as u8;
        }
        bit_rate_scale = r.u(4) as u8;
        cpb_size_scale = r.u(4) as u8;
        if sub_pic_hrd_params_present_flag {
            cpb_size_du_scale = r.u(4) as u8;
        }
        initial_cpb_removal_delay_length_minus1 = r.u(5) as u8;
        au_cpb_removal_delay_length_minus1 = r.u(5) as u8;
        dpb_output_delay_length_minus1 = r.u(5) as u8;
    }
    HrdCommon {
        nal_hrd_parameters_present_flag,
        vcl_hrd_parameters_present_flag,
        sub_pic_hrd_params_present_flag,
        tick_divisor_minus2,
        du_cpb_removal_delay_increment_length_minus1,
        sub_pic_cpb_params_in_pic_timing_sei_flag,
        dpb_output_delay_du_length_minus1,
        bit_rate_scale,
        cpb_size_scale,
        cpb_size_du_scale,
        initial_cpb_removal_delay_length_minus1,
        au_cpb_removal_delay_length_minus1,
        dpb_output_delay_length_minus1,
    }
}

impl Default for HrdCommon {
    fn default() -> Self {
        HrdCommon {
            nal_hrd_parameters_present_flag: false,
            vcl_hrd_parameters_present_flag: false,
            sub_pic_hrd_params_present_flag: false,
            tick_divisor_minus2: 0,
            du_cpb_removal_delay_increment_length_minus1: 0,
            sub_pic_cpb_params_in_pic_timing_sei_flag: false,
            dpb_output_delay_du_length_minus1: 0,
            bit_rate_scale: 0,
            cpb_size_scale: 0,
            cpb_size_du_scale: 0,
            initial_cpb_removal_delay_length_minus1: 23,
            au_cpb_removal_delay_length_minus1: 23,
            dpb_output_delay_length_minus1: 23,
        }
    }
}

/// Whether the first `n` buffers of `a` and `b` are the same. Without sub-picture
/// buffers, what is said of those does not count.
pub open spec fn cpbs_agree(
    a: SublayerHrdParameters,
    b: SublayerHrdParameters,
    sub_pic: bool,
    n: int,
) -> bool {
    &&& agree(a.bit_rate_value_minus1@, b.bit_rate_value_minus1@, n)
    &&& agree(a.cpb_size_value_minus1@, b.cpb_size_value_minus1@, n)
    &&& sub_pic ==> agree(a.cpb_size_du_value_minus1@, b.cpb_size_du_value_minus1@, n)
    &&& sub_pic ==> agree(a.bit_rate_du_value_minus1@, b.bit_rate_du_value_minus1@, n)
    &&& agree(a.cbr_flag@, b.cbr_flag@, n)
}

/// Whether what is not coded of `n` buffers is zero.
pub open spec fn cpbs_settled(a: SublayerHrdParameters, sub_pic: bool, n: int) -> bool {
    let m = if sub_pic { n } else { 0 };
    &&& tail_is(a.bit_rate_value_minus1@, n, 0u32)
    &&& tail_is(a.cpb_size_value_minus1@, n, 0u32)
    &&& tail_is(a.cpb_size_du_value_minus1@, m, 0u32)
    &&& tail_is(a.bit_rate_du_value_minus1@, m, 0u32)
    &&& tail_is(a.cbr_flag@, n, false)
}

/// Settled buffers that are the same as far as they are coded are equal.
proof fn lemma_cpbs_equal(
    p: SublayerHrdParameters,
    q: SublayerHrdParameters,
    sub_pic: bool,
    n: int,
)
    requires
        cpbs_agree(q, p, sub_pic, n),
        cpbs_settled(p, sub_pic, n),
        cpbs_settled(q, sub_pic, n),
    ensures
        q == p,
{
    assert(q.bit_rate_value_minus1 =~= p.bit_rate_value_minus1);
    assert(q.cpb_size_value_minus1 =~= p.cpb_size_value_minus1);
    assert(q.cpb_size_du_value_minus1 =~= p.cpb_size_du_value_minus1);
    assert(q.bit_rate_du_value_minus1 =~= p.bit_rate_du_value_minus1);
    assert(q.cbr_flag =~= p.cbr_flag);
}

/// `sub_layer_hrd_parameters( subLayerId )` (E.2.3).
fn parse_cpbs(r: &mut BitReader, n: usize, sub_pic: bool) -> (a: SublayerHrdParameters)
    requires
        old(r).inv(),
        n <= 32,
    ensures
        final(r).inv(),
        final(r)@ is Some ==> old(r)@ is Some,
        forall|s: SublayerHrdParameters|
            cpbs_agree(a, s, sub_pic, n as int)
                ==> decodes(old(r)@, #[trigger] cpbs_from(s, sub_pic, 0, n as int), final(r)@),
        forall|v: SublayerHrdParameters, rest: Seq<bool>|
            old(r)@ == Some(#[trigger] cpbs_from(v, sub_pic, 0, n as int).onto(rest))
                && cpbs_from(v, sub_pic, 0, n as int).fits()
                ==> final(r)@ == Some(rest) && cpbs_agree(a, v, sub_pic, n as int),
        cpbs_settled(a, sub_pic, n as int),
{
    let mut bit_rate_value_minus1: [u32; 32] = [0; 32];
    let mut cpb_size_value_minus1: [u32; 32] = [0; 32];
    let mut cpb_size_du_value_minus1: [u32; 32] = [0; 32];
    let mut bit_rate_du_value_minus1: [u32; 32] = [0; 32];
    let mut cbr_flag: [bool; 32] = [false; 32];
    let mut i: usize = 0;
    while i < n
        invariant
            i <= n <= 32,
            tail_is(bit_rate_value_minus1@, i as int, 0u32),
            tail_is(cpb_size_value_minus1@, i as int, 0u32),
            tail_is(cpb_size_du_value_minus1@, if sub_pic { i as int } else { 0 }, 0u32),
            tail_is(bit_rate_du_value_minus1@, if sub_pic { i as int } else { 0 }, 0u32),
            tail_is(cbr_flag@, i as int, false),
            r.inv(),
            r@ is Some ==> old(r)@ is Some,
            forall|s: SublayerHrdParameters, rest: Seq<bool>|
                (agree(bit_rate_value_minus1@, s.bit_rate_value_minus1@, i as int)
                    && agree(cpb_size_value_minus1@, s.cpb_size_value_minus1@, i as int)
                    && (sub_pic
                        ==> agree(cpb_size_du_value_minus1@, s.cpb_size_du_value_minus1@, i as int))
                    && (sub_pic
                        ==> agree(bit_rate_du_value_minus1@, s.bit_rate_du_value_minus1@, i as int))
                    && agree(cbr_flag@, s.cbr_flag@, i as int))
                    && r@ == Some(cpbs_from(s, sub_pic, i as int, n as int).onto(rest))
                    ==> old(r)@
                    == Some(#[trigger] cpbs_from(s, sub_pic, 0, n as int).onto(rest)),
            forall|s: SublayerHrdParameters|
                (agree(bit_rate_value_minus1@, s.bit_rate_value_minus1@, i as int)
                    && agree(cpb_size_value_minus1@, s.cpb_size_value_minus1@, i as int)
                    && (sub_pic
                        ==> agree(cpb_size_du_value_minus1@, s.cpb_size_du_value_minus1@, i as int))
                    && (sub_pic
                        ==> agree(bit_rate_du_value_minus1@, s.bit_rate_du_value_minus1@, i as int))
                    && agree(cbr_flag@, s.cbr_flag@, i as int))
                    && r@ is Some && cpbs_from(s, sub_pic, i as int, n as int).fits()
                    ==> #[trigger] cpbs_from(s, sub_pic, 0, n as int).fits(),
            forall|v: SublayerHrdParameters, rest: Seq<bool>|
                old(r)@ == Some(#[trigger] cpbs_from(v, sub_pic, 0, n as int).onto(rest))
                    && cpbs_from(v, sub_pic, 0, n as int).fits()
                    ==> r@ == Some(cpbs_from(v, sub_pic, i as int, n as int).onto(rest))
                        && cpbs_from(v, sub_pic, i as int, n as int).fits()
                        && (agree(bit_rate_value_minus1@, v.bit_rate_value_minus1@, i as int)
                            && agree(cpb_size_value_minus1@, v.cpb_size_value_minus1@, i as int)
                            && (sub_pic
                                ==> agree(
                                    cpb_size_du_value_minus1@,
                                    v.cpb_size_du_value_minus1@,
                                    i as int,
                                ))
                            && (sub_pic
                                ==> agree(
                                    bit_rate_du_value_minus1@,
                                    v.bit_rate_du_value_minus1@,
                                    i as int,
                                ))
                            && agree(cbr_flag@, v.cbr_flag@, i as int)),
        decreases n - i,
    {
        bit_rate_value_minus1[i] = r.ue(MAX_UE);
        cpb_size_value_minus1[i] = r.ue(MAX_UE);
        if sub_pic {
            cpb_size_du_value_minus1[i] = r.ue(MAX_UE);
            bit_rate_du_value_minus1[i] = r.ue(MAX_UE);
        }
        cbr_flag[i] = r.flag();
        i = i + 1;
    }
    SublayerHrdParameters {
        bit_rate_value_minus1,
        cpb_size_value_minus1,
        cpb_size_du_value_minus1,
        bit_rate_du_value_minus1,
        cbr_flag,
    }
}

/// The picture rate of one sub-layer.
#[derive(Clone, Copy)]
pub struct HrdRate {
    pub fixed_pic_rate_general_flag: bool,
    pub fixed_pic_rate_within_cvs_flag: bool,
    pub elemental_duration_in_tc_minus1: u32,
    pub low_delay_hrd_flag: bool,
    pub cpb_cnt_minus1: u32,
}

impl HrdRate {
    /// Whether sub-layer `i` of `s` holds these fields.
    pub open spec fn fills(self, s: HrdParams, i: int) -> bool {
        &&& s.fixed_pic_rate_general_flag@[i] == self.fixed_pic_rate_general_flag
        &&& s.fixed_pic_rate_within_cvs_flag@[i] == self.fixed_pic_rate_within_cvs_flag
        &&& s.elemental_duration_in_tc_minus1@[i] == self.elemental_duration_in_tc_minus1
        &&& s.low_delay_hrd_flag@[i] == self.low_delay_hrd_flag
        &&& s.cpb_cnt_minus1@[i] == self.cpb_cnt_minus1
    }

    /// Whether the fields that are coded or inferred of sub-layer `i` of `v` are these.
    pub open spec fn same(self, v: HrdParams, i: int) -> bool {
        &&& self.fixed_pic_rate_general_flag == v.fixed_pic_rate_general_flag@[i]
        &&& self.fixed_pic_rate_within_cvs_flag == v.within_cvs(i)
        &&& v.within_cvs(i)
            ==> self.elemental_duration_in_tc_minus1 == v.elemental_duration_in_tc_minus1@[i]
        &&& self.low_delay_hrd_flag == v.low_delay_hrd_flag@[i]
        &&& self.cpb_cnt_minus1 == v.cpb_cnt_minus1@[i]
    }
}

/// The picture rate of one sub-layer.
fn parse_hrd_rate(r: &mut BitReader) -> (f: HrdRate)
    requires
        old(r).inv(),
    ensures
        final(r).inv(),
        final(r)@ is Some ==> old(r)@ is Some,
        f.cpb_cnt_minus1 < 32,
        f.fixed_pic_rate_within_cvs_flag ==> !f.low_delay_hrd_flag,
        f.fixed_pic_rate_general_flag ==> f.fixed_pic_rate_within_cvs_flag,
        f.low_delay_hrd_flag ==> f.cpb_cnt_minus1 == 0,
        !f.fixed_pic_rate_within_cvs_flag ==> f.elemental_duration_in_tc_minus1 == 0,
        forall|s: HrdParams, i: int|
            f.fills(s, i) ==> decodes(old(r)@, #[trigger] hrd_rate_syntax(s, i), final(r)@),
        forall|v: HrdParams, i: int, rest: Seq<bool>|
            old(r)@ == Some(#[trigger] hrd_rate_syntax(v, i).onto(rest))
                && hrd_rate_syntax(v, i).fits()
                && v.inferred_row(i) ==> final(r)@ == Some(rest) && f.same(v, i),
{
    proof {
        reveal(hrd_rate_syntax);
    }
    let fixed_pic_rate_general_flag: bool = r.flag();
    let mut fixed_pic_rate_within_cvs_flag: bool = true;
    if !fixed_pic_rate_general_flag {
        fixed_pic_rate_within_cvs_flag = r.flag();
    }
    let mut elemental_duration_in_tc_minus1: u32 = 0;
    let mut low_delay_hrd_flag: bool = false;
    if fixed_pic_rate_within_cvs_flag {
        elemental_duration_in_tc_minus1 = r.ue(MAX_UE);
    } else {
        low_delay_hrd_flag = r.flag();
    }
    let mut cpb_cnt_minus1: u32 = 0;
    if !low_delay_hrd_flag {
        cpb_cnt_minus1 = r.ue(31);
    }
    HrdRate {
        fixed_pic_rate_general_flag,
        fixed_pic_rate_within_cvs_flag,
        elemental_duration_in_tc_minus1,
        low_delay_hrd_flag,
        cpb_cnt_minus1,
    }
}

/// One sub-layer.
#[derive(Clone, Copy)]
pub struct HrdRow {
    pub rate: HrdRate,
    pub nal_hrd: SublayerHrdParameters,
    pub vcl_hrd: SublayerHrdParameters,
}

impl HrdRow {
    /// Whether sub-layer `i` of `s` holds these fields.
    pub open spec fn fills(self, s: HrdParams, i: int) -> bool {
        &&& self.rate.fills(s, i)
        &&& s.nal_hrd@[i] == self.nal_hrd
        &&& s.vcl_hrd@[i] == self.vcl_hrd
    }

    /// Whether the fields that are coded or inferred of sub-layer `i` of `v` are these.
    pub open spec fn same(self, v: HrdParams, i: int) -> bool {
        let n = v.cpb_cnt_minus1@[i] + 1;
        &&& self.rate.same(v, i)
        &&& v.nal_hrd_parameters_present_flag ==> cpbs_agree(
            self.nal_hrd,
            v.nal_hrd@[i],
            v.sub_pic_hrd_params_present_flag,
            n,
        )
        &&& v.vcl_hrd_parameters_present_flag ==> cpbs_agree(
            self.vcl_hrd,
            v.vcl_hrd@[i],
            v.sub_pic_hrd_params_present_flag,
            n,
        )
    }
}

impl HrdRow {
    /// The sub-layer that is not coded.
    pub open spec fn blank() -> Self {
        HrdRow {
            rate: HrdRate {
                fixed_pic_rate_general_flag: false,
                fixed_pic_rate_within_cvs_flag: false,
                elemental_duration_in_tc_minus1: 0,
                low_delay_hrd_flag: false,
                cpb_cnt_minus1: 0,
            },
            nal_hrd: SublayerHrdParameters::initial(),
            vcl_hrd: SublayerHrdParameters::initial(),
        }
    }

    /// Whether what is not coded has its inferred or initial value.
    pub open spec fn settled(self, common: HrdCommon) -> bool {
        let n = self.rate.cpb_cnt_minus1 + 1;
        let sub_pic = common.sub_pic_hrd_params_present_flag;
        &&& !self.rate.fixed_pic_rate_within_cvs_flag
            ==> self.rate.elemental_duration_in_tc_minus1 == 0
        &&& self.rate.fixed_pic_rate_general_flag ==> self.rate.fixed_pic_rate_within_cvs_flag
        &&& if common.nal_hrd_parameters_present_flag {
            cpbs_settled(self.nal_hrd, sub_pic, n)
        } else {
            self.nal_hrd == SublayerHrdParameters::initial()
        }
        &&& if common.vcl_hrd_parameters_present_flag {
            cpbs_settled(self.vcl_hrd, sub_pic, n)
        } else {
            self.vcl_hrd == SublayerHrdParameters::initial()
        }
    }
}

impl HrdCommon {
    /// Whether the flags that the sub-layers depend on are those of `s`.
    pub open spec fn flags_of(self, s: HrdParams) -> bool {
        &&& s.nal_hrd_parameters_present_flag == self.nal_hrd_parameters_present_flag
        &&& s.vcl_hrd_parameters_present_flag == self.vcl_hrd_parameters_present_flag
        &&& self.nal_hrd_parameters_present_flag || self.vcl_hrd_parameters_present_flag
            ==> s.sub_pic_hrd_params_present_flag == self.sub_pic_hrd_params_present_flag
    }
}

/// One sub-layer.
fn parse_hrd_row(r: &mut BitReader, common: &HrdCommon) -> (f: HrdRow)
    requires
        old(r).inv(),
    ensures
        final(r).inv(),
        final(r)@ is Some ==> old(r)@ is Some,
        f.rate.cpb_cnt_minus1 < 32,
        f.rate.fixed_pic_rate_within_cvs_flag ==> !f.rate.low_delay_hrd_flag,
        f.rate.fixed_pic_rate_general_flag ==> f.rate.fixed_pic_rate_within_cvs_flag,
        f.rate.low_delay_hrd_flag ==> f.rate.cpb_cnt_minus1 == 0,
        forall|s: HrdParams, i: int|
            common.flags_of(s) && f.fills(s, i)
                ==> decodes(old(r)@, #[trigger] hrd_row_syntax(s, i), final(r)@),
        forall|v: HrdParams, i: int, rest: Seq<bool>|
            common.flags_of(v) && old(r)@ == Some(#[trigger] hrd_row_syntax(v, i).onto(rest))
                && hrd_row_syntax(
                v,
                i,
            ).fits() && v.inferred_row(i) ==> final(r)@ == Some(rest) && f.same(v, i),
        f.settled(*common),
{
    proof {
        reveal(hrd_row_syntax);
        reveal(hrd_buffers_syntax);
        reveal(sublayer_hrd_syntax);
    }
    let sub_pic: bool = common.sub_pic_hrd_params_present_flag;
    let rate = parse_hrd_rate(r);
    let n: usize = rate.cpb_cnt_minus1 as usize + 1;
    let mut nal_hrd = SublayerHrdParameters::default();
    if common.nal_hrd_parameters_present_flag {
        nal_hrd = parse_cpbs(r, n, sub_pic);
    }
    let mut vcl_hrd = SublayerHrdParameters::default();
    if common.vcl_hrd_parameters_present_flag {
        vcl_hrd = parse_cpbs(r, n, sub_pic);
    }
    HrdRow { rate, nal_hrd, vcl_hrd }
}

/// Whether the first `n` sub-layers of `s` are these.
pub open spec fn rows_fill(rows: Seq<HrdRow>, s: HrdParams, n: int) -> bool {
    forall|k: int| #![trigger rows[k]] #![trigger s.cpb_cnt_minus1@[k]] 0 <= k < n
        ==> rows[k].fills(s, k)
}

/// Whether what is coded or inferred of the first `n` sub-layers of `v` is in these.
pub open spec fn rows_same(rows: Seq<HrdRow>, v: HrdParams, n: int) -> bool {
    forall|k: int| #![trigger rows[k]] #![trigger v.cpb_cnt_minus1@[k]] 0 <= k < n
        ==> rows[k].same(v, k)
}

/// Whether the rows are consistent in themselves.
pub open spec fn rows_valid(rows: Seq<HrdRow>) -> bool {
    forall|k: int|
        0 <= k < rows.len() ==> {
            let rate = (#[trigger] rows[k]).rate;
            &&& rate.cpb_cnt_minus1 < 32
            &&& rate.fixed_pic_rate_within_cvs_flag ==> !rate.low_delay_hrd_flag
            &&& rate.fixed_pic_rate_general_flag ==> rate.fixed_pic_rate_within_cvs_flag
            &&& rate.low_delay_hrd_flag ==> rate.cpb_cnt_minus1 == 0
        }
}

/// Whether what is not coded of `n` sub-layers has its inferred or initial value.
pub open spec fn rows_settled(rows: Seq<HrdRow>, common: HrdCommon, n: int) -> bool {
    &&& forall|k: int| 0 <= k < n ==> (#[trigger] rows[k]).settled(common)
    &&& tail_is(rows, n, HrdRow::blank())
}

/// The sub-layers.
fn parse_hrd_rows(r: &mut BitReader, common: &HrdCommon, n: usize) -> (rows: [HrdRow; 7])
    requires
        old(r).inv(),
        n <= 7,
    ensures
        final(r).inv(),
        rows_valid(rows@),
        final(r)@ is Some ==> old(r)@ is Some,
        forall|s: HrdParams|
            common.flags_of(s) && rows_fill(rows@, s, n as int)
                ==> decodes(old(r)@, #[trigger] hrd_rows_from(s, 0, n as int), final(r)@),
        forall|v: HrdParams, rest: Seq<bool>|
            old(r)@ == Some(#[trigger] hrd_rows_from(v, 0, n as int).onto(rest))
                && hrd_rows_from(v, 0, n as int).fits() && common.flags_of(v) && v.inferred(n - 1)
                ==> final(r)@ == Some(rest) && rows_same(rows@, v, n as int),
        rows_settled(rows@, *common, n as int),
{
    let blank = HrdRow {
        rate: HrdRate {
            fixed_pic_rate_general_flag: false,
            fixed_pic_rate_within_cvs_flag: false,
            elemental_duration_in_tc_minus1: 0,
            low_delay_hrd_flag: false,
            cpb_cnt_minus1: 0,
        },
        nal_hrd: SublayerHrdParameters::default(),
        vcl_hrd: SublayerHrdParameters::default(),
    };
    let mut rows: [HrdRow; 7] = [blank; 7];
    let mut i: usize = 0;
    while i < n
        invariant
            i <= n <= 7,
            rows_valid(rows@),
            rows_settled(rows@, *common, i as int),
            r.inv(),
            r@ is Some ==> old(r)@ is Some,
            forall|s: HrdParams, rest: Seq<bool>|
                common.flags_of(s) && rows_fill(rows@, s, i as int)
                    && r@ == Some(hrd_rows_from(s, i as int, n as int).onto(rest))
                    ==> old(r)@
                    == Some(#[trigger] hrd_rows_from(s, 0, n as int).onto(rest)),
            forall|s: HrdParams|
                common.flags_of(s) && rows_fill(rows@, s, i as int) && r@ is Some
                    && hrd_rows_from(s, i as int, n as int).fits()
                    ==> #[trigger] hrd_rows_from(s, 0, n as int).fits(),
            forall|v: HrdParams, rest: Seq<bool>|
                old(r)@ == Some(#[trigger] hrd_rows_from(v, 0, n as int).onto(rest))
                    && hrd_rows_from(v, 0, n as int).fits() && common.flags_of(v)
                    && v.inferred(n - 1)
                    ==> r@ == Some(hrd_rows_from(v, i as int, n as int).onto(rest))
                        && hrd_rows_from(v, i as int, n as int).fits()
                        && rows_same(rows@, v, i as int),
        decreases n - i,
    {
        let ghost start = r@;
        let row = parse_hrd_row(r, common);
        let ghost before = rows@;
        rows[i] = row;
        proof {
            assert forall|s: HrdParams| #[trigger] rows_fill(rows@, s, i + 1)
                implies rows_fill(before, s, i as int)
                && row.fills(s, i as int) by {
                assert(rows@[i as int] == row);
                assert forall|k: int| 0 <= k < i implies before[k].fills(s, k) by {
                    assert(rows@[k] == before[k]);
                }
            }
            assert forall|s: HrdParams|
                common.flags_of(s) && rows_fill(rows@, s, i + 1) && r@ is Some && hrd_rows_from(
                    s,
                    i + 1,
                    n as int,
                ).fits() implies #[trigger] hrd_rows_from(s, 0, n as int).fits() by {
                assert(decodes(start, hrd_row_syntax(s, i as int), r@));
                assert(hrd_rows_from(s, i as int, n as int).fits());
            }
            assert forall|v: HrdParams| v.inferred(n - 1)
                implies #[trigger] v.inferred_row(i as int) by {
            }
        }
        i = i + 1;
    }
    rows
}

/// An array of seven values.
fn seven<T: Copy>(a: T, b: T, c: T, d: T, e: T, f: T, g: T) -> (r: [T; 7])
    ensures
        r@[0] == a,
        r@[1] == b,
        r@[2] == c,
        r@[3] == d,
        r@[4] == e,
        r@[5] == f,
        r@[6] == g,
{
    [a, b, c, d, e, f, g]
}

/// The structure that holds these fields.
fn assemble_hrd(common: &HrdCommon, rows: &[HrdRow; 7]) -> (p: HrdParams)
    ensures
        common.fills(p),
        rows_fill(rows@, p, 7),
{
    proof {
        reveal(HrdCommon::of);
    }
    let p = HrdParams {
        nal_hrd_parameters_present_flag: common.nal_hrd_parameters_present_flag,
        vcl_hrd_parameters_present_flag: common.vcl_hrd_parameters_present_flag,
        sub_pic_hrd_params_present_flag: common.sub_pic_hrd_params_present_flag,
        tick_divisor_minus2: common.tick_divisor_minus2,
        du_cpb_removal_delay_increment_length_minus1: common.du_cpb_removal_delay_increment_length_minus1,
        sub_pic_cpb_params_in_pic_timing_sei_flag: common.sub_pic_cpb_params_in_pic_timing_sei_flag,
        dpb_output_delay_du_length_minus1: common.dpb_output_delay_du_length_minus1,
        bit_rate_scale: common.bit_rate_scale,
        cpb_size_scale: common.cpb_size_scale,
        cpb_size_du_scale: common.cpb_size_du_scale,
        initial_cpb_removal_delay_length_minus1: common.initial_cpb_removal_delay_length_minus1,
        au_cpb_removal_delay_length_minus1: common.au_cpb_removal_delay_length_minus1,
        dpb_output_delay_length_minus1: common.dpb_output_delay_length_minus1,
        fixed_pic_rate_general_flag: seven(
            rows[0].rate.fixed_pic_rate_general_flag,
            rows[1].rate.fixed_pic_rate_general_flag,
            rows[2].rate.fixed_pic_rate_general_flag,
            rows[3].rate.fixed_pic_rate_general_flag,
            rows[4].rate.fixed_pic_rate_general_flag,
            rows[5].rate.fixed_pic_rate_general_flag,
            rows[6].rate.fixed_pic_rate_general_flag,
        ),
        fixed_pic_rate_within_cvs_flag: seven(
            rows[0].rate.fixed_pic_rate_within_cvs_flag,
            rows[1].rate.fixed_pic_rate_within_cvs_flag,
            rows[2].rate.fixed_pic_rate_within_cvs_flag,
            rows[3].rate.fixed_pic_rate_within_cvs_flag,
            rows[4].rate.fixed_pic_rate_within_cvs_flag,
            rows[5].rate.fixed_pic_rate_within_cvs_flag,
            rows[6].rate.fixed_pic_rate_within_cvs_flag,
        ),
        elemental_duration_in_tc_minus1: seven(
            rows[0].rate.elemental_duration_in_tc_minus1,
            rows[1].rate.elemental_duration_in_tc_minus1,
            rows[2].rate.elemental_duration_in_tc_minus1,
            rows[3].rate.elemental_duration_in_tc_minus1,
            rows[4].rate.elemental_duration_in_tc_minus1,
            rows[5].rate.elemental_duration_in_tc_minus1,
            rows[6].rate.elemental_duration_in_tc_minus1,
        ),
        low_delay_hrd_flag: seven(
            rows[0].rate.low_delay_hrd_flag,
            rows[1].rate.low_delay_hrd_flag,
            rows[2].rate.low_delay_hrd_flag,
            rows[3].rate.low_delay_hrd_flag,
            rows[4].rate.low_delay_hrd_flag,
            rows[5].rate.low_delay_hrd_flag,
            rows[6].rate.low_delay_hrd_flag,
        ),
        cpb_cnt_minus1: seven(
            rows[0].rate.cpb_cnt_minus1,
            rows[1].rate.cpb_cnt_minus1,
            rows[2].rate.cpb_cnt_minus1,
            rows[3].rate.cpb_cnt_minus1,
            rows[4].rate.cpb_cnt_minus1,
            rows[5].rate.cpb_cnt_minus1,
            rows[6].rate.cpb_cnt_minus1,
        ),
        nal_hrd: seven(
            rows[0].nal_hrd,
            rows[1].nal_hrd,
            rows[2].nal_hrd,
            rows[3].nal_hrd,
            rows[4].nal_hrd,
            rows[5].nal_hrd,
            rows[6].nal_hrd,
        ),
        vcl_hrd: seven(
            rows[0].vcl_hrd,
            rows[1].vcl_hrd,
            rows[2].vcl_hrd,
            rows[3].vcl_hrd,
            rows[4].vcl_hrd,
            rows[5].vcl_hrd,
            rows[6].vcl_hrd,
        ),
    };
    proof {
        assert forall|k: int| 0 <= k < 7 implies rows@[k].fills(p, k) by {
            if k == 0 {
            } else if k == 1 {
            } else if k == 2 {
            } else if k == 3 {
            } else if k == 4 {
            } else if k == 5 {
            } else {
            }
        }
    }
    p
}

/// Whether the fields that are coded or inferred of `v` are those of `p`.
pub open spec fn hrd_same(p: HrdParams, v: HrdParams, max_sub_layers_minus1: int) -> bool {
    &&& p.same_common(v)
    &&& forall|k: int|
        #![trigger v.cpb_cnt_minus1@[k]]
        #![trigger p.cpb_cnt_minus1@[k]]
        0 <= k <= max_sub_layers_minus1 ==> p.row(k).same(v, k)
}

impl HrdParams {
    /// Sub-layer `i`.
    pub open spec fn row(self, i: int) -> HrdRow {
        HrdRow {
            rate: HrdRate {
                fixed_pic_rate_general_flag: self.fixed_pic_rate_general_flag@[i],
                fixed_pic_rate_within_cvs_flag: self.fixed_pic_rate_within_cvs_flag@[i],
                elemental_duration_in_tc_minus1: self.elemental_duration_in_tc_minus1@[i],
                low_delay_hrd_flag: self.low_delay_hrd_flag@[i],
                cpb_cnt_minus1: self.cpb_cnt_minus1@[i],
            },
            nal_hrd: self.nal_hrd@[i],
            vcl_hrd: self.vcl_hrd@[i],
        }
    }

    /// The common information.
    pub open spec fn common(self) -> HrdCommon {
        HrdCommon {
            nal_hrd_parameters_present_flag: self.nal_hrd_parameters_present_flag,
            vcl_hrd_parameters_present_flag: self.vcl_hrd_parameters_present_flag,
            sub_pic_hrd_params_present_flag: self.sub_pic_hrd_params_present_flag,
            tick_divisor_minus2: self.tick_divisor_minus2,
            du_cpb_removal_delay_increment_length_minus1: self.du_cpb_removal_delay_increment_length_minus1,
            sub_pic_cpb_params_in_pic_timing_sei_flag: self.sub_pic_cpb_params_in_pic_timing_sei_flag,
            dpb_output_delay_du_length_minus1: self.dpb_output_delay_du_length_minus1,
            bit_rate_scale: self.bit_rate_scale,
            cpb_size_scale: self.cpb_size_scale,
            cpb_size_du_scale: self.cpb_size_du_scale,
            initial_cpb_removal_delay_length_minus1: self.initial_cpb_removal_delay_length_minus1,
            au_cpb_removal_delay_length_minus1: self.au_cpb_removal_delay_length_minus1,
            dpb_output_delay_length_minus1: self.dpb_output_delay_length_minus1,
        }
    }
}

/// Whether what is not coded of the sub-layers has its inferred or initial value.
pub open spec fn hrd_settled(p: HrdParams, max_sub_layers_minus1: int) -> bool {
    &&& forall|k: int|
        0 <= k <= max_sub_layers_minus1 ==> (#[trigger] p.row(k)).settled(p.common())
    &&& forall|k: int| max_sub_layers_minus1 < k < 7 ==> #[trigger] p.row(k) == HrdRow::blank()
}

/// Settled parameters that are the same as far as they are coded are equal.
pub proof fn lemma_hrd_equal(p: HrdParams, q: HrdParams, max_sub_layers_minus1: int)
    requires
        max_sub_layers_minus1 <= 6,
        hrd_same(q, p, max_sub_layers_minus1),
        hrd_settled(p, max_sub_layers_minus1),
        hrd_settled(q, max_sub_layers_minus1),
        p.common() == q.common(),
    ensures
        q == p,
{
    assert forall|k: int| 0 <= k < 7 implies q.row(k) == p.row(k) by {
        if k <= max_sub_layers_minus1 {
            let a = p.row(k);
            let b = q.row(k);
            let n = a.rate.cpb_cnt_minus1 + 1;
            let sub_pic = p.sub_pic_hrd_params_present_flag;
            assert(q.cpb_cnt_minus1@[k] == b.rate.cpb_cnt_minus1);
            assert(b.same(p, k));
            assert(a.settled(p.common()) && b.settled(q.common()));
            if p.nal_hrd_parameters_present_flag {
                lemma_cpbs_equal(a.nal_hrd, b.nal_hrd, sub_pic, n);
            }
            if p.vcl_hrd_parameters_present_flag {
                lemma_cpbs_equal(a.vcl_hrd, b.vcl_hrd, sub_pic, n);
            }
        }
    }
    assert forall|k: int| 0 <= k < 7 implies {
        &&& q.fixed_pic_rate_general_flag@[k] == p.fixed_pic_rate_general_flag@[k]
        &&& q.fixed_pic_rate_within_cvs_flag@[k] == p.fixed_pic_rate_within_cvs_flag@[k]
        &&& q.elemental_duration_in_tc_minus1@[k] == p.elemental_duration_in_tc_minus1@[k]
        &&& q.low_delay_hrd_flag@[k] == p.low_delay_hrd_flag@[k]
        &&& q.cpb_cnt_minus1@[k] == p.cpb_cnt_minus1@[k]
        &&& q.nal_hrd@[k] == p.nal_hrd@[k]
        &&& q.vcl_hrd@[k] == p.vcl_hrd@[k]
    } by {
        assert(q.row(k) == p.row(k));
    }
    assert(q.fixed_pic_rate_general_flag =~= p.fixed_pic_rate_general_flag);
    assert(q.fixed_pic_rate_within_cvs_flag =~= p.fixed_pic_rate_within_cvs_flag);
    assert(q.elemental_duration_in_tc_minus1 =~= p.elemental_duration_in_tc_minus1);
    assert(q.low_delay_hrd_flag =~= p.low_delay_hrd_flag);
    assert(q.cpb_cnt_minus1 =~= p.cpb_cnt_minus1);
    assert(q.nal_hrd =~= p.nal_hrd);
    assert(q.vcl_hrd =~= p.vcl_hrd);
    assert(q.common() == p.common());
}

/// `hrd_parameters( commonInfPresentFlag, maxNumSubLayersMinus1 )` (E.2.2). Without
/// the common information, that of `previous` stands.
pub(crate) fn parse_hrd_parameters(
    r: &mut BitReader,
    common_inf_present_flag: bool,
    previous: &HrdCommon,
    max_sub_layers_minus1: u8,
) -> (p: HrdParams)
    requires
        old(r).inv(),
        max_sub_layers_minus1 <= 6,
    ensures
        final(r).inv(),
        decodes(
            old(r)@,
            hrd_syntax(p, common_inf_present_flag, max_sub_layers_minus1 as int),
            final(r)@,
        ),
        p.inferred(max_sub_layers_minus1 as int),
        !common_inf_present_flag ==> p.common() == *previous,
        forall|v: HrdParams, rest: Seq<bool>|
            old(r)@ == Some(
                #[trigger] hrd_syntax(
                    v,
                    common_inf_present_flag,
                    max_sub_layers_minus1 as int,
                ).onto(rest),
            ) && hrd_syntax(v, common_inf_present_flag, max_sub_layers_minus1 as int).fits()
                && v.inferred(
                max_sub_layers_minus1 as int,
            ) && (!common_inf_present_flag ==> previous.flags_of(v))
                ==> final(r)@ == Some(rest) && hrd_same(
                p,
                v,
                max_sub_layers_minus1 as int,
            ) && (common_inf_present_flag ==> p.common().same(v)),
        hrd_settled(p, max_sub_layers_minus1 as int),
        common_inf_present_flag ==> p.common().settled(),
{
    proof {
        reveal(hrd_syntax);
        reveal(HrdCommon::of);
        reveal(HrdCommon::same);
    }
    let mut common: HrdCommon = *previous;
    if common_inf_present_flag {
        common = parse_hrd_common(r);
    }
    let n: usize = max_sub_layers_minus1 as usize + 1;
    let rows: [HrdRow; 7] = parse_hrd_rows(r, &common, n);
    let p = assemble_hrd(&common, &rows);
    proof {
        assert(p.common() == common);
        assert(common.flags_of(p));
        assert(rows_fill(rows@, p, n as int));
        assert forall|k: int| 0 <= k < 7 implies p.row(k) == #[trigger] rows@[k] by {
            assert(rows@[k].fills(p, k));
        }
        assert forall|k: int| 0 <= k < 7
            implies #[trigger] p.inferred_row(k) by {
            assert(p.row(k) == rows@[k]);
        }
    }
    p
}

} // verus!
