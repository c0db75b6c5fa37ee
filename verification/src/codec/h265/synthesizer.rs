//! An Annex B H.265 (HEVC) bitstream synthesizer.
//!
//! Emits VPS, SPS and PPS NAL units and slice segment headers, for use as
//! application-packed headers. It is the inverse of the parser: every writer follows
//! the syntax table that the corresponding parse function follows, so the output
//! round-trips through the parser.

use crate::bits::{
    bit_length, code_u, lemma_bit_length_bound, lemma_code_u_len, lemma_pow2_values, with_trailing,
};
use crate::codec::h265::tables::{
    as_unsigned, coefs_from, constraint_syntax, count_true, cpbs_from, entries_syntax, flags_from,
    has_14bit_flag, has_inbld_flag, has_one_picture_flag, has_range_flags, hrd_buffers_syntax,
    hrd_common_syntax, hrd_rate_syntax, hrd_row_syntax, hrd_rows_from, hrd_sub_pic_syntax,
    hrd_syntax, inbld_syntax, layer_sets_from, lt_row_syntax, lt_rows_from, poc_lsb_syntax,
    pps_extension_syntax, pps_filters_syntax, pps_head_syntax, pps_lists_syntax,
    pps_range_extension_syntax, pps_syntax, pps_tiles_syntax, pps_tools_syntax, profile_head_syntax,
    profile_syntax, ptl_syntax, pwt_syntax, qp_offset_list_syntax, qp_offsets_from,
    range_flags_syntax, reserved_pairs_from, rplm_syntax, s0_from, s1_from,
    scaling_list_data_syntax, scaling_list_syntax, scaling_lists_from, slice_active_syntax,
    slice_address_syntax, slice_body_syntax, slice_collocated_syntax, slice_end_syntax,
    slice_entry_points_syntax, slice_filters_syntax, slice_independent_syntax, slice_inter_syntax,
    slice_lists_syntax, slice_lt_mvp_syntax, slice_lt_syntax, slice_offsets_syntax,
    slice_prediction_syntax, slice_qp_syntax, slice_references_syntax, slice_sao_syntax,
    slice_st_syntax, slice_syntax, slice_type_syntax, spec_ceil_log2, spec_profile_match,
    sps_blocks_syntax, sps_extension_syntax, sps_format_syntax, sps_head_syntax,
    sps_long_term_syntax, sps_lt_from, sps_ordering_from, sps_ordering_syntax,
    sps_range_extension_syntax, sps_scaling_syntax, sps_short_term_syntax, sps_st_rps_from,
    sps_syntax, sps_tail_syntax, sps_tools_syntax, sps_vui_syntax, st_ref_pic_set_syntax,
    sub_layer_flags_from, sub_layer_syntax, sub_layers_from, sublayer_hrd_syntax, ues_from, us_from,
    vps_head_syntax, vps_hrds_from, vps_layers_syntax, vps_ordering_from, vps_syntax,
    vps_timing_syntax, vui_display_syntax, vui_restriction_syntax, vui_signal_syntax, vui_syntax,
    vui_timing_syntax, vui_window_syntax, weight_list_syntax, weights_from, wrapped, zero_flags,
    EXTENDED_SAR, ProfileFields,
};
use crate::codec::h265::types::{
    HrdParams, NaluType, Pps, PpsRangeExtension, PredWeightTable, ProfileTierLevel,
    RefPicListModification, ScalingLists, ShortTermRefPicSet, SliceHeader, SliceType, Sps,
    SpsRangeExtension, SublayerHrdParameters, Vps, VuiParams,
};
use crate::codec::nalu_writer::{hevc_header, payload, NaluWriter, NaluWriterError};
use crate::syntax::{
    group_append, lemma_written_after_failure, lemma_written_element, lemma_written_none,
    reserved_zero, syntax, Syntax, SyntaxElement,
};
use vstd::prelude::*;

verus! {

broadcast use group_append;

/// The structures that a NAL unit is synthesized from.
pub trait NaluStruct {

}

impl NaluStruct for Vps {

}

impl NaluStruct for Sps {

}

impl NaluStruct for Pps {

}

impl NaluStruct for SliceHeader {

}

/// Why a structure could not be synthesized.
#[derive(Clone, Copy, Debug, PartialEq, Eq, Structural)]
pub enum SynthesizerError {
    /// The structure holds a setting that is not coded here.
    Unsupported,
    /// A value could not be written.
    NaluWriter(NaluWriterError),
}

impl SynthesizerError {
    /// The characters of the description.
    pub open spec fn text(self) -> Seq<char> {
        match self {
            SynthesizerError::Unsupported => "tried to synthesize unsupported settings"@,
            SynthesizerError::NaluWriter(NaluWriterError::Overflow) =>
                "value increment caused value overflow"@,
            SynthesizerError::NaluWriter(NaluWriterError::InvalidBitCount) =>
                "invalid bit count"@,
        }
    }

    /// A description of the error.
    pub fn message(&self) -> (s: &'static str)
        ensures
            s@ == self.text(),
    {
        match self {
            SynthesizerError::Unsupported => "tried to synthesize unsupported settings",
            SynthesizerError::NaluWriter(x) => x.message(),
        }
    }
}

impl From<NaluWriterError> for SynthesizerError {
    fn from(err: NaluWriterError) -> (r: Self) {
        SynthesizerError::NaluWriter(err)
    }
}

impl vstd::std_specs::convert::FromSpecImpl<NaluWriterError> for SynthesizerError {
    open spec fn obeys_from_spec() -> bool {
        true
    }

    open spec fn from_spec(err: NaluWriterError) -> Self {
        SynthesizerError::NaluWriter(err)
    }
}

pub type SynthesizerResult<T> = Result<T, SynthesizerError>;

/// The error that an element brings which cannot be written. An element whose value is not
/// there is never met in a structure that is `writable`.
pub open spec fn element_error(e: SyntaxElement) -> SynthesizerError {
    match e {
        SyntaxElement::U { .. } => SynthesizerError::NaluWriter(NaluWriterError::InvalidBitCount),
        SyntaxElement::Ue { .. } => SynthesizerError::NaluWriter(NaluWriterError::Overflow),
        _ => SynthesizerError::Unsupported,
    }
}

/// The result of synthesizing a table: the error of its first element that cannot
/// be written, if there is one.
pub open spec fn table_result(table: Syntax) -> SynthesizerResult<()> {
    match table.failure() {
        None => Ok(()),
        Some(e) => Err(element_error(e)),
    }
}

/// The bits of a table with `rbsp_trailing_bits()`, or the bits in front of the first
/// element that cannot be written.
pub open spec fn table_bits(table: Syntax) -> Seq<bool> {
    if table.failure() is None {
        with_trailing(table.written())
    } else {
        table.written()
    }
}

/// The NAL unit of type `nalu_type` whose RBSP has the bits of a table.
pub open spec fn nalu_bytes(nalu_type: NaluType, table: Syntax, ep_enabled: bool) -> Seq<u8> {
    hevc_header(nalu_type.code(), 0, 1) + payload(ep_enabled, table_bits(table))
}

/// A helper to output typed HEVC NAL units using [`NaluWriter`].
pub struct Synthesizer<'n, N: NaluStruct> {
    writer: NaluWriter,
    nalu: &'n N,
    error: Option<SynthesizerError>,
    /// Whether the error is that of an element whose value is not there.
    missing: bool,
    trace: Ghost<Syntax>,
}

/// Whether `idc` equals any of `candidates`, or the compatibility flag of any of them
/// is set.
pub(crate) fn profile_match(idc: u8, compat: &[bool; 32], candidates: &[usize]) -> (r: bool)
    requires
        forall|k: int| 0 <= k < candidates@.len() ==> #[trigger] candidates@[k] < 32,
    ensures
        r == spec_profile_match(idc, compat@, candidates@),
{
    proof {
        reveal(spec_profile_match);
    }
    let mut k: usize = 0;
    while k < candidates.len()
        invariant
            k <= candidates@.len(),
            forall|j: int| 0 <= j < candidates@.len() ==> #[trigger] candidates@[j] < 32,
            forall|j: int|
                0 <= j < k
                    ==> !(idc as int == candidates@[j] as int
                        || compat@[#[trigger] candidates@[j] as int]),
        decreases candidates@.len() - k,
    {
        let v: usize = candidates[k];
        if idc as usize == v || compat[v] {
            proof {
                reveal(spec_profile_match);
                assert(compat@[candidates@[k as int] as int]
                    || idc as int == candidates@[k as int] as int);
            }
            return true;
        }
        k = k + 1;
    }
    false
}

/// The profiles that code the range extensions constraint flags.
pub(crate) fn codes_range_flags(idc: u8, compat: &[bool; 32]) -> (r: bool)
    ensures
        r == has_range_flags(idc, compat@),
{
    proof {
        reveal(has_range_flags);
    }
    profile_match(idc, compat, &[4, 5, 6, 7, 8, 9, 10, 11])
}

/// The profiles that code `max_14bit_constraint_flag`.
pub(crate) fn codes_14bit_flag(idc: u8, compat: &[bool; 32]) -> (r: bool)
    ensures
        r == has_14bit_flag(idc, compat@),
{
    proof {
        reveal(has_14bit_flag);
    }
    profile_match(idc, compat, &[5, 9, 10, 11])
}

/// The profiles that code `one_picture_only_constraint_flag` alone.
pub(crate) fn codes_one_picture_flag(idc: u8, compat: &[bool; 32]) -> (r: bool)
    ensures
        r == has_one_picture_flag(idc, compat@),
{
    proof {
        reveal(has_one_picture_flag);
        assert([2usize]@ =~= seq![2usize]);
    }
    profile_match(idc, compat, &[2])
}

/// The profiles that code `inbld_flag`.
pub(crate) fn codes_inbld_flag(idc: u8, compat: &[bool; 32]) -> (r: bool)
    ensures
        r == has_inbld_flag(idc, compat@),
{
    proof {
        reveal(has_inbld_flag);
    }
    profile_match(idc, compat, &[1, 2, 3, 4, 5, 9, 11])
}

/// `Ceil(Log2(n))`, the width of a field that tells `n` values apart.
pub(crate) fn ceil_log2(n: u32) -> (bits: usize)
    ensures
        bits == spec_ceil_log2(n as int),
        bits <= 32,
{
    if n <= 1 {
        return 0;
    }
    let mut rest: u32 = n - 1;
    let mut bits: usize = 0;
    proof {
        lemma_pow2_values();
        lemma_bit_length_bound((n - 1) as nat, 32);
    }
    while rest > 0
        invariant
            bits + bit_length(rest as nat) == bit_length((n - 1) as nat),
            bit_length((n - 1) as nat) <= 32,
            n >= 2,
        decreases rest,
    {
        rest = rest / 2;
        bits = bits + 1;
    }
    bits
}

impl<'n, N: NaluStruct> Synthesizer<'n, N> {
    /// The elements handed to the synthesizer so far.
    closed spec fn trace(&self) -> Syntax {
        self.trace@
    }

    /// The writer holds what can be written of the elements, and the error is that of
    /// the first one that cannot.
    closed spec fn inv(&self) -> bool {
        &&& self.writer.inv()
        &&& self.writer.bits() == self.trace@.written()
        &&& self.error == match self.trace@.failure() {
            None => None,
            Some(e) => Some(element_error(e)),
        }
        &&& self.missing == (self.trace@.failure() == Some(SyntaxElement::Missing))
    }

    /// Whether `self` is `before` with the elements of `table` handed over.
    spec fn follows(&self, before: &Self, table: Syntax) -> bool {
        &&& self.inv()
        &&& self.trace() == before.trace().part(table)
        &&& self.nalu == before.nalu
        &&& self.writer.head() == before.writer.head()
        &&& self.writer.ep_enabled() == before.writer.ep_enabled()
    }

    /// Whether `self` is on its way from `before` to the end of `table`, with the
    /// elements of `left` still to come.
    spec fn heads_for(&self, before: &Self, left: Syntax, table: Syntax) -> bool {
        &&& self.inv()
        &&& self.trace().part(left) == before.trace().part(table)
        &&& self.nalu == before.nalu
        &&& self.writer.head() == before.writer.head()
        &&& self.writer.ep_enabled() == before.writer.ep_enabled()
    }

    /// A synthesizer that has written the NAL unit header.
    fn start(nalu: &'n N, nalu_type: NaluType, ep_enabled: bool) -> (s: Self)
        ensures
            s.inv(),
            s.trace() == syntax(),
            s.nalu == nalu,
            s.writer.head() == hevc_header(nalu_type.code(), 0, 1),
            s.writer.ep_enabled() == ep_enabled,
    {
        proof {
            lemma_written_none();
        }
        let mut writer = NaluWriter::new(ep_enabled);
        writer.write_header_hevc(nalu_type.to_u8(), 0, 1);
        proof {
            let h = hevc_header(nalu_type.code(), 0, 1);
            assert(Seq::<u8>::empty() + h =~= h);
        }
        Synthesizer { writer, nalu, error: None, missing: false, trace: Ghost(syntax()) }
    }

    /// Ends the NAL unit and appends it to `out`.
    fn finish(self, out: &mut Vec<u8>) -> (r: SynthesizerResult<()>)
        requires
            self.inv(),
        ensures
            r == table_result(self.trace()),
            final(out)@ == old(out)@ + (self.writer.head() + payload(
                self.writer.ep_enabled(),
                table_bits(self.trace()),
            )),
    {
        let mut s = self;
        if s.error.is_none() {
            s.rbsp_trailing_bits();
        }
        let error = s.error;
        let mut bytes = s.writer.into_bytes();
        out.append(&mut bytes);
        match error {
            None => Ok(()),
            Some(e) => Err(e),
        }
    }

    fn rbsp_trailing_bits(&mut self)
        requires
            old(self).inv(),
        ensures
            final(self).writer.inv(),
            final(self).writer.bits() == with_trailing(old(self).writer.bits()),
            final(self).writer.head() == old(self).writer.head(),
            final(self).writer.ep_enabled() == old(self).writer.ep_enabled(),
            final(self).error == old(self).error,
    {
        let ghost bits = self.writer.bits();
        self.writer.write_bit(true);
        let ghost mut k: nat = 0;
        let ghost n = bits.len() + 1;
        proof {
            assert(self.writer.bits() =~= bits.push(true) + code_u(0, 0));
        }
        while !self.writer.aligned()
            invariant
                self.writer.inv(),
                n == bits.len() + 1,
                self.writer.bits() == bits.push(true) + code_u(k, 0),
                k <= (8 - n % 8) % 8,
                self.writer.head() == old(self).writer.head(),
                self.writer.ep_enabled() == old(self).writer.ep_enabled(),
                self.error == old(self).error,
            ensures
                self.writer.bits().len() % 8 == 0,
            decreases 8 - k,
        {
            proof {
                lemma_code_u_len(k, 0);
                assert(code_u(k + 1, 0) == code_u(k, 0).push(false));
                assert((bits.push(true) + code_u(k, 0)).push(false) =~= bits.push(true) + code_u(k + 1, 0));
            }
            self.writer.write_bit(false);
            proof {
                k = k + 1;
            }
        }
        proof {
            lemma_code_u_len(k, 0);
        }
    }

    /// Hands over elements behind one that could not be written.
    fn skip(&mut self, Ghost(table): Ghost<Syntax>)
        requires
            old(self).inv(),
            old(self).error is Some,
        ensures
            final(self).follows(old(self), table),
            final(self).error is Some,
    {
        proof {
            lemma_written_after_failure(self.trace@, table);
        }
        self.trace = Ghost(self.trace@.part(table));
    }

    /// Writes the `bits` low bits of `value`.
    fn u(&mut self, bits: usize, value: u32)
        requires
            old(self).inv(),
        ensures
            final(self).follows(old(self), syntax().u(bits as int, value as int)),
            bits > 32 || old(self).error is Some ==> final(self).error is Some,
    {
        proof {
            lemma_written_element(self.trace@, crate::syntax::u(bits as int, value as int));
        }
        if self.error.is_none() {
            if let Err(e) = self.writer.write_u(bits, value) {
                self.error = Some(SynthesizerError::NaluWriter(e));
            }
        }
        self.trace = Ghost(self.trace@.u(bits as int, value as int));
    }

    /// Writes the `bits` low bits of `value`.
    fn f(&mut self, bits: usize, value: u32)
        requires
            old(self).inv(),
        ensures
            final(self).follows(old(self), syntax().u(bits as int, value as int)),
    {
        self.u(bits, value)
    }

    /// Writes a flag.
    fn flag(&mut self, value: bool)
        requires
            old(self).inv(),
        ensures
            final(self).follows(old(self), syntax().flag(value)),
            old(self).error is Some ==> final(self).error is Some,
    {
        self.u(1, if value { 1 } else { 0 })
    }

    /// Writes an unsigned Exp-Golomb code.
    fn ue(&mut self, value: u32)
        requires
            old(self).inv(),
        ensures
            final(self).follows(old(self), syntax().ue(value as int)),
    {
        proof {
            lemma_written_element(self.trace@, crate::syntax::ue(value as int));
        }
        if self.error.is_none() {
            if let Err(e) = self.writer.write_ue(value) {
                self.error = Some(SynthesizerError::NaluWriter(e));
            }
        }
        self.trace = Ghost(self.trace@.ue(value as int));
    }

    /// Writes a signed Exp-Golomb code.
    fn se(&mut self, value: i32)
        requires
            old(self).inv(),
            value > i32::MIN,
        ensures
            final(self).follows(old(self), syntax().se(value as int)),
    {
        proof {
            lemma_written_element(self.trace@, crate::syntax::se(value as int));
        }
        if self.error.is_none() {
            if let Err(e) = self.writer.write_se(value) {
                self.error = Some(SynthesizerError::NaluWriter(e));
            }
        }
        self.trace = Ghost(self.trace@.se(value as int));
    }

    /// Refuses a structure that is not coded here.
    fn unsupported(&mut self)
        requires
            old(self).inv(),
        ensures
            final(self).follows(old(self), syntax().unsupported()),
            final(self).error is Some,
    {
        proof {
            lemma_written_element(self.trace@, SyntaxElement::Unsupported);
        }
        if self.error.is_none() {
            self.error = Some(SynthesizerError::Unsupported);
        }
        self.trace = Ghost(self.trace@.unsupported());
    }

    /// Stops at an element whose value is not there.
    fn missing(&mut self)
        requires
            old(self).inv(),
        ensures
            final(self).follows(old(self), syntax().missing()),
            final(self).error is Some,
    {
        proof {
            lemma_written_element(self.trace@, SyntaxElement::Missing);
        }
        if self.error.is_none() {
            self.error = Some(SynthesizerError::Unsupported);
            self.missing = true;
        }
        self.trace = Ghost(self.trace@.missing());
    }

    /// Writes `bits` reserved zero bits.
    fn reserved_zero(&mut self, bits: usize)
        requires
            old(self).inv(),
        ensures
            final(self).follows(old(self), reserved_zero(bits as int)),
    {
        let mut left: usize = bits;
        while left > 0
            invariant
                self.heads_for(old(self), reserved_zero(left as int), reserved_zero(bits as int)),
            decreases left,
        {
            proof {
                reveal_with_fuel(reserved_zero, 2);
            }
            let n: usize = if left < 32 { left } else { 32 };
            self.f(n, 0);
            left = left - n;
        }
    }

    /// Writes the flags of an array.
    fn flags(&mut self, flags: &[bool], n: usize)
        requires
            old(self).inv(),
            n <= flags@.len(),
        ensures
            final(self).follows(old(self), flags_from(flags@, 0, n as int)),
    {
        let mut i: usize = 0;
        while i < n
            invariant
                i <= n <= flags@.len(),
                self.heads_for(
                    old(self),
                    flags_from(flags@, i as int, n as int),
                    flags_from(flags@, 0, n as int),
                ),
            decreases n - i,
        {
            self.flag(flags[i]);
            i = i + 1;
        }
    }

    /// The flags that constrain the range extensions profiles.
    fn range_flags(&mut self, p: &ProfileFields)
        requires
            old(self).inv(),
        ensures
            final(self).follows(old(self), range_flags_syntax(*p)),
    {
        proof {
            reveal(range_flags_syntax);
        }
        self.flag(p.max_12bit_constraint_flag);
        self.flag(p.max_10bit_constraint_flag);
        self.flag(p.max_8bit_constraint_flag);
        self.flag(p.max_422chroma_constraint_flag);
        self.flag(p.max_420chroma_constraint_flag);
        self.flag(p.max_monochrome_constraint_flag);
        self.flag(p.intra_constraint_flag);
        self.flag(p.one_picture_only_constraint_flag);
        self.flag(p.lower_bit_rate_constraint_flag);
    }

    /// The 43 bits of constraint flags.
    fn constraint_flags(&mut self, p: &ProfileFields)
        requires
            old(self).inv(),
        ensures
            final(self).follows(old(self), constraint_syntax(*p)),
    {
        proof {
            reveal(constraint_syntax);
        }
        let idc: u8 = p.profile_idc;
        let compat = &p.profile_compatibility_flag;
        if codes_range_flags(idc, compat) {
            self.range_flags(p);
            if codes_14bit_flag(idc, compat) {
                self.flag(p.max_14bit_constraint_flag);
                self.reserved_zero(33);
            } else {
                self.reserved_zero(34);
            }
        } else if codes_one_picture_flag(idc, compat) {
            self.reserved_zero(7);
            self.flag(p.one_picture_only_constraint_flag);
            self.reserved_zero(35);
        } else {
            self.reserved_zero(43);
        }
    }

    /// `general_inbld_flag`, or the reserved bit in its place.
    fn inbld_flag(&mut self, p: &ProfileFields)
        requires
            old(self).inv(),
        ensures
            final(self).follows(old(self), inbld_syntax(*p)),
    {
        proof {
            reveal(inbld_syntax);
        }
        if codes_inbld_flag(p.profile_idc, &p.profile_compatibility_flag) {
            self.flag(p.inbld_flag);
        } else {
            self.reserved_zero(1);
        }
    }

    /// The profile fields of one layer.
    fn profile_fields(&mut self, p: &ProfileFields)
        requires
            old(self).inv(),
        ensures
            final(self).follows(old(self), profile_syntax(*p)),
    {
        proof {
            reveal(profile_syntax);
            reveal(profile_head_syntax);
        }
        self.u(2, p.profile_space as u32);
        self.flag(p.tier_flag);
        self.u(5, p.profile_idc as u32);
        self.flags(&p.profile_compatibility_flag, 32);
        self.flag(p.progressive_source_flag);
        self.flag(p.interlaced_source_flag);
        self.flag(p.non_packed_constraint_flag);
        self.flag(p.frame_only_constraint_flag);
        self.constraint_flags(p);
        self.inbld_flag(p);
    }

    /// `profile_tier_level()` (7.3.3).
    fn profile_tier_level(
        &mut self,
        ptl: &ProfileTierLevel,
        profile_present_flag: bool,
        max_sub_layers_minus1: u8,
    )
        requires
            old(self).inv(),
        ensures
            final(self).follows(
                old(self),
                ptl_syntax(*ptl, profile_present_flag, max_sub_layers_minus1 as int),
            ),
            max_sub_layers_minus1 > 6 ==> final(self).error is Some,
    {
        proof {
            reveal(ptl_syntax);
        }
        if max_sub_layers_minus1 > 6 {
            self.missing();
            return;
        }
        let n: usize = max_sub_layers_minus1 as usize;
        if profile_present_flag {
            self.profile_fields(&ptl.general_fields());
        }
        self.u(8, ptl.general_level_idc.to_u8() as u32);
        let ghost start = *self;
        let mut i: usize = 0;
        while i < n
            invariant
                i <= n <= 6,
                self.heads_for(
                    &start,
                    sub_layer_flags_from(*ptl, i as int, n as int),
                    sub_layer_flags_from(*ptl, 0, n as int),
                ),
            decreases n - i,
        {
            self.flag(ptl.sub_layer_profile_present_flag[i]);
            self.flag(ptl.sub_layer_level_present_flag[i]);
            i = i + 1;
        }
        if n > 0 {
            let ghost start = *self;
            let mut i: usize = n;
            while i < 8
                invariant
                    i <= 8,
                    self.heads_for(
                        &start,
                        reserved_pairs_from(i as int),
                        reserved_pairs_from(n as int),
                    ),
                decreases 8 - i,
            {
                self.reserved_zero(2);
                i = i + 1;
            }
        }
        let ghost start = *self;
        let mut i: usize = 0;
        while i < n
            invariant
                i <= n <= 6,
                self.heads_for(
                    &start,
                    sub_layers_from(*ptl, i as int, n as int),
                    sub_layers_from(*ptl, 0, n as int),
                ),
            decreases n - i,
        {
            proof {
                reveal(sub_layer_syntax);
            }
            if ptl.sub_layer_profile_present_flag[i] {
                self.profile_fields(&ptl.sub_layer_fields(i));
            }
            if ptl.sub_layer_level_present_flag[i] {
                self.u(8, ptl.sub_layer_level_idc[i].to_u8() as u32);
            }
            i = i + 1;
        }
    }

    /// The coefficients of one scaling list.
    fn scaling_coefs(&mut self, list: &[u8], first: i32, n: usize)
        requires
            old(self).inv(),
            n <= list@.len(),
            -0x10000 <= first <= 0x10000,
        ensures
            final(self).follows(old(self), coefs_from(list@, first as int, 0, n as int)),
    {
        let mut next_coef: i32 = first;
        let mut i: usize = 0;
        while i < n
            invariant
                i <= n <= list@.len(),
                -0x10000 <= next_coef <= 0x10000,
                self.heads_for(
                    old(self),
                    coefs_from(list@, next_coef as int, i as int, n as int),
                    coefs_from(list@, first as int, 0, n as int),
                ),
            decreases n - i,
        {
            let coef: i32 = list[i] as i32;
            // Invert `(next_coef + delta + 256) % 256 == coef`, choosing the
            // representative `delta` in -128..=127.
            let delta: i32 = wrapped_delta(coef - next_coef);
            self.se(delta);
            next_coef = coef;
            i = i + 1;
        }
    }

    /// One scaling list, in explicit form.
    fn scaling_list(&mut self, sl: &ScalingLists, size_id: usize, matrix_id: usize)
        requires
            old(self).inv(),
            size_id < 4,
            matrix_id < 6,
        ensures
            final(self).follows(old(self), scaling_list_syntax(*sl, size_id as int, matrix_id as int)),
    {
        proof {
            reveal(scaling_list_syntax);
        }
        // scaling_list_pred_mode_flag
        self.flag(true);
        if size_id == 0 {
            self.scaling_coefs(&sl.scaling_list_4x4[matrix_id], 8, 16);
        } else if size_id == 1 {
            self.scaling_coefs(&sl.scaling_list_8x8[matrix_id], 8, 64);
        } else if size_id == 2 {
            let dc: i16 = sl.scaling_list_dc_coef_minus8_16x16[matrix_id];
            self.se(dc as i32);
            self.scaling_coefs(&sl.scaling_list_16x16[matrix_id], dc as i32 + 8, 64);
        } else {
            let dc: i16 = sl.scaling_list_dc_coef_minus8_32x32[matrix_id];
            self.se(dc as i32);
            self.scaling_coefs(&sl.scaling_list_32x32[matrix_id], dc as i32 + 8, 64);
        }
    }

    /// `scaling_list_data()` (7.3.4). Always emitted in explicit form, which
    /// round-trips any coefficients.
    fn scaling_list_data(&mut self, sl: &ScalingLists)
        requires
            old(self).inv(),
        ensures
            final(self).follows(old(self), scaling_list_data_syntax(*sl)),
    {
        proof {
            reveal(scaling_list_data_syntax);
        }
        let mut size_id: usize = 0;
        while size_id < 4
            invariant
                size_id <= 4,
                self.heads_for(
                    old(self),
                    scaling_lists_from(*sl, size_id as int, 0),
                    scaling_lists_from(*sl, 0, 0),
                ),
            decreases 4 - size_id,
        {
            let mut matrix_id: usize = 0;
            while matrix_id < 6
                invariant
                    size_id < 4,
                    matrix_id <= 6,
                    self.heads_for(
                        old(self),
                        scaling_lists_from(*sl, size_id as int, matrix_id as int),
                        scaling_lists_from(*sl, 0, 0),
                    ),
                    size_id == 3 ==> matrix_id % 3 == 0,
                decreases 6 - matrix_id,
            {
                self.scaling_list(sl, size_id, matrix_id);
                matrix_id = matrix_id + if size_id == 3 { 3 } else { 1 };
            }
            size_id = size_id + 1;
        }
    }

    /// `st_ref_pic_set( stRpsIdx )` (7.3.7). Only the explicit form is written.
    fn short_term_ref_pic_set(&mut self, st: &ShortTermRefPicSet, st_rps_idx: u8)
        requires
            old(self).inv(),
        ensures
            final(self).follows(old(self), st_ref_pic_set_syntax(*st, st_rps_idx as int)),
    {
        proof {
            reveal(st_ref_pic_set_syntax);
        }
        if st_rps_idx != 0 {
            self.flag(st.inter_ref_pic_set_prediction_flag);
        }
        if st.inter_ref_pic_set_prediction_flag {
            self.unsupported();
            return;
        }
        let n: usize = st.num_negative_pics as usize;
        let m: usize = st.num_positive_pics as usize;
        self.ue(st.num_negative_pics as u32);
        self.ue(st.num_positive_pics as u32);
        let ghost start = *self;
        let mut i: usize = 0;
        while i < n
            invariant
                i <= n,
                self.heads_for(&start, s0_from(*st, i as int, n as int), s0_from(*st, 0, n as int)),
            decreases n - i,
        {
            let distance: i64 = if i >= 16 {
                0
            } else if i == 0 {
                -(st.delta_poc_s0[0] as i64)
            } else {
                st.delta_poc_s0[i - 1] as i64 - st.delta_poc_s0[i] as i64
            };
            if i >= 16 || distance <= -0x8000_0000 || distance > 0x7fff_ffff {
                self.missing();
                i = n;
            } else {
                self.ue(to_unsigned((distance - 1) as i32));
                self.flag(st.used_by_curr_pic_s0[i]);
                i = i + 1;
            }
        }
        let ghost start = *self;
        let mut i: usize = 0;
        while i < m
            invariant
                i <= m,
                self.heads_for(&start, s1_from(*st, i as int, m as int), s1_from(*st, 0, m as int)),
            decreases m - i,
        {
            let distance: i64 = if i >= 16 {
                0
            } else if i == 0 {
                st.delta_poc_s1[0] as i64
            } else {
                st.delta_poc_s1[i] as i64 - st.delta_poc_s1[i - 1] as i64
            };
            if i >= 16 || distance <= -0x8000_0000 || distance > 0x7fff_ffff {
                self.missing();
                i = m;
            } else {
                self.ue(to_unsigned((distance - 1) as i32));
                self.flag(st.used_by_curr_pic_s1[i]);
                i = i + 1;
            }
        }
    }

    /// `sub_layer_hrd_parameters( subLayerId )` (E.2.3).
    fn sublayer_hrd_parameters(
        &mut self,
        h: &SublayerHrdParameters,
        cpb_cnt_minus1: u32,
        sub_pic_hrd_params_present_flag: bool,
    )
        requires
            old(self).inv(),
        ensures
            final(self).follows(
                old(self),
                sublayer_hrd_syntax(*h, cpb_cnt_minus1 + 1, sub_pic_hrd_params_present_flag),
            ),
    {
        proof {
            reveal(sublayer_hrd_syntax);
        }
        if cpb_cnt_minus1 == u32::MAX {
            self.missing();
            return;
        }
        let n: usize = (cpb_cnt_minus1 + 1) as usize;
        let sub_pic = sub_pic_hrd_params_present_flag;
        let mut i: usize = 0;
        while i < n && i < 32
            invariant
                i <= n,
                i <= 32,
                self.heads_for(
                    old(self),
                    cpbs_from(*h, sub_pic, i as int, n as int),
                    cpbs_from(*h, sub_pic, 0, n as int),
                ),
            decreases n - i,
        {
            self.ue(h.bit_rate_value_minus1[i]);
            self.ue(h.cpb_size_value_minus1[i]);
            if sub_pic {
                self.ue(h.cpb_size_du_value_minus1[i]);
                self.ue(h.bit_rate_du_value_minus1[i]);
            }
            self.flag(h.cbr_flag[i]);
            i = i + 1;
        }
        if i < n {
            self.missing();
        }
    }

    /// The common information of `hrd_parameters()`.
    fn hrd_common(&mut self, hrd: &HrdParams)
        requires
            old(self).inv(),
        ensures
            final(self).follows(old(self), hrd_common_syntax(*hrd)),
    {
        proof {
            reveal(hrd_common_syntax);
            reveal(hrd_sub_pic_syntax);
        }
        self.flag(hrd.nal_hrd_parameters_present_flag);
        self.flag(hrd.vcl_hrd_parameters_present_flag);
        if hrd.nal_hrd_parameters_present_flag || hrd.vcl_hrd_parameters_present_flag {
            self.flag(hrd.sub_pic_hrd_params_present_flag);
            if hrd.sub_pic_hrd_params_present_flag {
                self.u(8, hrd.tick_divisor_minus2 as u32);
                self.u(5, hrd.du_cpb_removal_delay_increment_length_minus1 as u32);
                self.flag(hrd.sub_pic_cpb_params_in_pic_timing_sei_flag);
                self.u(5, hrd.dpb_output_delay_du_length_minus1 as u32);
            }
            self.u(4, hrd.bit_rate_scale as u32);
            self.u(4, hrd.cpb_size_scale as u32);
            if hrd.sub_pic_hrd_params_present_flag {
                self.u(4, hrd.cpb_size_du_scale as u32);
            }
            self.u(5, hrd.initial_cpb_removal_delay_length_minus1 as u32);
            self.u(5, hrd.au_cpb_removal_delay_length_minus1 as u32);
            self.u(5, hrd.dpb_output_delay_length_minus1 as u32);
        }
    }

    /// `hrd_parameters( commonInfPresentFlag, maxNumSubLayersMinus1 )` (E.2.2).
    fn hrd_parameters(
        &mut self,
        hrd: &HrdParams,
        common_inf_present_flag: bool,
        max_num_sublayers_minus1: u8,
    )
        requires
            old(self).inv(),
            max_num_sublayers_minus1 <= 6,
        ensures
            final(self).follows(
                old(self),
                hrd_syntax(*hrd, common_inf_present_flag, max_num_sublayers_minus1 as int),
            ),
    {
        proof {
            reveal(hrd_syntax);
        }
        if common_inf_present_flag {
            self.hrd_common(hrd);
        }
        let n: usize = max_num_sublayers_minus1 as usize + 1;
        let ghost start = *self;
        let mut i: usize = 0;
        while i < n
            invariant
                i <= n <= 7,
                n == max_num_sublayers_minus1 + 1,
                self.heads_for(
                    &start,
                    hrd_rows_from(*hrd, i as int, n as int),
                    hrd_rows_from(*hrd, 0, n as int),
                ),
            decreases n - i,
        {
            proof {
                reveal(hrd_row_syntax);
                reveal(hrd_rate_syntax);
                reveal(hrd_buffers_syntax);
            }
            self.flag(hrd.fixed_pic_rate_general_flag[i]);
            // When the rate is fixed in general, it is inferred to be fixed within the
            // sequence, and the branch below uses the inferred value.
            let within_cvs = if !hrd.fixed_pic_rate_general_flag[i] {
                self.flag(hrd.fixed_pic_rate_within_cvs_flag[i]);
                hrd.fixed_pic_rate_within_cvs_flag[i]
            } else {
                true
            };
            if within_cvs {
                self.ue(hrd.elemental_duration_in_tc_minus1[i]);
            } else {
                self.flag(hrd.low_delay_hrd_flag[i]);
            }
            if !hrd.low_delay_hrd_flag[i] {
                self.ue(hrd.cpb_cnt_minus1[i]);
            }
            if hrd.nal_hrd_parameters_present_flag {
                self.sublayer_hrd_parameters(
                    &hrd.nal_hrd[i],
                    hrd.cpb_cnt_minus1[i],
                    hrd.sub_pic_hrd_params_present_flag,
                );
            }
            if hrd.vcl_hrd_parameters_present_flag {
                self.sublayer_hrd_parameters(
                    &hrd.vcl_hrd[i],
                    hrd.cpb_cnt_minus1[i],
                    hrd.sub_pic_hrd_params_present_flag,
                );
            }
            i = i + 1;
        }
    }

    /// `vui_parameters()` (E.2.1).
    fn vui_parameters(&mut self, vui: &VuiParams, sps_max_sub_layers_minus1: u8)
        requires
            old(self).inv(),
            sps_max_sub_layers_minus1 <= 6,
        ensures
            final(self).follows(old(self), vui_syntax(*vui, sps_max_sub_layers_minus1 as int)),
    {
        proof {
            reveal(vui_syntax);
            reveal(vui_timing_syntax);
            reveal(vui_restriction_syntax);
        }
        self.vui_picture(vui);
        self.flag(vui.timing_info_present_flag);
        if vui.timing_info_present_flag {
            self.u(32, vui.num_units_in_tick);
            self.u(32, vui.time_scale);
            self.flag(vui.poc_proportional_to_timing_flag);
            if vui.poc_proportional_to_timing_flag {
                self.ue(vui.num_ticks_poc_diff_one_minus1);
            }
            self.flag(vui.hrd_parameters_present_flag);
            if vui.hrd_parameters_present_flag {
                self.hrd_parameters(&vui.hrd, true, sps_max_sub_layers_minus1);
            }
        }
        self.flag(vui.bitstream_restriction_flag);
        if vui.bitstream_restriction_flag {
            self.flag(vui.tiles_fixed_structure_flag);
            self.flag(vui.motion_vectors_over_pic_boundaries_flag);
            self.flag(vui.restricted_ref_pic_lists_flag);
            self.ue(vui.min_spatial_segmentation_idc);
            self.ue(vui.max_bytes_per_pic_denom);
            self.ue(vui.max_bits_per_min_cu_denom);
            self.ue(vui.log2_max_mv_length_horizontal);
            self.ue(vui.log2_max_mv_length_vertical);
        }
    }

    /// What `vui_parameters()` says of the picture.
    fn vui_picture(&mut self, vui: &VuiParams)
        requires
            old(self).inv(),
        ensures
            final(self).follows(
                old(self),
                vui_display_syntax(*vui).part(vui_signal_syntax(*vui)).part(vui_window_syntax(*vui)),
            ),
    {
        proof {
            reveal(vui_display_syntax);
            reveal(vui_signal_syntax);
            reveal(vui_window_syntax);
        }
        self.flag(vui.aspect_ratio_info_present_flag);
        if vui.aspect_ratio_info_present_flag {
            self.u(8, vui.aspect_ratio_idc);
            if vui.aspect_ratio_idc == EXTENDED_SAR {
                self.u(16, vui.sar_width);
                self.u(16, vui.sar_height);
            }
        }
        self.flag(vui.overscan_info_present_flag);
        if vui.overscan_info_present_flag {
            self.flag(vui.overscan_appropriate_flag);
        }
        self.flag(vui.video_signal_type_present_flag);
        if vui.video_signal_type_present_flag {
            self.u(3, vui.video_format as u32);
            self.flag(vui.video_full_range_flag);
            self.flag(vui.colour_description_present_flag);
            if vui.colour_description_present_flag {
                self.u(8, vui.colour_primaries);
                self.u(8, vui.transfer_characteristics);
                self.u(8, vui.matrix_coeffs);
            }
        }
        self.flag(vui.chroma_loc_info_present_flag);
        if vui.chroma_loc_info_present_flag {
            self.ue(vui.chroma_sample_loc_type_top_field);
            self.ue(vui.chroma_sample_loc_type_bottom_field);
        }
        self.flag(vui.neutral_chroma_indication_flag);
        self.flag(vui.field_seq_flag);
        self.flag(vui.frame_field_info_present_flag);
        self.flag(vui.default_display_window_flag);
        if vui.default_display_window_flag {
            self.ue(vui.def_disp_win_left_offset);
            self.ue(vui.def_disp_win_right_offset);
            self.ue(vui.def_disp_win_top_offset);
            self.ue(vui.def_disp_win_bottom_offset);
        }
    }

    /// `sps_range_extension()` (7.3.2.2.2).
    fn sps_range_extension(&mut self, ext: &SpsRangeExtension)
        requires
            old(self).inv(),
        ensures
            final(self).follows(old(self), sps_range_extension_syntax(*ext)),
    {
        proof {
            reveal(sps_range_extension_syntax);
        }
        self.flag(ext.transform_skip_rotation_enabled_flag);
        self.flag(ext.transform_skip_context_enabled_flag);
        self.flag(ext.implicit_rdpcm_enabled_flag);
        self.flag(ext.explicit_rdpcm_enabled_flag);
        self.flag(ext.extended_precision_processing_flag);
        self.flag(ext.intra_smoothing_disabled_flag);
        self.flag(ext.high_precision_offsets_enabled_flag);
        self.flag(ext.persistent_rice_adaptation_enabled_flag);
        self.flag(ext.cabac_bypass_alignment_enabled_flag);
    }

    /// Writes values of an array as Exp-Golomb codes.
    fn ues(&mut self, values: &[u32], n: usize)
        requires
            old(self).inv(),
        ensures
            final(self).follows(old(self), ues_from(values@, 0, n as int)),
    {
        let mut i: usize = 0;
        while i < n && i < values.len()
            invariant
                i <= n,
                i <= values@.len(),
                self.heads_for(
                    old(self),
                    ues_from(values@, i as int, n as int),
                    ues_from(values@, 0, n as int),
                ),
            decreases n - i,
        {
            self.ue(values[i]);
            i = i + 1;
        }
        if i < n {
            self.missing();
        }
    }

    /// Writes the `bits` low bits of each value of an array.
    fn us(&mut self, bits: usize, values: &[u32], n: usize)
        requires
            old(self).inv(),
            n <= values@.len(),
        ensures
            final(self).follows(old(self), us_from(bits as int, values@, 0, n as int)),
    {
        let mut i: usize = 0;
        while i < n
            invariant
                i <= n <= values@.len(),
                self.heads_for(
                    old(self),
                    us_from(bits as int, values@, i as int, n as int),
                    us_from(bits as int, values@, 0, n as int),
                ),
            decreases n - i,
        {
            self.u(bits, values[i]);
            i = i + 1;
        }
    }
}

impl<'n> Synthesizer<'n, Vps> {
    /// Synthesizes a complete VPS NAL unit (start code, two-byte NAL header and RBSP)
    /// and appends it to `writer`.
    pub fn synthesize(
        vps: &'n Vps,
        writer: &mut Vec<u8>,
        ep_enabled: bool,
    ) -> (r: SynthesizerResult<()>)
        requires
            vps.writable(),
        ensures
            r == table_result(vps_syntax(*vps)),
            final(writer)@ == old(writer)@ + nalu_bytes(NaluType::VpsNut, vps_syntax(*vps), ep_enabled),
    {
        let mut s = Self::start(vps, NaluType::VpsNut, ep_enabled);
        s.video_parameter_set_rbsp();
        proof {
            lemma_syntax_part(vps_syntax(*vps));
        }
        s.finish(writer)
    }

    /// `video_parameter_set_rbsp()` (7.3.2.1).
    fn video_parameter_set_rbsp(&mut self)
        requires
            old(self).inv(),
        ensures
            final(self).follows(old(self), vps_syntax(*old(self).nalu)),
    {
        proof {
            reveal(vps_syntax);
            reveal(vps_head_syntax);
            reveal(vps_timing_syntax);
        }
        let vps = self.nalu;
        self.u(4, vps.video_parameter_set_id as u32);
        self.flag(vps.base_layer_internal_flag);
        self.flag(vps.base_layer_available_flag);
        self.u(6, vps.max_layers_minus1 as u32);
        self.u(3, vps.max_sub_layers_minus1 as u32);
        self.flag(vps.temporal_id_nesting_flag);
        // vps_reserved_0xffff_16bits
        self.u(16, 0xffff);
        self.profile_tier_level(&vps.profile_tier_level, true, vps.max_sub_layers_minus1);
        if vps.max_sub_layers_minus1 > 6 {
            let ghost rest = vps_layers_syntax(*vps).part(vps_timing_syntax(*vps)).flag(
                vps.extension_flag,
            );
            self.skip(Ghost(rest));
            return;
        }
        self.vps_layers(vps);
        self.flag(vps.timing_info_present_flag);
        if vps.timing_info_present_flag {
            self.u(32, vps.num_units_in_tick);
            self.u(32, vps.time_scale);
            self.flag(vps.poc_proportional_to_timing_flag);
            if vps.poc_proportional_to_timing_flag {
                self.ue(vps.num_ticks_poc_diff_one_minus1);
            }
            self.ue(vps.num_hrd_parameters);
            self.vps_hrds(vps);
        }
        self.flag(vps.extension_flag);
    }

    /// The sub-layer ordering information and the layer sets.
    fn vps_layers(&mut self, vps: &Vps)
        requires
            old(self).inv(),
            vps.max_sub_layers_minus1 <= 6,
        ensures
            final(self).follows(old(self), vps_layers_syntax(*vps)),
    {
        proof {
            reveal(vps_layers_syntax);
        }
        self.flag(vps.sub_layer_ordering_info_present_flag);
        let first: usize = if vps.sub_layer_ordering_info_present_flag {
            0
        } else {
            vps.max_sub_layers_minus1 as usize
        };
        let n: usize = vps.max_sub_layers_minus1 as usize + 1;
        let ghost start = *self;
        let mut i: usize = first;
        while i < n
            invariant
                i <= n <= 7,
                self.heads_for(
                    &start,
                    vps_ordering_from(*vps, i as int, n as int),
                    vps_ordering_from(*vps, first as int, n as int),
                ),
            decreases n - i,
        {
            self.ue(vps.max_dec_pic_buffering_minus1[i]);
            self.ue(vps.max_num_reorder_pics[i]);
            self.ue(vps.max_latency_increase_plus1[i]);
            i = i + 1;
        }
        self.u(6, vps.max_layer_id as u32);
        self.ue(vps.num_layer_sets_minus1);
        let m: usize = vps.max_layer_id as usize + 1;
        let mut sets: u32 = vps.num_layer_sets_minus1;
        let ghost start = *self;
        while sets > 0 && self.error.is_none()
            invariant
                self.heads_for(
                    &start,
                    layer_sets_from(sets as int, m as int),
                    layer_sets_from(vps.num_layer_sets_minus1 as int, m as int),
                ),
            decreases sets,
        {
            let ghost row = *self;
            let mut layers: usize = m;
            while layers > 0
                invariant
                    self.heads_for(&row, zero_flags(layers as int), zero_flags(m as int)),
                decreases layers,
            {
                // layer_id_included_flag[i][j]: always 0 for a single layer set.
                self.flag(false);
                layers = layers - 1;
            }
            sets = sets - 1;
        }
        if sets > 0 {
            self.skip(Ghost(layer_sets_from(sets as int, m as int)));
        }
    }

    /// The hypothetical reference decoder parameters.
    fn vps_hrds(&mut self, vps: &Vps)
        requires
            old(self).inv(),
            vps.max_sub_layers_minus1 <= 6,
        ensures
            final(self).follows(old(self), vps_hrds_from(*vps, 0, vps.num_hrd_parameters as int)),
    {
        let n: usize = vps.num_hrd_parameters as usize;
        let mut i: usize = 0;
        while i < n && self.error.is_none()
            invariant
                i <= n,
                n == vps.num_hrd_parameters,
                vps.max_sub_layers_minus1 <= 6,
                self.heads_for(
                    old(self),
                    vps_hrds_from(*vps, i as int, n as int),
                    vps_hrds_from(*vps, 0, n as int),
                ),
            decreases n - i,
        {
            if i >= vps.hrd_layer_set_idx.len() || (i > 0 && i >= vps.cprms_present_flag.len())
                || i >= vps.hrd_parameters.len() {
                self.missing();
                i = n;
            } else {
                self.ue(vps.hrd_layer_set_idx[i] as u32);
                let cprms_present = if i > 0 {
                    self.flag(vps.cprms_present_flag[i]);
                    vps.cprms_present_flag[i]
                } else {
                    true
                };
                self.hrd_parameters(
                    &vps.hrd_parameters[i],
                    cprms_present,
                    vps.max_sub_layers_minus1,
                );
                i = i + 1;
            }
        }
        if i < n {
            self.skip(Ghost(vps_hrds_from(*vps, i as int, n as int)));
        }
    }
}

impl<'n> Synthesizer<'n, Sps> {
    /// Synthesizes a complete SPS NAL unit (start code, two-byte NAL header and RBSP)
    /// and appends it to `writer`.
    pub fn synthesize(
        sps: &'n Sps,
        writer: &mut Vec<u8>,
        ep_enabled: bool,
    ) -> (r: SynthesizerResult<()>)
        requires
            sps.writable(),
        ensures
            r == table_result(sps_syntax(*sps)),
            final(writer)@ == old(writer)@ + nalu_bytes(NaluType::SpsNut, sps_syntax(*sps), ep_enabled),
    {
        let mut s = Self::start(sps, NaluType::SpsNut, ep_enabled);
        s.seq_parameter_set_rbsp();
        proof {
            lemma_syntax_part(sps_syntax(*sps));
        }
        s.finish(writer)
    }

    /// `seq_parameter_set_rbsp()` (7.3.2.2).
    fn seq_parameter_set_rbsp(&mut self)
        requires
            old(self).inv(),
        ensures
            final(self).follows(old(self), sps_syntax(*old(self).nalu)),
    {
        proof {
            reveal(sps_syntax);
            reveal(sps_head_syntax);
        }
        let sps = self.nalu;
        self.u(4, sps.video_parameter_set_id as u32);
        self.u(3, sps.max_sub_layers_minus1 as u32);
        self.flag(sps.temporal_id_nesting_flag);
        self.profile_tier_level(&sps.profile_tier_level, true, sps.max_sub_layers_minus1);
        if sps.max_sub_layers_minus1 > 6 {
            let ghost rest = sps_format_syntax(*sps)
                .part(sps_ordering_syntax(*sps))
                .part(sps_blocks_syntax(*sps))
                .part(sps_scaling_syntax(*sps))
                .part(sps_tools_syntax(*sps))
                .part(sps_short_term_syntax(*sps))
                .part(sps_tail_syntax(*sps));
            self.skip(Ghost(rest));
            return;
        }
        self.sps_format(sps);
        self.sps_tools(sps);
        self.sps_short_term(sps);
        self.sps_tail(sps);
    }

    /// What follows the short-term reference picture sets.
    fn sps_tail(&mut self, sps: &Sps)
        requires
            old(self).inv(),
            sps.max_sub_layers_minus1 <= 6,
        ensures
            final(self).follows(old(self), sps_tail_syntax(*sps)),
    {
        proof {
            reveal(sps_tail_syntax);
            reveal(sps_vui_syntax);
        }
        self.sps_long_term(sps);
        self.flag(sps.temporal_mvp_enabled_flag);
        self.flag(sps.strong_intra_smoothing_enabled_flag);
        self.flag(sps.vui_parameters_present_flag);
        if sps.vui_parameters_present_flag {
            self.vui_parameters(&sps.vui_parameters, sps.max_sub_layers_minus1);
        }
        self.sps_extension(sps);
    }

    /// The extensions.
    fn sps_extension(&mut self, sps: &Sps)
        requires
            old(self).inv(),
        ensures
            final(self).follows(old(self), sps_extension_syntax(*sps)),
    {
        proof {
            reveal(sps_extension_syntax);
        }
        self.flag(sps.extension_present_flag);
        if sps.extension_present_flag {
            self.flag(sps.range_extension_flag);
            if sps.range_extension_flag {
                self.sps_range_extension(&sps.range_extension);
            }
            // sps_multilayer_extension_flag, sps_3d_extension_flag
            self.flag(false);
            self.flag(false);
            self.flag(sps.scc_extension_flag);
            if sps.scc_extension_flag {
                self.unsupported();
            } else {
                // sps_extension_4bits
                self.u(4, 0);
            }
        }
    }

    /// The picture format and the sub-layer ordering information.
    fn sps_format(&mut self, sps: &Sps)
        requires
            old(self).inv(),
            sps.max_sub_layers_minus1 <= 6,
        ensures
            final(self).follows(old(self), sps_format_syntax(*sps).part(sps_ordering_syntax(*sps))),
    {
        proof {
            reveal(sps_format_syntax);
            reveal(sps_ordering_syntax);
        }
        self.ue(sps.seq_parameter_set_id as u32);
        self.ue(sps.chroma_format_idc as u32);
        if sps.chroma_format_idc == 3 {
            self.flag(sps.separate_colour_plane_flag);
        }
        self.ue(sps.pic_width_in_luma_samples as u32);
        self.ue(sps.pic_height_in_luma_samples as u32);
        self.flag(sps.conformance_window_flag);
        if sps.conformance_window_flag {
            self.ue(sps.conf_win_left_offset);
            self.ue(sps.conf_win_right_offset);
            self.ue(sps.conf_win_top_offset);
            self.ue(sps.conf_win_bottom_offset);
        }
        self.ue(sps.bit_depth_luma_minus8 as u32);
        self.ue(sps.bit_depth_chroma_minus8 as u32);
        self.ue(sps.log2_max_pic_order_cnt_lsb_minus4 as u32);
        self.flag(sps.sub_layer_ordering_info_present_flag);
        let first: usize = if sps.sub_layer_ordering_info_present_flag {
            0
        } else {
            sps.max_sub_layers_minus1 as usize
        };
        let n: usize = sps.max_sub_layers_minus1 as usize + 1;
        let ghost start = *self;
        let mut i: usize = first;
        while i < n
            invariant
                i <= n <= 7,
                self.heads_for(
                    &start,
                    sps_ordering_from(*sps, i as int, n as int),
                    sps_ordering_from(*sps, first as int, n as int),
                ),
            decreases n - i,
        {
            self.ue(sps.max_dec_pic_buffering_minus1[i] as u32);
            self.ue(sps.max_num_reorder_pics[i] as u32);
            self.ue(sps.max_latency_increase_plus1[i] as u32);
            i = i + 1;
        }
    }

    /// The block sizes, the scaling lists and the coding tools.
    fn sps_tools(&mut self, sps: &Sps)
        requires
            old(self).inv(),
        ensures
            final(self).follows(
                old(self),
                sps_blocks_syntax(*sps).part(sps_scaling_syntax(*sps)).part(sps_tools_syntax(*sps)),
            ),
    {
        proof {
            reveal(sps_blocks_syntax);
            reveal(sps_scaling_syntax);
            reveal(sps_tools_syntax);
        }
        self.ue(sps.log2_min_luma_coding_block_size_minus3 as u32);
        self.ue(sps.log2_diff_max_min_luma_coding_block_size as u32);
        self.ue(sps.log2_min_luma_transform_block_size_minus2 as u32);
        self.ue(sps.log2_diff_max_min_luma_transform_block_size as u32);
        self.ue(sps.max_transform_hierarchy_depth_inter as u32);
        self.ue(sps.max_transform_hierarchy_depth_intra as u32);
        self.flag(sps.scaling_list_enabled_flag);
        if sps.scaling_list_enabled_flag {
            self.flag(sps.scaling_list_data_present_flag);
            if sps.scaling_list_data_present_flag {
                self.scaling_list_data(&sps.scaling_list);
            }
        }
        self.flag(sps.amp_enabled_flag);
        self.flag(sps.sample_adaptive_offset_enabled_flag);
        self.flag(sps.pcm_enabled_flag);
        if sps.pcm_enabled_flag {
            self.u(4, sps.pcm_sample_bit_depth_luma_minus1 as u32);
            self.u(4, sps.pcm_sample_bit_depth_chroma_minus1 as u32);
            self.ue(sps.log2_min_pcm_luma_coding_block_size_minus3 as u32);
            self.ue(sps.log2_diff_max_min_pcm_luma_coding_block_size as u32);
            self.flag(sps.pcm_loop_filter_disabled_flag);
        }
    }

    /// The short-term reference picture sets.
    fn sps_short_term(&mut self, sps: &Sps)
        requires
            old(self).inv(),
        ensures
            final(self).follows(old(self), sps_short_term_syntax(*sps)),
    {
        proof {
            reveal(sps_short_term_syntax);
        }
        self.ue(sps.num_short_term_ref_pic_sets as u32);
        let n: u8 = sps.num_short_term_ref_pic_sets;
        let ghost start = *self;
        let mut i: u8 = 0;
        while i < n
            invariant
                i <= n,
                n == sps.num_short_term_ref_pic_sets,
                self.heads_for(
                    &start,
                    sps_st_rps_from(*sps, i as int, n as int),
                    sps_st_rps_from(*sps, 0, n as int),
                ),
            decreases n - i,
        {
            if i as usize >= sps.short_term_ref_pic_set.len() {
                self.missing();
                i = n;
            } else {
                self.short_term_ref_pic_set(&sps.short_term_ref_pic_set[i as usize], i);
                i = i + 1;
            }
        }
    }

    /// The long-term reference pictures.
    fn sps_long_term(&mut self, sps: &Sps)
        requires
            old(self).inv(),
        ensures
            final(self).follows(old(self), sps_long_term_syntax(*sps)),
    {
        proof {
            reveal(sps_long_term_syntax);
        }
        self.flag(sps.long_term_ref_pics_present_flag);
        if sps.long_term_ref_pics_present_flag {
            self.ue(sps.num_long_term_ref_pics_sps as u32);
            let n: usize = sps.num_long_term_ref_pics_sps as usize;
            if sps.log2_max_pic_order_cnt_lsb_minus4 as usize + 4 <= 32 && n > 32 {
                self.missing();
                return;
            }
            let ghost start = *self;
            let mut i: usize = 0;
            while i < n && i < 32
                invariant
                    i <= n,
                    i <= 32,
                    i > 0 && sps.log2_max_pic_order_cnt_lsb_minus4 + 4 > 32 ==> self.error is Some,
                    self.heads_for(
                        &start,
                        sps_lt_from(*sps, i as int, n as int),
                        sps_lt_from(*sps, 0, n as int),
                    ),
                decreases n - i,
            {
                self.u(
                    sps.log2_max_pic_order_cnt_lsb_minus4 as usize + 4,
                    sps.lt_ref_pic_poc_lsb_sps[i],
                );
                self.flag(sps.used_by_curr_pic_lt_sps_flag[i]);
                i = i + 1;
            }
            if i < n {
                self.skip(Ghost(sps_lt_from(*sps, i as int, n as int)));
            }
        }
    }
}

impl<'n> Synthesizer<'n, Pps> {
    /// Synthesizes a complete PPS NAL unit (start code, two-byte NAL header and RBSP)
    /// and appends it to `writer`.
    pub fn synthesize(
        pps: &'n Pps,
        writer: &mut Vec<u8>,
        ep_enabled: bool,
    ) -> (r: SynthesizerResult<()>)
        requires
            pps.writable(),
        ensures
            r == table_result(pps_syntax(*pps)),
            final(writer)@ == old(writer)@ + nalu_bytes(NaluType::PpsNut, pps_syntax(*pps), ep_enabled),
    {
        let mut s = Self::start(pps, NaluType::PpsNut, ep_enabled);
        s.pic_parameter_set_rbsp();
        proof {
            lemma_syntax_part(pps_syntax(*pps));
        }
        s.finish(writer)
    }

    /// The chroma QP offsets.
    fn qp_offsets(&mut self, ext: &PpsRangeExtension)
        requires
            old(self).inv(),
        ensures
            final(self).follows(old(self), qp_offset_list_syntax(*ext)),
    {
        proof {
            reveal(qp_offset_list_syntax);
        }
        if !has_offsets(ext) {
            self.missing();
            return;
        }
        let n: usize = ext.chroma_qp_offset_list_len_minus1 as usize + 1;
        let mut i: usize = 0;
        while i < n
            invariant
                i <= n <= 6,
                n == ext.chroma_qp_offset_list_len_minus1 + 1,
                ext.has_offsets(),
                self.heads_for(
                    old(self),
                    qp_offsets_from(*ext, i as int, n as int),
                    qp_offsets_from(*ext, 0, n as int),
                ),
            decreases n - i,
        {
            assert(ext.cb_qp_offset_list[i as int] > i32::MIN);
            assert(ext.cr_qp_offset_list[i as int] > i32::MIN);
            self.se(ext.cb_qp_offset_list[i]);
            self.se(ext.cr_qp_offset_list[i]);
            i = i + 1;
        }
    }

    /// `pps_range_extension()` (7.3.2.3.2).
    fn pps_range_extension(&mut self, ext: &PpsRangeExtension, transform_skip_enabled_flag: bool)
        requires
            old(self).inv(),
        ensures
            final(self).follows(old(self), pps_range_extension_syntax(*ext, transform_skip_enabled_flag)),
    {
        proof {
            reveal(pps_range_extension_syntax);
        }
        if transform_skip_enabled_flag {
            self.ue(ext.log2_max_transform_skip_block_size_minus2);
        }
        self.flag(ext.cross_component_prediction_enabled_flag);
        self.flag(ext.chroma_qp_offset_list_enabled_flag);
        if ext.chroma_qp_offset_list_enabled_flag {
            self.ue(ext.diff_cu_chroma_qp_offset_depth);
            self.ue(ext.chroma_qp_offset_list_len_minus1);
            self.qp_offsets(ext);
        }
        self.ue(ext.log2_sao_offset_scale_luma);
        self.ue(ext.log2_sao_offset_scale_chroma);
    }

    /// `pic_parameter_set_rbsp()` (7.3.2.3.1).
    fn pic_parameter_set_rbsp(&mut self)
        requires
            old(self).inv(),
        ensures
            final(self).follows(old(self), pps_syntax(*old(self).nalu)),
    {
        proof {
            reveal(pps_syntax);
        }
        let pps = self.nalu;
        self.pps_head(pps);
        self.pps_tools(pps);
        self.pps_tiles(pps);
        self.pps_filters(pps);
        self.pps_extension(pps);
    }

    /// The tiles.
    fn pps_tiles(&mut self, pps: &Pps)
        requires
            old(self).inv(),
        ensures
            final(self).follows(old(self), pps_tiles_syntax(*pps)),
    {
        proof {
            reveal(pps_tiles_syntax);
        }
        if pps.tiles_enabled_flag {
            self.ue(pps.num_tile_columns_minus1 as u32);
            self.ue(pps.num_tile_rows_minus1 as u32);
            self.flag(pps.uniform_spacing_flag);
            if !pps.uniform_spacing_flag {
                self.ues(&pps.column_width_minus1, pps.num_tile_columns_minus1 as usize);
                self.ues(&pps.row_height_minus1, pps.num_tile_rows_minus1 as usize);
            }
            self.flag(pps.loop_filter_across_tiles_enabled_flag);
        }
    }

    /// The extensions.
    fn pps_extension(&mut self, pps: &Pps)
        requires
            old(self).inv(),
        ensures
            final(self).follows(old(self), pps_extension_syntax(*pps)),
    {
        proof {
            reveal(pps_extension_syntax);
        }
        self.flag(pps.extension_present_flag);
        if pps.extension_present_flag {
            self.flag(pps.range_extension_flag);
            if pps.range_extension_flag {
                self.pps_range_extension(&pps.range_extension, pps.transform_skip_enabled_flag);
            }
            // pps_multilayer_extension_flag, pps_3d_extension_flag
            self.flag(false);
            self.flag(false);
            self.flag(pps.scc_extension_flag);
            if pps.scc_extension_flag {
                self.unsupported();
            } else {
                // pps_extension_4bits
                self.u(4, 0);
            }
        }
    }

    /// The identifiers and the defaults of the slices.
    fn pps_head(&mut self, pps: &Pps)
        requires
            old(self).inv(),
        ensures
            final(self).follows(old(self), pps_head_syntax(*pps)),
    {
        proof {
            reveal(pps_head_syntax);
        }
        self.ue(pps.pic_parameter_set_id as u32);
        self.ue(pps.seq_parameter_set_id as u32);
        self.flag(pps.dependent_slice_segments_enabled_flag);
        self.flag(pps.output_flag_present_flag);
        self.u(3, pps.num_extra_slice_header_bits as u32);
        self.flag(pps.sign_data_hiding_enabled_flag);
        self.flag(pps.cabac_init_present_flag);
        self.ue(pps.num_ref_idx_l0_default_active_minus1 as u32);
        self.ue(pps.num_ref_idx_l1_default_active_minus1 as u32);
        self.se(pps.init_qp_minus26 as i32);
    }

    /// The coding tools.
    fn pps_tools(&mut self, pps: &Pps)
        requires
            old(self).inv(),
        ensures
            final(self).follows(old(self), pps_tools_syntax(*pps)),
    {
        proof {
            reveal(pps_tools_syntax);
        }
        self.flag(pps.constrained_intra_pred_flag);
        self.flag(pps.transform_skip_enabled_flag);
        self.flag(pps.cu_qp_delta_enabled_flag);
        if pps.cu_qp_delta_enabled_flag {
            self.ue(pps.diff_cu_qp_delta_depth as u32);
        }
        self.se(pps.cb_qp_offset as i32);
        self.se(pps.cr_qp_offset as i32);
        self.flag(pps.slice_chroma_qp_offsets_present_flag);
        self.flag(pps.weighted_pred_flag);
        self.flag(pps.weighted_bipred_flag);
        self.flag(pps.transquant_bypass_enabled_flag);
        self.flag(pps.tiles_enabled_flag);
        self.flag(pps.entropy_coding_sync_enabled_flag);
    }

    /// The loop filters, the scaling lists, and what follows up to the extensions.
    fn pps_filters(&mut self, pps: &Pps)
        requires
            old(self).inv(),
        ensures
            final(self).follows(old(self), pps_filters_syntax(*pps).part(pps_lists_syntax(*pps))),
    {
        proof {
            reveal(pps_filters_syntax);
            reveal(pps_lists_syntax);
        }
        self.flag(pps.loop_filter_across_slices_enabled_flag);
        self.flag(pps.deblocking_filter_control_present_flag);
        if pps.deblocking_filter_control_present_flag {
            self.flag(pps.deblocking_filter_override_enabled_flag);
            self.flag(pps.deblocking_filter_disabled_flag);
            if !pps.deblocking_filter_disabled_flag {
                self.se(pps.beta_offset_div2 as i32);
                self.se(pps.tc_offset_div2 as i32);
            }
        }
        self.flag(pps.scaling_list_data_present_flag);
        if pps.scaling_list_data_present_flag {
            self.scaling_list_data(&pps.scaling_list);
        }
        self.flag(pps.lists_modification_present_flag);
        self.ue(pps.log2_parallel_merge_level_minus2 as u32);
        self.flag(pps.slice_segment_header_extension_present_flag);
    }
}

impl<'n> Synthesizer<'n, SliceHeader> {
    /// Synthesizes a complete slice NAL unit header (start code, two-byte NAL header,
    /// `slice_segment_header()` and `byte_alignment()`) and appends it to `writer`.
    /// The coded slice data is to be put behind it.
    ///
    /// `sps` and `pps` must be the active parameter sets: the conditional fields of
    /// the header are gated on their values.
    pub fn synthesize(
        nalu_type: NaluType,
        hdr: &'n SliceHeader,
        sps: &Sps,
        pps: &Pps,
        writer: &mut Vec<u8>,
        ep_enabled: bool,
    ) -> (r: SynthesizerResult<()>)
        requires
            hdr.writable(nalu_type, *sps, *pps),
        ensures
            r == table_result(slice_syntax(*hdr, nalu_type, *sps, *pps)),
            final(writer)@ == old(writer)@ + nalu_bytes(
                nalu_type,
                slice_syntax(*hdr, nalu_type, *sps, *pps),
                ep_enabled,
            ),
    {
        let mut s = Self::start(hdr, nalu_type, ep_enabled);
        s.slice_segment_header(nalu_type, sps, pps);
        proof {
            lemma_syntax_part(slice_syntax(*hdr, nalu_type, *sps, *pps));
        }
        s.finish(writer)
    }

    /// The entries of a reference list.
    fn list_entries(&mut self, bits: usize, entries: &[u32; 16], n_minus1: u8)
        requires
            old(self).inv(),
        ensures
            final(self).follows(
                old(self),
                entries_syntax(bits as int, entries@, n_minus1 + 1),
            ),
    {
        if n_minus1 >= 16 {
            self.missing();
        } else {
            self.us(bits, entries, n_minus1 as usize + 1);
        }
    }

    /// `ref_pic_lists_modification()` (7.3.6.2).
    fn ref_pic_lists_modification(
        &mut self,
        rplm: &RefPicListModification,
        slice_type: SliceType,
        num_ref_idx_l0_active_minus1: u8,
        num_ref_idx_l1_active_minus1: u8,
        num_pic_total_curr: u32,
    )
        requires
            old(self).inv(),
        ensures
            final(self).follows(
                old(self),
                rplm_syntax(
                    *rplm,
                    slice_type,
                    num_ref_idx_l0_active_minus1 as int,
                    num_ref_idx_l1_active_minus1 as int,
                    num_pic_total_curr as int,
                ),
            ),
    {
        proof {
            reveal(rplm_syntax);
        }
        let num_bits: usize = ceil_log2(num_pic_total_curr);
        self.flag(rplm.ref_pic_list_modification_flag_l0);
        if rplm.ref_pic_list_modification_flag_l0 {
            self.list_entries(num_bits, &rplm.list_entry_l0, num_ref_idx_l0_active_minus1);
        }
        if slice_type.is_b() {
            self.flag(rplm.ref_pic_list_modification_flag_l1);
            if rplm.ref_pic_list_modification_flag_l1 {
                self.list_entries(num_bits, &rplm.list_entry_l1, num_ref_idx_l1_active_minus1);
            }
        }
    }

    /// `pred_weight_table()` (7.3.6.3).
    fn pred_weight_table(
        &mut self,
        pwt: &PredWeightTable,
        slice_type: SliceType,
        chroma_array_type: u8,
        num_ref_idx_l0_active_minus1: u8,
        num_ref_idx_l1_active_minus1: u8,
    )
        requires
            old(self).inv(),
        ensures
            final(self).follows(
                old(self),
                pwt_syntax(
                    *pwt,
                    slice_type,
                    chroma_array_type as int,
                    num_ref_idx_l0_active_minus1 as int,
                    num_ref_idx_l1_active_minus1 as int,
                ),
            ),
    {
        proof {
            reveal(pwt_syntax);
        }
        self.ue(pwt.luma_log2_weight_denom as u32);
        if chroma_array_type != 0 {
            self.se(pwt.delta_chroma_log2_weight_denom as i32);
        }
        self.weights_l0(pwt, chroma_array_type, num_ref_idx_l0_active_minus1);
        if slice_type.is_b() {
            self.weights_l1(pwt, chroma_array_type, num_ref_idx_l1_active_minus1);
        }
    }

    /// The flags and the weights of list 0.
    fn weights_l0(&mut self, pwt: &PredWeightTable, chroma_array_type: u8, n_minus1: u8)
        requires
            old(self).inv(),
        ensures
            final(self).follows(
                old(self),
                weight_list_syntax(pwt.l0(), chroma_array_type as int, n_minus1 + 1),
            ),
    {
        proof {
            reveal(weight_list_syntax);
        }
        let n: usize = n_minus1 as usize + 1;
        if n > 15 {
            self.missing();
            return;
        }
        self.flags(&pwt.luma_weight_l0_flag, n);
        if chroma_array_type != 0 {
            self.flags(&pwt.chroma_weight_l0_flag, n);
        }
        let ghost start = *self;
        let mut i: usize = 0;
        while i < n
            invariant
                i <= n <= 15,
                self.heads_for(
                    &start,
                    weights_from(pwt.l0(), i as int, n as int),
                    weights_from(pwt.l0(), 0, n as int),
                ),
            decreases n - i,
        {
            if pwt.luma_weight_l0_flag[i] {
                self.se(pwt.delta_luma_weight_l0[i] as i32);
                self.se(pwt.luma_offset_l0[i] as i32);
            }
            if pwt.chroma_weight_l0_flag[i] {
                self.se(pwt.delta_chroma_weight_l0[i][0] as i32);
                self.se(pwt.delta_chroma_offset_l0[i][0] as i32);
                self.se(pwt.delta_chroma_weight_l0[i][1] as i32);
                self.se(pwt.delta_chroma_offset_l0[i][1] as i32);
            }
            i = i + 1;
        }
    }

    /// The flags and the weights of list 1.
    fn weights_l1(&mut self, pwt: &PredWeightTable, chroma_array_type: u8, n_minus1: u8)
        requires
            old(self).inv(),
        ensures
            final(self).follows(
                old(self),
                weight_list_syntax(pwt.l1(), chroma_array_type as int, n_minus1 + 1),
            ),
    {
        proof {
            reveal(weight_list_syntax);
        }
        let n: usize = n_minus1 as usize + 1;
        if n > 15 {
            self.missing();
            return;
        }
        self.flags(&pwt.luma_weight_l1_flag, n);
        // Gated on ChromaArrayType as list 0 is, and not on chroma_format_idc: they
        // differ when separate_colour_plane_flag is set.
        if chroma_array_type != 0 {
            self.flags(&pwt.chroma_weight_l1_flag, n);
        }
        let ghost start = *self;
        let mut i: usize = 0;
        while i < n
            invariant
                i <= n <= 15,
                self.heads_for(
                    &start,
                    weights_from(pwt.l1(), i as int, n as int),
                    weights_from(pwt.l1(), 0, n as int),
                ),
            decreases n - i,
        {
            if pwt.luma_weight_l1_flag[i] {
                self.se(pwt.delta_luma_weight_l1[i] as i32);
                self.se(pwt.luma_offset_l1[i] as i32);
            }
            if pwt.chroma_weight_l1_flag[i] {
                self.se(pwt.delta_chroma_weight_l1[i][0] as i32);
                self.se(pwt.delta_chroma_offset_l1[i][0] as i32);
                self.se(pwt.delta_chroma_weight_l1[i][1] as i32);
                self.se(pwt.delta_chroma_offset_l1[i][1] as i32);
            }
            i = i + 1;
        }
    }

    /// `slice_segment_header()` (7.3.6.1).
    fn slice_segment_header(&mut self, nalu_type: NaluType, sps: &Sps, pps: &Pps)
        requires
            old(self).inv(),
        ensures
            final(self).follows(old(self), slice_syntax(*old(self).nalu, nalu_type, *sps, *pps)),
    {
        proof {
            reveal(slice_syntax);
        }
        self.slice_address(nalu_type, sps, pps);
        self.slice_independent(nalu_type, sps, pps);
        self.slice_end(pps);
    }

    /// Where the slice segment lies.
    fn slice_address(&mut self, nalu_type: NaluType, sps: &Sps, pps: &Pps)
        requires
            old(self).inv(),
        ensures
            final(self).follows(old(self), slice_address_syntax(*old(self).nalu, nalu_type, *sps, *pps)),
    {
        proof {
            reveal(slice_address_syntax);
        }
        let hdr = self.nalu;
        self.flag(hdr.first_slice_segment_in_pic_flag);
        if nalu_type.is_irap() {
            self.flag(hdr.no_output_of_prior_pics_flag);
        }
        self.ue(hdr.pic_parameter_set_id as u32);
        if !hdr.first_slice_segment_in_pic_flag {
            if pps.dependent_slice_segments_enabled_flag {
                self.flag(hdr.dependent_slice_segment_flag);
            }
            let num_bits: usize = ceil_log2(sps.pic_size_in_ctbs_y);
            self.u(num_bits, hdr.segment_address);
        }
    }

    /// The entry points and an empty extension.
    fn slice_end(&mut self, pps: &Pps)
        requires
            old(self).inv(),
        ensures
            final(self).follows(old(self), slice_end_syntax(*old(self).nalu, *pps)),
    {
        proof {
            reveal(slice_end_syntax);
            reveal(slice_entry_points_syntax);
        }
        let hdr = self.nalu;
        if pps.tiles_enabled_flag || pps.entropy_coding_sync_enabled_flag {
            self.ue(hdr.num_entry_point_offsets);
            self.slice_offsets();
        }
        if pps.slice_segment_header_extension_present_flag {
            // slice_segment_header_extension_length
            self.ue(0);
        }
    }

    /// The offsets of the entry points.
    fn slice_offsets(&mut self)
        requires
            old(self).inv(),
        ensures
            final(self).follows(old(self), slice_offsets_syntax(*old(self).nalu)),
    {
        proof {
            reveal(slice_offsets_syntax);
        }
        let hdr = self.nalu;
        if hdr.num_entry_point_offsets == 0 {
            return;
        }
        self.ue(hdr.offset_len_minus1 as u32);
        let bits: usize = hdr.offset_len_minus1 as usize + 1;
        if hdr.offset_len_minus1 == u8::MAX || (bits <= 32 && hdr.num_entry_point_offsets > 32) {
            self.missing();
            return;
        }
        let n: usize = hdr.num_entry_point_offsets as usize;
        if n <= 32 {
            self.us(bits, &hdr.entry_point_offset_minus1, n);
        } else {
            // The first one has no code.
            self.u(bits, hdr.entry_point_offset_minus1[0]);
            self.skip(Ghost(us_from(bits as int, hdr.entry_point_offset_minus1@, 1, n as int)));
        }
    }

    /// What a dependent slice segment takes over from the one before.
    fn slice_independent(&mut self, nalu_type: NaluType, sps: &Sps, pps: &Pps)
        requires
            old(self).inv(),
        ensures
            final(self).follows(old(self), slice_independent_syntax(*old(self).nalu, nalu_type, *sps, *pps)),
    {
        proof {
            reveal(slice_independent_syntax);
        }
        let hdr = self.nalu;
        if hdr.dependent_slice_segment_flag {
            return;
        }
        self.slice_type_fields(sps, pps);
        self.slice_references(nalu_type, sps);
        self.slice_body(sps, pps);
    }

    /// What precedes the reference pictures.
    fn slice_type_fields(&mut self, sps: &Sps, pps: &Pps)
        requires
            old(self).inv(),
        ensures
            final(self).follows(old(self), slice_type_syntax(*old(self).nalu, *sps, *pps)),
    {
        proof {
            reveal(slice_type_syntax);
        }
        let hdr = self.nalu;
        self.reserved_zero(pps.num_extra_slice_header_bits as usize);
        self.ue(hdr.type_.to_u8() as u32);
        if pps.output_flag_present_flag {
            self.flag(hdr.pic_output_flag);
        }
        if sps.separate_colour_plane_flag {
            self.u(2, hdr.colour_plane_id as u32);
        }
    }

    /// What follows the reference pictures.
    fn slice_body(&mut self, sps: &Sps, pps: &Pps)
        requires
            old(self).inv(),
        ensures
            final(self).follows(old(self), slice_body_syntax(*old(self).nalu, *sps, *pps)),
    {
        proof {
            reveal(slice_body_syntax);
        }
        self.slice_sao(sps);
        self.slice_inter(sps, pps);
        self.slice_qp(pps);
        self.slice_filters(pps);
    }

    /// The picture order count and the reference pictures.
    fn slice_references(&mut self, nalu_type: NaluType, sps: &Sps)
        requires
            old(self).inv(),
        ensures
            final(self).follows(old(self), slice_references_syntax(*old(self).nalu, nalu_type, *sps)),
    {
        proof {
            reveal(slice_references_syntax);
            reveal(slice_st_syntax);
            reveal(poc_lsb_syntax);
            reveal(slice_lt_mvp_syntax);
        }
        let hdr = self.nalu;
        if nalu_type.is_idr() {
            return;
        }
        let num_bits: usize = sps.log2_max_pic_order_cnt_lsb_minus4 as usize + 4;
        if num_bits > 255 {
            self.missing();
        } else {
            self.u(num_bits, hdr.pic_order_cnt_lsb as u32);
        }
        self.flag(hdr.short_term_ref_pic_set_sps_flag);
        if !hdr.short_term_ref_pic_set_sps_flag {
            self.short_term_ref_pic_set(
                &hdr.short_term_ref_pic_set,
                sps.num_short_term_ref_pic_sets,
            );
        } else if sps.num_short_term_ref_pic_sets > 1 {
            let num_bits: usize = ceil_log2(sps.num_short_term_ref_pic_sets as u32);
            self.u(num_bits, hdr.short_term_ref_pic_set_idx as u32);
        }
        self.slice_long_term(sps);
        if sps.temporal_mvp_enabled_flag {
            self.flag(hdr.temporal_mvp_enabled_flag);
        }
    }

    /// The long-term reference pictures.
    fn slice_long_term(&mut self, sps: &Sps)
        requires
            old(self).inv(),
        ensures
            final(self).follows(old(self), slice_lt_syntax(*old(self).nalu, *sps)),
    {
        proof {
            reveal(slice_lt_syntax);
        }
        let hdr = self.nalu;
        if !sps.long_term_ref_pics_present_flag {
            return;
        }
        if sps.num_long_term_ref_pics_sps > 0 {
            self.ue(hdr.num_long_term_sps as u32);
        }
        self.ue(hdr.num_long_term_pics as u32);
        let n: usize = hdr.num_long_term_sps as usize + hdr.num_long_term_pics as usize;
        if n > 255 {
            self.missing();
            return;
        }
        let ghost start = *self;
        let mut i: usize = 0;
        while i < n && i < 16
            invariant
                i <= n,
                i <= 16,
                n == hdr.num_long_term(),
                self.heads_for(
                    &start,
                    lt_rows_from(*hdr, *sps, i as int, n as int),
                    lt_rows_from(*hdr, *sps, 0, n as int),
                ),
            decreases n - i,
        {
            proof {
                reveal(lt_row_syntax);
            }
            if i < hdr.num_long_term_sps as usize {
                if sps.num_long_term_ref_pics_sps > 1 {
                    let num_bits: usize = ceil_log2(sps.num_long_term_ref_pics_sps as u32);
                    self.u(num_bits, hdr.lt_idx_sps[i] as u32);
                }
            } else {
                let num_bits: usize = sps.log2_max_pic_order_cnt_lsb_minus4 as usize + 4;
                self.u(num_bits, hdr.poc_lsb_lt[i]);
                self.flag(hdr.used_by_curr_pic_lt[i]);
            }
            self.flag(hdr.delta_poc_msb_present_flag[i]);
            if hdr.delta_poc_msb_present_flag[i] {
                // What is stored is the accumulated DeltaPocMsbCycleLt (7-52): for
                // i != 0 and i != num_long_term_sps the element before is added.
                let before: u32 = if i != 0 && i != hdr.num_long_term_sps as usize {
                    hdr.delta_poc_msb_cycle_lt[i - 1]
                } else {
                    0
                };
                if hdr.delta_poc_msb_cycle_lt[i] < before {
                    self.missing();
                } else {
                    self.ue(hdr.delta_poc_msb_cycle_lt[i] - before);
                }
            }
            i = i + 1;
        }
        if i < n {
            self.missing();
        }
    }

    /// The sample adaptive offset flags.
    fn slice_sao(&mut self, sps: &Sps)
        requires
            old(self).inv(),
        ensures
            final(self).follows(old(self), slice_sao_syntax(*old(self).nalu, *sps)),
    {
        proof {
            reveal(slice_sao_syntax);
        }
        let hdr = self.nalu;
        if sps.sample_adaptive_offset_enabled_flag {
            self.flag(hdr.sao_luma_flag);
            if sps.chroma_array_type != 0 {
                self.flag(hdr.sao_chroma_flag);
            }
        }
    }

    /// What only P and B slices have.
    fn slice_inter(&mut self, sps: &Sps, pps: &Pps)
        requires
            old(self).inv(),
        ensures
            final(self).follows(old(self), slice_inter_syntax(*old(self).nalu, *sps, *pps)),
    {
        proof {
            reveal(slice_inter_syntax);
        }
        let hdr = self.nalu;
        if hdr.type_.is_p() || hdr.type_.is_b() {
            self.slice_lists(sps, pps);
            self.slice_prediction(sps, pps);
        }
    }

    /// The number of active reference pictures of each list, less one.
    fn num_ref_idx_active_minus1(&self, pps: &Pps) -> (r: (u8, u8))
        ensures
            r.0 == self.nalu.l0_minus1(*pps),
            r.1 == self.nalu.l1_minus1(*pps),
    {
        let hdr = self.nalu;
        if hdr.num_ref_idx_active_override_flag {
            (hdr.num_ref_idx_l0_active_minus1, hdr.num_ref_idx_l1_active_minus1)
        } else {
            (pps.num_ref_idx_l0_default_active_minus1, pps.num_ref_idx_l1_default_active_minus1)
        }
    }

    /// The reference lists of a P or B slice.
    fn slice_lists(&mut self, sps: &Sps, pps: &Pps)
        requires
            old(self).inv(),
        ensures
            final(self).follows(old(self), slice_lists_syntax(*old(self).nalu, *sps, *pps)),
    {
        proof {
            reveal(slice_lists_syntax);
            reveal(slice_active_syntax);
        }
        let hdr = self.nalu;
        self.flag(hdr.num_ref_idx_active_override_flag);
        if hdr.num_ref_idx_active_override_flag {
            self.ue(hdr.num_ref_idx_l0_active_minus1 as u32);
            if hdr.type_.is_b() {
                self.ue(hdr.num_ref_idx_l1_active_minus1 as u32);
            }
        }
        assert(self.follows(old(self), slice_active_syntax(*hdr)));
        if !has_references(hdr, sps) {
            self.missing();
            return;
        }
        let (l0, l1): (u8, u8) = self.num_ref_idx_active_minus1(pps);
        let num_pic_total_curr: u32 = num_pic_total_curr(hdr, sps, pps);
        if pps.lists_modification_present_flag && num_pic_total_curr > 1 {
            self.ref_pic_lists_modification(
                &hdr.ref_pic_list_modification,
                hdr.type_,
                l0,
                if hdr.type_.is_b() { l1 } else { 0 },
                num_pic_total_curr,
            );
        }
        if hdr.type_.is_b() {
            self.flag(hdr.mvd_l1_zero_flag);
        }
        if pps.cabac_init_present_flag {
            self.flag(hdr.cabac_init_flag);
        }
    }

    /// The prediction of a P or B slice.
    fn slice_prediction(&mut self, sps: &Sps, pps: &Pps)
        requires
            old(self).inv(),
        ensures
            final(self).follows(old(self), slice_prediction_syntax(*old(self).nalu, *sps, *pps)),
    {
        proof {
            reveal(slice_prediction_syntax);
            reveal(slice_collocated_syntax);
        }
        let hdr = self.nalu;
        let (l0, l1): (u8, u8) = self.num_ref_idx_active_minus1(pps);
        if hdr.temporal_mvp_enabled_flag {
            if hdr.type_.is_b() {
                self.flag(hdr.collocated_from_l0_flag);
            }
            if (hdr.collocated_from_l0_flag && l0 > 0) || (!hdr.collocated_from_l0_flag && l1 > 0) {
                self.ue(hdr.collocated_ref_idx as u32);
            }
        }
        if (pps.weighted_pred_flag && hdr.type_.is_p())
            || (pps.weighted_bipred_flag && hdr.type_.is_b()) {
            self.pred_weight_table(
                &hdr.pred_weight_table,
                hdr.type_,
                sps.chroma_array_type,
                l0,
                if hdr.type_.is_b() { l1 } else { 0 },
            );
        }
        self.ue(hdr.five_minus_max_num_merge_cand as u32);
        if sps.scc_extension.motion_vector_resolution_control_idc == 2 {
            self.flag(hdr.use_integer_mv_flag);
        }
    }

    /// The quantizer.
    fn slice_qp(&mut self, pps: &Pps)
        requires
            old(self).inv(),
        ensures
            final(self).follows(old(self), slice_qp_syntax(*old(self).nalu, *pps)),
    {
        proof {
            reveal(slice_qp_syntax);
        }
        let hdr = self.nalu;
        self.se(hdr.qp_delta as i32);
        if pps.slice_chroma_qp_offsets_present_flag {
            self.se(hdr.cb_qp_offset as i32);
            self.se(hdr.cr_qp_offset as i32);
        }
        if pps.scc_extension.slice_act_qp_offsets_present_flag {
            self.se(hdr.slice_act_y_qp_offset as i32);
            self.se(hdr.slice_act_cb_qp_offset as i32);
            self.se(hdr.slice_act_cr_qp_offset as i32);
        }
        if pps.range_extension.chroma_qp_offset_list_enabled_flag {
            self.flag(hdr.cu_chroma_qp_offset_enabled_flag);
        }
    }

    /// The loop filters.
    fn slice_filters(&mut self, pps: &Pps)
        requires
            old(self).inv(),
        ensures
            final(self).follows(old(self), slice_filters_syntax(*old(self).nalu, *pps)),
    {
        proof {
            reveal(slice_filters_syntax);
        }
        let hdr = self.nalu;
        if pps.deblocking_filter_override_enabled_flag {
            self.flag(hdr.deblocking_filter_override_flag);
        }
        if hdr.deblocking_filter_override_flag {
            self.flag(hdr.deblocking_filter_disabled_flag);
            if !hdr.deblocking_filter_disabled_flag {
                self.se(hdr.beta_offset_div2 as i32);
                self.se(hdr.tc_offset_div2 as i32);
            }
        }
        if pps.loop_filter_across_slices_enabled_flag && (hdr.sao_luma_flag || hdr.sao_chroma_flag
            || !hdr.deblocking_filter_disabled_flag) {
            self.flag(hdr.loop_filter_across_slices_enabled_flag);
        }
    }
}

impl Vps {
    /// Tests [`Self::writable`], for callers that have no proof of it.
    pub fn is_writable(&self) -> (r: bool)
        ensures
            r == self.writable(),
    {
        let mut s = Synthesizer::<'_, Vps>::start(self, NaluType::VpsNut, false);
        s.video_parameter_set_rbsp();
        proof {
            lemma_syntax_part(vps_syntax(*self));
        }
        !s.missing
    }
}

impl Sps {
    /// Tests [`Self::writable`], for callers that have no proof of it.
    pub fn is_writable(&self) -> (r: bool)
        ensures
            r == self.writable(),
    {
        let mut s = Synthesizer::<'_, Sps>::start(self, NaluType::SpsNut, false);
        s.seq_parameter_set_rbsp();
        proof {
            lemma_syntax_part(sps_syntax(*self));
        }
        !s.missing
    }
}

impl Pps {
    /// Tests [`Self::writable`], for callers that have no proof of it.
    pub fn is_writable(&self) -> (r: bool)
        ensures
            r == self.writable(),
    {
        let mut s = Synthesizer::<'_, Pps>::start(self, NaluType::PpsNut, false);
        s.pic_parameter_set_rbsp();
        proof {
            lemma_syntax_part(pps_syntax(*self));
        }
        !s.missing
    }
}

impl SliceHeader {
    /// Tests [`Self::writable`], for callers that have no proof of it.
    pub fn is_writable(&self, nalu_type: NaluType, sps: &Sps, pps: &Pps) -> (r: bool)
        ensures
            r == self.writable(nalu_type, *sps, *pps),
    {
        let mut s = Synthesizer::<'_, SliceHeader>::start(self, nalu_type, false);
        s.slice_segment_header(nalu_type, sps, pps);
        proof {
            lemma_syntax_part(slice_syntax(*self, nalu_type, *sps, *pps));
        }
        !s.missing
    }
}

/// The number of flags set among the first `n`.
pub(crate) fn count_flags(flags: &[bool], n: usize) -> (c: u32)
    requires
        n <= flags@.len(),
        n <= 16,
    ensures
        c == count_true(flags@, n as int),
        c <= n,
{
    let mut c: u32 = 0;
    let mut i: usize = 0;
    while i < n
        invariant
            i <= n <= flags@.len(),
            n <= 16,
            c == count_true(flags@, i as int),
            c <= i,
        decreases n - i,
    {
        if flags[i] {
            c = c + 1;
        }
        i = i + 1;
    }
    c
}

/// Whether the chroma QP offsets are there and have a code.
fn has_offsets(ext: &PpsRangeExtension) -> (r: bool)
    ensures
        r == ext.has_offsets(),
{
    if ext.chroma_qp_offset_list_len_minus1 >= 6 {
        return false;
    }
    let n: usize = ext.chroma_qp_offset_list_len_minus1 as usize + 1;
    let mut i: usize = 0;
    while i < n
        invariant
            i <= n <= 6,
            n == ext.chroma_qp_offset_list_len_minus1 + 1,
            forall|k: int| 0 <= k < i ==> #[trigger] ext.cb_qp_offset_list[k] > i32::MIN,
            forall|k: int| 0 <= k < i ==> #[trigger] ext.cr_qp_offset_list[k] > i32::MIN,
        decreases n - i,
    {
        if ext.cb_qp_offset_list[i] == i32::MIN || ext.cr_qp_offset_list[i] == i32::MIN {
            return false;
        }
        i = i + 1;
    }
    true
}

/// Whether the reference pictures of a P or B slice are there.
fn has_references(hdr: &SliceHeader, sps: &Sps) -> (r: bool)
    ensures
        r == hdr.has_references(*sps),
{
    if hdr.short_term_ref_pic_set_sps_flag
        && hdr.curr_rps_idx as usize >= sps.short_term_ref_pic_set.len() {
        return false;
    }
    let rps = if hdr.short_term_ref_pic_set_sps_flag {
        &sps.short_term_ref_pic_set[hdr.curr_rps_idx as usize]
    } else {
        &hdr.short_term_ref_pic_set
    };
    rps.num_negative_pics <= 16 && rps.num_positive_pics <= 16
        && hdr.num_long_term_sps as usize + hdr.num_long_term_pics as usize <= 16
}

/// `NumPicTotalCurr` (7-55).
pub(crate) fn num_pic_total_curr(hdr: &SliceHeader, sps: &Sps, pps: &Pps) -> (c: u32)
    requires
        hdr.has_references(*sps),
    ensures
        c == hdr.pic_total_curr(*sps, *pps),
{
    let rps = if hdr.short_term_ref_pic_set_sps_flag {
        &sps.short_term_ref_pic_set[hdr.curr_rps_idx as usize]
    } else {
        &hdr.short_term_ref_pic_set
    };
    let mut c: u32 = count_flags(&rps.used_by_curr_pic_s0, rps.num_negative_pics as usize)
        + count_flags(&rps.used_by_curr_pic_s1, rps.num_positive_pics as usize)
        + count_flags(
            &hdr.used_by_curr_pic_lt,
            (hdr.num_long_term_sps + hdr.num_long_term_pics) as usize,
        );
    if pps.scc_extension.curr_pic_ref_enabled_flag {
        c = c + 1;
    }
    c
}

/// A table behind the empty one is the table itself.
proof fn lemma_syntax_part(t: Syntax)
    ensures
        syntax().part(t) == t,
{
    reveal(syntax);
    reveal(Syntax::part);
    assert(syntax().part(t) =~= t);
}

/// The representative of `v` modulo 256 in `-128..=127`.
pub(crate) fn wrapped_delta(v: i32) -> (delta: i32)
    requires
        -0x20000 <= v <= 0x20000,
    ensures
        delta == wrapped(v as int),
{
    // Past zero, `%` and the remainder of the mathematical division agree.
    let delta: i32 = (v + 0x20000) % 256;
    assert((v + 0x20000) % 256 == v as int % 256) by (nonlinear_arith);
    if delta >= 128 {
        delta - 256
    } else {
        delta
    }
}

/// The unsigned value with the bits of `v`.
fn to_unsigned(v: i32) -> (r: u32)
    ensures
        r == as_unsigned(v as int),
{
    let wide: i64 = v as i64;
    if wide < 0 {
        (wide + 0x1_0000_0000) as u32
    } else {
        wide as u32
    }
}

} // verus!
