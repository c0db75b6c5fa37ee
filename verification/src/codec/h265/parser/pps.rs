//! The reader of `pic_parameter_set_rbsp()`.

use crate::bits::lemma_pow2_values;
use crate::codec::bit_reader::BitReader;
use crate::codec::h265::parser::common::{
    agree, decodes, lemma_ues_bound, parse_ues, tail_is, MAX_UE,
};
use crate::codec::h265::parser::scaling::{
    lemma_scaling_equal, parse_scaling_list_data, scaling_lists_same, scaling_settled,
};
use crate::codec::h265::tables::{
    pps_extension_syntax, pps_filters_syntax, pps_head_syntax, pps_lists_syntax,
    pps_range_extension_syntax, pps_syntax, pps_tiles_syntax, pps_tools_syntax,
    qp_offset_list_syntax, qp_offsets_from, ues_from,
};
use crate::codec::h265::types::{Pps, PpsRangeExtension, PpsSccExtension, ScalingLists, Sps};
use crate::syntax::{group_onto, group_read};
use std::rc::Rc;
use vstd::prelude::*;

verus! {

broadcast use {group_onto, group_read};

/// The identifiers and the defaults of the slices.
pub struct PpsHead {
    pub pic_parameter_set_id: u8,
    pub seq_parameter_set_id: u8,
    pub dependent_slice_segments_enabled_flag: bool,
    pub output_flag_present_flag: bool,
    pub num_extra_slice_header_bits: u8,
    pub sign_data_hiding_enabled_flag: bool,
    pub cabac_init_present_flag: bool,
    pub num_ref_idx_l0_default_active_minus1: u8,
    pub num_ref_idx_l1_default_active_minus1: u8,
    pub init_qp_minus26: i8,
}

impl PpsHead {
    /// The fields of `s`.
    #[verifier::opaque]
    pub open spec fn of(s: Pps) -> Self {
        PpsHead {
            pic_parameter_set_id: s.pic_parameter_set_id,
            seq_parameter_set_id: s.seq_parameter_set_id,
            dependent_slice_segments_enabled_flag: s.dependent_slice_segments_enabled_flag,
            output_flag_present_flag: s.output_flag_present_flag,
            num_extra_slice_header_bits: s.num_extra_slice_header_bits,
            sign_data_hiding_enabled_flag: s.sign_data_hiding_enabled_flag,
            cabac_init_present_flag: s.cabac_init_present_flag,
            num_ref_idx_l0_default_active_minus1: s.num_ref_idx_l0_default_active_minus1,
            num_ref_idx_l1_default_active_minus1: s.num_ref_idx_l1_default_active_minus1,
            init_qp_minus26: s.init_qp_minus26,
        }
    }

    /// Whether `s` holds these fields.
    pub open spec fn fills(self, s: Pps) -> bool {
        Self::of(s) == self
    }

    /// Whether the fields that are coded of `v` are these.
    #[verifier::opaque]
    pub open spec fn same(self, v: Pps) -> bool {
        &&& self.pic_parameter_set_id == v.pic_parameter_set_id
        &&& self.seq_parameter_set_id == v.seq_parameter_set_id
        &&& self.dependent_slice_segments_enabled_flag == v.dependent_slice_segments_enabled_flag
        &&& self.output_flag_present_flag == v.output_flag_present_flag
        &&& self.num_extra_slice_header_bits == v.num_extra_slice_header_bits
        &&& self.sign_data_hiding_enabled_flag == v.sign_data_hiding_enabled_flag
        &&& self.cabac_init_present_flag == v.cabac_init_present_flag
        &&& self.num_ref_idx_l0_default_active_minus1 == v.num_ref_idx_l0_default_active_minus1
        &&& self.num_ref_idx_l1_default_active_minus1 == v.num_ref_idx_l1_default_active_minus1
        &&& self.init_qp_minus26 == v.init_qp_minus26
    }
}

/// The identifiers and the defaults of the slices.
#[verifier::rlimit(40)]
pub(crate) fn parse_pps_head(r: &mut BitReader) -> (f: PpsHead)
    requires
        old(r).inv(),
    ensures
        final(r).inv(),
        final(r)@ is Some ==> old(r)@ is Some,
        forall|s: Pps| f.fills(s) ==> decodes(old(r)@, #[trigger] pps_head_syntax(s), final(r)@),
        forall|v: Pps, rest: Seq<bool>|
            old(r)@ == Some(#[trigger] pps_head_syntax(v).onto(rest)) && pps_head_syntax(v).fits()
                ==> final(r)@ == Some(
                rest,
            ) && f.same(v),
{
    proof {
        lemma_pow2_values();
        reveal(pps_head_syntax);
        reveal(PpsHead::of);
        reveal(PpsHead::same);
    }
    let pic_parameter_set_id: u8 = r.ue(0xff) as u8;
    let seq_parameter_set_id: u8 = r.ue(0xff) as u8;
    let dependent_slice_segments_enabled_flag: bool = r.flag();
    let output_flag_present_flag: bool = r.flag();
    let num_extra_slice_header_bits: u8 = r.u(3) as u8;
    let sign_data_hiding_enabled_flag: bool = r.flag();
    let cabac_init_present_flag: bool = r.flag();
    let num_ref_idx_l0_default_active_minus1: u8 = r.ue(0xff) as u8;
    let num_ref_idx_l1_default_active_minus1: u8 = r.ue(0xff) as u8;
    let init_qp_minus26: i8 = r.se(-0x80, 0x7f) as i8;
    PpsHead {
        pic_parameter_set_id,
        seq_parameter_set_id,
        dependent_slice_segments_enabled_flag,
        output_flag_present_flag,
        num_extra_slice_header_bits,
        sign_data_hiding_enabled_flag,
        cabac_init_present_flag,
        num_ref_idx_l0_default_active_minus1,
        num_ref_idx_l1_default_active_minus1,
        init_qp_minus26,
    }
}

/// The coding tools.
pub struct PpsTools {
    pub constrained_intra_pred_flag: bool,
    pub transform_skip_enabled_flag: bool,
    pub cu_qp_delta_enabled_flag: bool,
    pub diff_cu_qp_delta_depth: u8,
    pub cb_qp_offset: i8,
    pub cr_qp_offset: i8,
    pub slice_chroma_qp_offsets_present_flag: bool,
    pub weighted_pred_flag: bool,
    pub weighted_bipred_flag: bool,
    pub transquant_bypass_enabled_flag: bool,
    pub tiles_enabled_flag: bool,
    pub entropy_coding_sync_enabled_flag: bool,
}

impl PpsTools {
    /// The fields of `s`.
    #[verifier::opaque]
    pub open spec fn of(s: Pps) -> Self {
        PpsTools {
            constrained_intra_pred_flag: s.constrained_intra_pred_flag,
            transform_skip_enabled_flag: s.transform_skip_enabled_flag,
            cu_qp_delta_enabled_flag: s.cu_qp_delta_enabled_flag,
            diff_cu_qp_delta_depth: s.diff_cu_qp_delta_depth,
            cb_qp_offset: s.cb_qp_offset,
            cr_qp_offset: s.cr_qp_offset,
            slice_chroma_qp_offsets_present_flag: s.slice_chroma_qp_offsets_present_flag,
            weighted_pred_flag: s.weighted_pred_flag,
            weighted_bipred_flag: s.weighted_bipred_flag,
            transquant_bypass_enabled_flag: s.transquant_bypass_enabled_flag,
            tiles_enabled_flag: s.tiles_enabled_flag,
            entropy_coding_sync_enabled_flag: s.entropy_coding_sync_enabled_flag,
        }
    }

    /// Whether `s` holds these fields.
    pub open spec fn fills(self, s: Pps) -> bool {
        Self::of(s) == self
    }

    /// Whether what is not coded has its inferred or initial value.
    #[verifier::opaque]
    pub open spec fn settled(self) -> bool {
        &&& !self.cu_qp_delta_enabled_flag ==> self.diff_cu_qp_delta_depth == 0
    }

    /// Whether the fields that are coded of `v` are these.
    #[verifier::opaque]
    pub open spec fn same(self, v: Pps) -> bool {
        &&& self.constrained_intra_pred_flag == v.constrained_intra_pred_flag
        &&& self.transform_skip_enabled_flag == v.transform_skip_enabled_flag
        &&& self.cu_qp_delta_enabled_flag == v.cu_qp_delta_enabled_flag
        &&& v.cu_qp_delta_enabled_flag ==> self.diff_cu_qp_delta_depth == v.diff_cu_qp_delta_depth
        &&& self.cb_qp_offset == v.cb_qp_offset
        &&& self.cr_qp_offset == v.cr_qp_offset
        &&& self.slice_chroma_qp_offsets_present_flag == v.slice_chroma_qp_offsets_present_flag
        &&& self.weighted_pred_flag == v.weighted_pred_flag
        &&& self.weighted_bipred_flag == v.weighted_bipred_flag
        &&& self.transquant_bypass_enabled_flag == v.transquant_bypass_enabled_flag
        &&& self.tiles_enabled_flag == v.tiles_enabled_flag
        &&& self.entropy_coding_sync_enabled_flag == v.entropy_coding_sync_enabled_flag
    }
}

/// The coding tools.
#[verifier::rlimit(40)]
pub(crate) fn parse_pps_tools(r: &mut BitReader) -> (f: PpsTools)
    requires
        old(r).inv(),
    ensures
        final(r).inv(),
        final(r)@ is Some ==> old(r)@ is Some,
        forall|s: Pps| f.fills(s) ==> decodes(old(r)@, #[trigger] pps_tools_syntax(s), final(r)@),
        forall|v: Pps, rest: Seq<bool>|
            old(r)@ == Some(#[trigger] pps_tools_syntax(v).onto(rest)) && pps_tools_syntax(v).fits()
                ==> final(r)@ == Some(
                rest,
            ) && f.same(v),
        f.settled(),
{
    proof {
        reveal(pps_tools_syntax);
        reveal(PpsTools::settled);
        reveal(PpsTools::of);
        reveal(PpsTools::same);
    }
    let constrained_intra_pred_flag: bool = r.flag();
    let transform_skip_enabled_flag: bool = r.flag();
    let cu_qp_delta_enabled_flag: bool = r.flag();
    let mut diff_cu_qp_delta_depth: u8 = 0;
    if cu_qp_delta_enabled_flag {
        diff_cu_qp_delta_depth = r.ue(0xff) as u8;
    }
    let cb_qp_offset: i8 = r.se(-0x80, 0x7f) as i8;
    let cr_qp_offset: i8 = r.se(-0x80, 0x7f) as i8;
    let slice_chroma_qp_offsets_present_flag: bool = r.flag();
    let weighted_pred_flag: bool = r.flag();
    let weighted_bipred_flag: bool = r.flag();
    let transquant_bypass_enabled_flag: bool = r.flag();
    let tiles_enabled_flag: bool = r.flag();
    let entropy_coding_sync_enabled_flag: bool = r.flag();
    PpsTools {
        constrained_intra_pred_flag,
        transform_skip_enabled_flag,
        cu_qp_delta_enabled_flag,
        diff_cu_qp_delta_depth,
        cb_qp_offset,
        cr_qp_offset,
        slice_chroma_qp_offsets_present_flag,
        weighted_pred_flag,
        weighted_bipred_flag,
        transquant_bypass_enabled_flag,
        tiles_enabled_flag,
        entropy_coding_sync_enabled_flag,
    }
}

/// The tiles, where there are any.
pub struct PpsTiles {
    pub num_tile_columns_minus1: u8,
    pub num_tile_rows_minus1: u8,
    pub uniform_spacing_flag: bool,
    pub column_width_minus1: [u32; 19],
    pub row_height_minus1: [u32; 21],
    pub loop_filter_across_tiles_enabled_flag: bool,
}

impl PpsTiles {
    /// The fields of `s`.
    #[verifier::opaque]
    pub open spec fn of(s: Pps) -> Self {
        PpsTiles {
            num_tile_columns_minus1: s.num_tile_columns_minus1,
            num_tile_rows_minus1: s.num_tile_rows_minus1,
            uniform_spacing_flag: s.uniform_spacing_flag,
            column_width_minus1: s.column_width_minus1,
            row_height_minus1: s.row_height_minus1,
            loop_filter_across_tiles_enabled_flag: s.loop_filter_across_tiles_enabled_flag,
        }
    }

    /// Whether `s` holds these fields.
    pub open spec fn fills(self, s: Pps) -> bool {
        Self::of(s) == self
    }

    /// Whether what is not coded has its inferred or initial value.
    #[verifier::opaque]
    pub open spec fn settled(self, tiles_enabled_flag: bool) -> bool {
        &&& !tiles_enabled_flag ==> {
            &&& self.num_tile_columns_minus1 == 0
            &&& self.num_tile_rows_minus1 == 0
            &&& self.uniform_spacing_flag
            &&& self.loop_filter_across_tiles_enabled_flag
        }
        &&& tail_is(
            self.column_width_minus1@,
            (if self.uniform_spacing_flag { 0 } else { self.num_tile_columns_minus1 as int }),
            0u32,
        )
        &&& tail_is(
            self.row_height_minus1@,
            (if self.uniform_spacing_flag { 0 } else { self.num_tile_rows_minus1 as int }),
            0u32,
        )
    }

    /// Whether the fields that are coded of `v` are these.
    #[verifier::opaque]
    pub open spec fn same(self, v: Pps, tiles_enabled_flag: bool) -> bool {
        &&& tiles_enabled_flag ==> self.num_tile_columns_minus1 == v.num_tile_columns_minus1
        &&& tiles_enabled_flag ==> self.num_tile_rows_minus1 == v.num_tile_rows_minus1
        &&& tiles_enabled_flag ==> self.uniform_spacing_flag == v.uniform_spacing_flag
        &&& tiles_enabled_flag && !v.uniform_spacing_flag
            ==> agree(
                self.column_width_minus1@,
                v.column_width_minus1@,
                v.num_tile_columns_minus1 as int,
            )
        &&& tiles_enabled_flag && !v.uniform_spacing_flag
            ==> agree(self.row_height_minus1@, v.row_height_minus1@, v.num_tile_rows_minus1 as int)
        &&& tiles_enabled_flag
            ==> self.loop_filter_across_tiles_enabled_flag == v.loop_filter_across_tiles_enabled_flag
    }
}

/// The tiles, where there are any.
pub(crate) fn parse_pps_tiles(r: &mut BitReader, tiles_enabled_flag: bool) -> (f: PpsTiles)
    requires
        old(r).inv(),
    ensures
        final(r).inv(),
        final(r)@ is Some ==> old(r)@ is Some,
        forall|s: Pps| s.tiles_enabled_flag == tiles_enabled_flag && f.fills(s)
            ==> decodes(old(r)@, #[trigger] pps_tiles_syntax(s), final(r)@),
        forall|v: Pps, rest: Seq<bool>|
            v.tiles_enabled_flag == tiles_enabled_flag
                && old(r)@ == Some(#[trigger] pps_tiles_syntax(v).onto(rest))
                && pps_tiles_syntax(v).fits()
                ==> final(r)@ == Some(
                rest,
            ) && f.same(v, tiles_enabled_flag),
        final(r)@ is Some && !f.uniform_spacing_flag
            ==> f.num_tile_columns_minus1 <= 19 && f.num_tile_rows_minus1 <= 21,
        final(r)@ is Some ==> f.settled(tiles_enabled_flag),
{
    proof {
        reveal(pps_tiles_syntax);
        reveal(PpsTiles::settled);
        reveal(PpsTiles::of);
        reveal(PpsTiles::same);
        assert forall|s: Seq<u32>, n: int| #[trigger] ues_from(s, 0, n).fits() implies n <= s.len()
            by {
            lemma_ues_bound(s, 0, n);
        }
    }
    let mut num_tile_columns_minus1: u8 = 0;
    let mut num_tile_rows_minus1: u8 = 0;
    let mut uniform_spacing_flag: bool = true;
    let mut column_width_minus1: [u32; 19] = [0; 19];
    let mut row_height_minus1: [u32; 21] = [0; 21];
    let mut loop_filter_across_tiles_enabled_flag: bool = true;
    if tiles_enabled_flag {
        num_tile_columns_minus1 = r.ue(0xff) as u8;
        num_tile_rows_minus1 = r.ue(0xff) as u8;
        uniform_spacing_flag = r.flag();
        let explicit = num_tile_columns_minus1 <= 19 && num_tile_rows_minus1 <= 21;
        if !uniform_spacing_flag {
            r.require(explicit);
            column_width_minus1 = parse_ues::<19>(
                r,
                if explicit { num_tile_columns_minus1 as usize } else { 0 },
            );
            row_height_minus1 = parse_ues::<21>(
                r,
                if explicit { num_tile_rows_minus1 as usize } else { 0 },
            );
        }
        loop_filter_across_tiles_enabled_flag = r.flag();
    }
    PpsTiles {
        num_tile_columns_minus1,
        num_tile_rows_minus1,
        uniform_spacing_flag,
        column_width_minus1,
        row_height_minus1,
        loop_filter_across_tiles_enabled_flag,
    }
}

/// The loop filters.
pub struct PpsFilters {
    pub loop_filter_across_slices_enabled_flag: bool,
    pub deblocking_filter_control_present_flag: bool,
    pub deblocking_filter_override_enabled_flag: bool,
    pub deblocking_filter_disabled_flag: bool,
    pub beta_offset_div2: i8,
    pub tc_offset_div2: i8,
}

impl PpsFilters {
    /// The fields of `s`.
    #[verifier::opaque]
    pub open spec fn of(s: Pps) -> Self {
        PpsFilters {
            loop_filter_across_slices_enabled_flag: s.loop_filter_across_slices_enabled_flag,
            deblocking_filter_control_present_flag: s.deblocking_filter_control_present_flag,
            deblocking_filter_override_enabled_flag: s.deblocking_filter_override_enabled_flag,
            deblocking_filter_disabled_flag: s.deblocking_filter_disabled_flag,
            beta_offset_div2: s.beta_offset_div2,
            tc_offset_div2: s.tc_offset_div2,
        }
    }

    /// Whether `s` holds these fields.
    pub open spec fn fills(self, s: Pps) -> bool {
        Self::of(s) == self
    }

    /// Whether what is not coded has its inferred or initial value.
    #[verifier::opaque]
    pub open spec fn settled(self) -> bool {
        &&& !self.deblocking_filter_control_present_flag ==> {
            &&& !self.deblocking_filter_override_enabled_flag
            &&& !self.deblocking_filter_disabled_flag
        }
        &&& !(self.deblocking_filter_control_present_flag && !self.deblocking_filter_disabled_flag) ==> {
            &&& self.beta_offset_div2 == 0
            &&& self.tc_offset_div2 == 0
        }
    }

    /// Whether the fields that are coded of `v` are these.
    #[verifier::opaque]
    pub open spec fn same(self, v: Pps) -> bool {
        &&& self.loop_filter_across_slices_enabled_flag == v.loop_filter_across_slices_enabled_flag
        &&& self.deblocking_filter_control_present_flag == v.deblocking_filter_control_present_flag
        &&& v.deblocking_filter_control_present_flag
            ==> self.deblocking_filter_override_enabled_flag == v.deblocking_filter_override_enabled_flag
        &&& v.deblocking_filter_control_present_flag
            ==> self.deblocking_filter_disabled_flag == v.deblocking_filter_disabled_flag
        &&& v.deblocking_filter_control_present_flag && !v.deblocking_filter_disabled_flag
            ==> self.beta_offset_div2 == v.beta_offset_div2
        &&& v.deblocking_filter_control_present_flag && !v.deblocking_filter_disabled_flag
            ==> self.tc_offset_div2 == v.tc_offset_div2
    }
}

/// The loop filters.
pub(crate) fn parse_pps_filters(r: &mut BitReader) -> (f: PpsFilters)
    requires
        old(r).inv(),
    ensures
        final(r).inv(),
        final(r)@ is Some ==> old(r)@ is Some,
        forall|s: Pps| f.fills(s) ==> decodes(old(r)@, #[trigger] pps_filters_syntax(s), final(r)@),
        forall|v: Pps, rest: Seq<bool>|
            old(r)@ == Some(#[trigger] pps_filters_syntax(v).onto(rest))
                && pps_filters_syntax(v).fits()
                ==> final(r)@ == Some(
                rest,
            ) && f.same(v),
        f.settled(),
{
    proof {
        reveal(pps_filters_syntax);
        reveal(PpsFilters::settled);
        reveal(PpsFilters::of);
        reveal(PpsFilters::same);
    }
    let loop_filter_across_slices_enabled_flag: bool = r.flag();
    let deblocking_filter_control_present_flag: bool = r.flag();
    let mut deblocking_filter_override_enabled_flag: bool = false;
    let mut deblocking_filter_disabled_flag: bool = false;
    let mut beta_offset_div2: i8 = 0;
    let mut tc_offset_div2: i8 = 0;
    if deblocking_filter_control_present_flag {
        deblocking_filter_override_enabled_flag = r.flag();
        deblocking_filter_disabled_flag = r.flag();
        if !deblocking_filter_disabled_flag {
            beta_offset_div2 = r.se(-0x80, 0x7f) as i8;
            tc_offset_div2 = r.se(-0x80, 0x7f) as i8;
        }
    }
    PpsFilters {
        loop_filter_across_slices_enabled_flag,
        deblocking_filter_control_present_flag,
        deblocking_filter_override_enabled_flag,
        deblocking_filter_disabled_flag,
        beta_offset_div2,
        tc_offset_div2,
    }
}

/// The scaling lists, and what follows them up to the extensions.
pub struct PpsLists {
    pub scaling_list_data_present_flag: bool,
    pub scaling_list: ScalingLists,
    pub lists_modification_present_flag: bool,
    pub log2_parallel_merge_level_minus2: u8,
    pub slice_segment_header_extension_present_flag: bool,
}

impl PpsLists {
    /// The fields of `s`.
    #[verifier::opaque]
    pub open spec fn of(s: Pps) -> Self {
        PpsLists {
            scaling_list_data_present_flag: s.scaling_list_data_present_flag,
            scaling_list: s.scaling_list,
            lists_modification_present_flag: s.lists_modification_present_flag,
            log2_parallel_merge_level_minus2: s.log2_parallel_merge_level_minus2,
            slice_segment_header_extension_present_flag: s.slice_segment_header_extension_present_flag,
        }
    }

    /// Whether `s` holds these fields.
    pub open spec fn fills(self, s: Pps) -> bool {
        Self::of(s) == self
    }

    /// Whether what is not coded has its inferred or initial value.
    #[verifier::opaque]
    pub open spec fn settled(self) -> bool {
        &&& if self.scaling_list_data_present_flag {
            scaling_settled(self.scaling_list)
        } else {
            self.scaling_list == ScalingLists::initial()
        }
    }

    /// Whether the fields that are coded of `v` are these.
    #[verifier::opaque]
    pub open spec fn same(self, v: Pps) -> bool {
        &&& self.scaling_list_data_present_flag == v.scaling_list_data_present_flag
        &&& v.scaling_list_data_present_flag
            ==> scaling_lists_same(self.scaling_list, v.scaling_list)
        &&& self.lists_modification_present_flag == v.lists_modification_present_flag
        &&& self.log2_parallel_merge_level_minus2 == v.log2_parallel_merge_level_minus2
        &&& self.slice_segment_header_extension_present_flag == v.slice_segment_header_extension_present_flag
    }
}

/// The scaling lists, and what follows them up to the extensions.
pub(crate) fn parse_pps_lists(r: &mut BitReader) -> (f: PpsLists)
    requires
        old(r).inv(),
    ensures
        final(r).inv(),
        final(r)@ is Some ==> old(r)@ is Some,
        forall|s: Pps| f.fills(s) ==> decodes(old(r)@, #[trigger] pps_lists_syntax(s), final(r)@),
        forall|v: Pps, rest: Seq<bool>|
            old(r)@ == Some(#[trigger] pps_lists_syntax(v).onto(rest)) && pps_lists_syntax(v).fits()
                ==> final(r)@ == Some(
                rest,
            ) && f.same(v),
        f.settled(),
{
    proof {
        reveal(pps_lists_syntax);
        reveal(PpsLists::settled);
        reveal(PpsLists::of);
        reveal(PpsLists::same);
    }
    let scaling_list_data_present_flag: bool = r.flag();
    let mut scaling_list: ScalingLists = ScalingLists::default();
    if scaling_list_data_present_flag {
        scaling_list = parse_scaling_list_data(r);
    }
    let lists_modification_present_flag: bool = r.flag();
    let log2_parallel_merge_level_minus2: u8 = r.ue(0xff) as u8;
    let slice_segment_header_extension_present_flag: bool = r.flag();
    PpsLists {
        scaling_list_data_present_flag,
        scaling_list,
        lists_modification_present_flag,
        log2_parallel_merge_level_minus2,
        slice_segment_header_extension_present_flag,
    }
}

/// The chroma QP offsets.
fn parse_qp_offsets(r: &mut BitReader, n: usize) -> (a: ([i32; 6], [i32; 6]))
    requires
        old(r).inv(),
        n <= 6,
    ensures
        final(r).inv(),
        forall|k: int| 0 <= k < 6 ==> #[trigger] a.0@[k] > i32::MIN,
        forall|k: int| 0 <= k < 6 ==> #[trigger] a.1@[k] > i32::MIN,
        final(r)@ is Some ==> old(r)@ is Some,
        forall|s: PpsRangeExtension|
            agree(a.0@, s.cb_qp_offset_list@, n as int)
                && agree(a.1@, s.cr_qp_offset_list@, n as int)
                ==> decodes(old(r)@, #[trigger] qp_offsets_from(s, 0, n as int), final(r)@),
        forall|v: PpsRangeExtension, rest: Seq<bool>|
            old(r)@ == Some(#[trigger] qp_offsets_from(v, 0, n as int).onto(rest))
                && qp_offsets_from(v, 0, n as int).fits() && offsets_bounded(v, n as int)
                ==> final(r)@ == Some(rest) && agree(a.0@, v.cb_qp_offset_list@, n as int)
                    && agree(a.1@, v.cr_qp_offset_list@, n as int),
        tail_is(a.0@, n as int, 0i32),
        tail_is(a.1@, n as int, 0i32),
{
    let mut a: ([i32; 6], [i32; 6]) = ([0; 6], [0; 6]);
    let mut i: usize = 0;
    while i < n
        invariant
            i <= n <= 6,
            tail_is(a.0@, i as int, 0i32),
            tail_is(a.1@, i as int, 0i32),
            r.inv(),
            forall|k: int| 0 <= k < 6 ==> #[trigger] a.0@[k] > i32::MIN,
            forall|k: int| 0 <= k < 6 ==> #[trigger] a.1@[k] > i32::MIN,
            r@ is Some ==> old(r)@ is Some,
            forall|s: PpsRangeExtension, rest: Seq<bool>|
                agree(a.0@, s.cb_qp_offset_list@, i as int)
                    && agree(a.1@, s.cr_qp_offset_list@, i as int)
                    && r@ == Some(qp_offsets_from(s, i as int, n as int).onto(rest))
                    ==> old(r)@
                    == Some(#[trigger] qp_offsets_from(s, 0, n as int).onto(rest)),
            forall|s: PpsRangeExtension|
                agree(a.0@, s.cb_qp_offset_list@, i as int)
                    && agree(a.1@, s.cr_qp_offset_list@, i as int) && r@ is Some
                    && qp_offsets_from(s, i as int, n as int).fits()
                    ==> #[trigger] qp_offsets_from(s, 0, n as int).fits(),
            forall|v: PpsRangeExtension, rest: Seq<bool>|
                old(r)@ == Some(#[trigger] qp_offsets_from(v, 0, n as int).onto(rest))
                    && qp_offsets_from(v, 0, n as int).fits() && offsets_bounded(v, n as int)
                    ==> r@ == Some(qp_offsets_from(v, i as int, n as int).onto(rest))
                        && qp_offsets_from(v, i as int, n as int).fits()
                        && agree(a.0@, v.cb_qp_offset_list@, i as int)
                        && agree(a.1@, v.cr_qp_offset_list@, i as int),
        decreases n - i,
    {
        let cb: i32 = r.se(-0x7fff_ffff, 0x7fff_ffff);
        let cr: i32 = r.se(-0x7fff_ffff, 0x7fff_ffff);
        a.0[i] = cb;
        a.1[i] = cr;
        i = i + 1;
    }
    a
}

/// Whether the first `n` offsets have a code.
pub open spec fn offsets_bounded(e: PpsRangeExtension, n: int) -> bool {
    &&& forall|i: int| 0 <= i < n ==> #[trigger] e.cb_qp_offset_list[i] > i32::MIN
    &&& forall|i: int| 0 <= i < n ==> #[trigger] e.cr_qp_offset_list[i] > i32::MIN
}

/// Whether the fields that are coded of `v` are those of `p`.
pub open spec fn pps_range_same(
    p: PpsRangeExtension,
    v: PpsRangeExtension,
    transform_skip_enabled_flag: bool,
) -> bool {
    let n = v.chroma_qp_offset_list_len_minus1 + 1;
    &&& transform_skip_enabled_flag ==> p.log2_max_transform_skip_block_size_minus2
        == v.log2_max_transform_skip_block_size_minus2
    &&& p.cross_component_prediction_enabled_flag == v.cross_component_prediction_enabled_flag
    &&& p.chroma_qp_offset_list_enabled_flag == v.chroma_qp_offset_list_enabled_flag
    &&& v.chroma_qp_offset_list_enabled_flag ==> {
        &&& p.diff_cu_chroma_qp_offset_depth == v.diff_cu_chroma_qp_offset_depth
        &&& p.chroma_qp_offset_list_len_minus1 == v.chroma_qp_offset_list_len_minus1
        &&& agree(p.cb_qp_offset_list@, v.cb_qp_offset_list@, n)
        &&& agree(p.cr_qp_offset_list@, v.cr_qp_offset_list@, n)
    }
    &&& p.log2_sao_offset_scale_luma == v.log2_sao_offset_scale_luma
    &&& p.log2_sao_offset_scale_chroma == v.log2_sao_offset_scale_chroma
}

/// Whether what is not coded has its initial value.
pub open spec fn pps_range_settled(
    p: PpsRangeExtension,
    transform_skip_enabled_flag: bool,
) -> bool {
    let n = if p.chroma_qp_offset_list_enabled_flag {
        p.chroma_qp_offset_list_len_minus1 + 1
    } else {
        0
    };
    &&& !transform_skip_enabled_flag ==> p.log2_max_transform_skip_block_size_minus2 == 0
    &&& !p.chroma_qp_offset_list_enabled_flag ==> {
        &&& p.diff_cu_chroma_qp_offset_depth == 0
        &&& p.chroma_qp_offset_list_len_minus1 == 0
    }
    &&& tail_is(p.cb_qp_offset_list@, n, 0i32)
    &&& tail_is(p.cr_qp_offset_list@, n, 0i32)
}

/// `pps_range_extension()` (7.3.2.3.2).
fn parse_pps_range_extension(
    r: &mut BitReader,
    transform_skip_enabled_flag: bool,
) -> (f: PpsRangeExtension)
    requires
        old(r).inv(),
    ensures
        final(r).inv(),
        decodes(old(r)@, pps_range_extension_syntax(f, transform_skip_enabled_flag), final(r)@),
        forall|v: PpsRangeExtension, rest: Seq<bool>|
            old(r)@ == Some(#[trigger] pps_range_extension_syntax(v, transform_skip_enabled_flag).onto(rest))
                && pps_range_extension_syntax(v, transform_skip_enabled_flag).fits()
                    ==> final(r)@
                == Some(rest) && pps_range_same(f, v, transform_skip_enabled_flag),
        pps_range_settled(f, transform_skip_enabled_flag),
{
    proof {
        reveal(pps_range_extension_syntax);
        reveal(qp_offset_list_syntax);
    }
    let mut log2_max_transform_skip_block_size_minus2: u32 = 0;
    if transform_skip_enabled_flag {
        log2_max_transform_skip_block_size_minus2 = r.ue(MAX_UE);
    }
    let cross_component_prediction_enabled_flag: bool = r.flag();
    let chroma_qp_offset_list_enabled_flag: bool = r.flag();
    let mut diff_cu_chroma_qp_offset_depth: u32 = 0;
    let mut chroma_qp_offset_list_len_minus1: u32 = 0;
    let mut offsets: ([i32; 6], [i32; 6]) = ([0; 6], [0; 6]);
    if chroma_qp_offset_list_enabled_flag {
        diff_cu_chroma_qp_offset_depth = r.ue(MAX_UE);
        chroma_qp_offset_list_len_minus1 = r.ue(5);
        offsets = parse_qp_offsets(r, chroma_qp_offset_list_len_minus1 as usize + 1);
    }
    let log2_sao_offset_scale_luma: u32 = r.ue(MAX_UE);
    let log2_sao_offset_scale_chroma: u32 = r.ue(MAX_UE);
    PpsRangeExtension {
        log2_max_transform_skip_block_size_minus2,
        cross_component_prediction_enabled_flag,
        chroma_qp_offset_list_enabled_flag,
        diff_cu_chroma_qp_offset_depth,
        chroma_qp_offset_list_len_minus1,
        cb_qp_offset_list: offsets.0,
        cr_qp_offset_list: offsets.1,
        log2_sao_offset_scale_luma,
        log2_sao_offset_scale_chroma,
    }
}

/// The extensions.
pub struct PpsExtension {
    pub extension_present_flag: bool,
    pub range_extension_flag: bool,
    pub range_extension: PpsRangeExtension,
    pub scc_extension_flag: bool,
}

impl PpsExtension {
    /// The fields of `s`.
    #[verifier::opaque]
    pub open spec fn of(s: Pps) -> Self {
        PpsExtension {
            extension_present_flag: s.extension_present_flag,
            range_extension_flag: s.range_extension_flag,
            range_extension: s.range_extension,
            scc_extension_flag: s.scc_extension_flag,
        }
    }

    /// Whether `s` holds these fields.
    pub open spec fn fills(self, s: Pps) -> bool {
        Self::of(s) == self
    }

    /// Whether what is not coded has its inferred or initial value.
    #[verifier::opaque]
    pub open spec fn settled(self, transform_skip_enabled_flag: bool) -> bool {
        &&& !self.extension_present_flag ==> {
            &&& !self.range_extension_flag
            &&& !self.scc_extension_flag
        }
        &&& if self.range_extension_flag {
            pps_range_settled(self.range_extension, transform_skip_enabled_flag)
        } else {
            self.range_extension == PpsRangeExtension::initial()
        }
    }

    /// Whether the fields that are coded of `v` are these.
    #[verifier::opaque]
    pub open spec fn same(self, v: Pps, transform_skip_enabled_flag: bool) -> bool {
        &&& self.extension_present_flag == v.extension_present_flag
        &&& v.extension_present_flag ==> self.range_extension_flag == v.range_extension_flag
        &&& v.extension_present_flag && v.range_extension_flag
            ==> pps_range_same(
                self.range_extension,
                v.range_extension,
                v.transform_skip_enabled_flag,
            )
        &&& v.extension_present_flag ==> self.scc_extension_flag == v.scc_extension_flag
    }
}

/// The extensions. Only the range extension is read; any other is refused.
#[verifier::rlimit(40)]
pub(crate) fn parse_pps_extension(
    r: &mut BitReader,
    transform_skip_enabled_flag: bool,
) -> (f: PpsExtension)
    requires
        old(r).inv(),
    ensures
        final(r).inv(),
        final(r)@ is Some ==> old(r)@ is Some,
        forall|s: Pps| s.transform_skip_enabled_flag == transform_skip_enabled_flag && f.fills(s)
            ==> decodes(old(r)@, #[trigger] pps_extension_syntax(s), final(r)@),
        forall|v: Pps, rest: Seq<bool>|
            v.transform_skip_enabled_flag == transform_skip_enabled_flag
                && old(r)@ == Some(#[trigger] pps_extension_syntax(v).onto(rest))
                && pps_extension_syntax(v).fits()
                ==> final(r)@ == Some(
                rest,
            ) && f.same(v, transform_skip_enabled_flag),
        f.settled(transform_skip_enabled_flag),
{
    proof {
        reveal(pps_extension_syntax);
        reveal(PpsExtension::settled);
        reveal(PpsExtension::of);
        reveal(PpsExtension::same);
    }
    let extension_present_flag: bool = r.flag();
    let mut range_extension_flag: bool = false;
    let mut range_extension: PpsRangeExtension = PpsRangeExtension::default();
    let mut scc_extension_flag: bool = false;
    if extension_present_flag {
        range_extension_flag = r.flag();
        if range_extension_flag {
            range_extension = parse_pps_range_extension(r, transform_skip_enabled_flag);
        }
        let multilayer_extension_flag: bool = r.flag();
        r.require(!multilayer_extension_flag);
        let three_d_extension_flag: bool = r.flag();
        r.require(!three_d_extension_flag);
        scc_extension_flag = r.flag();
        r.require(!scc_extension_flag);
        let extension_4bits: u32 = r.u(4);
        r.require(extension_4bits == 0);
    }
    PpsExtension {
        extension_present_flag,
        range_extension_flag,
        range_extension,
        scc_extension_flag,
    }
}

/// Whether the fields that are coded of `v` are those of `p`.
pub open spec fn pps_same(p: Pps, v: Pps) -> bool {
    &&& PpsHead::of(p).same(v)
    &&& PpsTools::of(p).same(v)
    &&& PpsTiles::of(p).same(v, p.tiles_enabled_flag)
    &&& PpsFilters::of(p).same(v)
    &&& PpsLists::of(p).same(v)
    &&& PpsExtension::of(p).same(v, p.transform_skip_enabled_flag)
}

/// Whether what is not coded has its inferred or initial value.
pub open spec fn pps_settled(p: Pps) -> bool {
    &&& PpsTools::of(p).settled()
    &&& PpsTiles::of(p).settled(p.tiles_enabled_flag)
    &&& PpsFilters::of(p).settled()
    &&& PpsLists::of(p).settled()
    &&& PpsExtension::of(p).settled(p.transform_skip_enabled_flag)
    &&& p.scc_extension == PpsSccExtension::initial()
}

/// Whether all fields of `p` and `q` are equal, but for the sequence parameter set.
pub open spec fn pps_equal(p: Pps, q: Pps) -> bool {
    q == (Pps { qp_bd_offset_y: q.qp_bd_offset_y, sps: q.sps, ..p })
}

/// Settled sets that are the same as far as they are coded are equal.
pub proof fn lemma_pps_equal(p: Pps, q: Pps)
    requires
        pps_same(q, p),
        pps_settled(p),
        pps_settled(q),
    ensures
        pps_equal(p, q),
{
    assert(PpsHead::of(q) == PpsHead::of(p)) by {
        reveal(PpsHead::of);
        reveal(PpsHead::same);
    }
    assert(p.tiles_enabled_flag == q.tiles_enabled_flag && p.transform_skip_enabled_flag
        == q.transform_skip_enabled_flag) by {
        reveal(PpsTools::of);
        reveal(PpsTools::same);
    }
    assert(PpsTools::of(q) == PpsTools::of(p)) by {
        reveal(PpsTools::of);
        reveal(PpsTools::same);
        reveal(PpsTools::settled);
    }
    assert(PpsTiles::of(q) == PpsTiles::of(p)) by {
        reveal(PpsTiles::of);
        reveal(PpsTiles::same);
        reveal(PpsTiles::settled);
        assert(q.column_width_minus1 =~= p.column_width_minus1);
        assert(q.row_height_minus1 =~= p.row_height_minus1);
    }
    assert(PpsFilters::of(q) == PpsFilters::of(p)) by {
        reveal(PpsFilters::of);
        reveal(PpsFilters::same);
        reveal(PpsFilters::settled);
    }
    assert(PpsLists::of(q) == PpsLists::of(p)) by {
        reveal(PpsLists::of);
        reveal(PpsLists::same);
        reveal(PpsLists::settled);
        if p.scaling_list_data_present_flag {
            lemma_scaling_equal(p.scaling_list, q.scaling_list);
        }
    }
    assert(PpsExtension::of(q) == PpsExtension::of(p)) by {
        reveal(PpsExtension::of);
        reveal(PpsExtension::same);
        reveal(PpsExtension::settled);
        if p.range_extension_flag {
            let a = p.range_extension;
            let b = q.range_extension;
            assert(b.cb_qp_offset_list =~= a.cb_qp_offset_list);
            assert(b.cr_qp_offset_list =~= a.cr_qp_offset_list);
        }
    }
    reveal(PpsHead::of);
    reveal(PpsTools::of);
    reveal(PpsTiles::of);
    reveal(PpsFilters::of);
    reveal(PpsLists::of);
    reveal(PpsExtension::of);
}

/// The structure that holds these fields.
fn assemble_pps(
    head: PpsHead,
    tools: PpsTools,
    tiles: PpsTiles,
    filters: PpsFilters,
    lists: PpsLists,
    extension: PpsExtension,
    qp_bd_offset_y: u32,
    sps: Rc<Sps>,
) -> (p: Pps)
    ensures
        head.fills(p),
        tools.fills(p),
        tiles.fills(p),
        filters.fills(p),
        lists.fills(p),
        extension.fills(p),
        p.qp_bd_offset_y == qp_bd_offset_y,
        p.sps == sps,
        p.scc_extension == PpsSccExtension::initial(),
{
    proof {
        reveal(PpsHead::of);
        reveal(PpsTools::of);
        reveal(PpsTiles::of);
        reveal(PpsFilters::of);
        reveal(PpsLists::of);
        reveal(PpsExtension::of);
    }
    Pps {
        pic_parameter_set_id: head.pic_parameter_set_id,
        seq_parameter_set_id: head.seq_parameter_set_id,
        dependent_slice_segments_enabled_flag: head.dependent_slice_segments_enabled_flag,
        output_flag_present_flag: head.output_flag_present_flag,
        num_extra_slice_header_bits: head.num_extra_slice_header_bits,
        sign_data_hiding_enabled_flag: head.sign_data_hiding_enabled_flag,
        cabac_init_present_flag: head.cabac_init_present_flag,
        num_ref_idx_l0_default_active_minus1: head.num_ref_idx_l0_default_active_minus1,
        num_ref_idx_l1_default_active_minus1: head.num_ref_idx_l1_default_active_minus1,
        init_qp_minus26: head.init_qp_minus26,
        constrained_intra_pred_flag: tools.constrained_intra_pred_flag,
        transform_skip_enabled_flag: tools.transform_skip_enabled_flag,
        cu_qp_delta_enabled_flag: tools.cu_qp_delta_enabled_flag,
        diff_cu_qp_delta_depth: tools.diff_cu_qp_delta_depth,
        cb_qp_offset: tools.cb_qp_offset,
        cr_qp_offset: tools.cr_qp_offset,
        slice_chroma_qp_offsets_present_flag: tools.slice_chroma_qp_offsets_present_flag,
        weighted_pred_flag: tools.weighted_pred_flag,
        weighted_bipred_flag: tools.weighted_bipred_flag,
        transquant_bypass_enabled_flag: tools.transquant_bypass_enabled_flag,
        tiles_enabled_flag: tools.tiles_enabled_flag,
        entropy_coding_sync_enabled_flag: tools.entropy_coding_sync_enabled_flag,
        num_tile_columns_minus1: tiles.num_tile_columns_minus1,
        num_tile_rows_minus1: tiles.num_tile_rows_minus1,
        uniform_spacing_flag: tiles.uniform_spacing_flag,
        column_width_minus1: tiles.column_width_minus1,
        row_height_minus1: tiles.row_height_minus1,
        loop_filter_across_tiles_enabled_flag: tiles.loop_filter_across_tiles_enabled_flag,
        loop_filter_across_slices_enabled_flag: filters.loop_filter_across_slices_enabled_flag,
        deblocking_filter_control_present_flag: filters.deblocking_filter_control_present_flag,
        deblocking_filter_override_enabled_flag: filters.deblocking_filter_override_enabled_flag,
        deblocking_filter_disabled_flag: filters.deblocking_filter_disabled_flag,
        beta_offset_div2: filters.beta_offset_div2,
        tc_offset_div2: filters.tc_offset_div2,
        scaling_list_data_present_flag: lists.scaling_list_data_present_flag,
        scaling_list: lists.scaling_list,
        lists_modification_present_flag: lists.lists_modification_present_flag,
        log2_parallel_merge_level_minus2: lists.log2_parallel_merge_level_minus2,
        slice_segment_header_extension_present_flag: lists.slice_segment_header_extension_present_flag,
        extension_present_flag: extension.extension_present_flag,
        range_extension_flag: extension.range_extension_flag,
        range_extension: extension.range_extension,
        scc_extension_flag: extension.scc_extension_flag,
        qp_bd_offset_y,
        sps,
        scc_extension: PpsSccExtension::default(),
    }
}

/// `pic_parameter_set_rbsp()` (7.3.2.3.1), without the trailing bits.
pub(crate) fn parse_pps(r: &mut BitReader, sps: Rc<Sps>) -> (p: Pps)
    requires
        old(r).inv(),
    ensures
        final(r).inv(),
        decodes(old(r)@, pps_syntax(p), final(r)@),
        final(r)@ is Some ==> pps_settled(p),
        p.sps == sps,
        p.qp_bd_offset_y == 6 * sps.bit_depth_luma_minus8,
        forall|v: Pps, rest: Seq<bool>|
            old(r)@ == Some(#[trigger] pps_syntax(v).onto(rest)) && pps_syntax(v).fits()
                ==> final(r)@ == Some(
                rest,
            ) && pps_same(p, v),
{
    proof {
        reveal(pps_syntax);
        reveal(PpsTools::of);
        reveal(PpsTools::same);
        reveal(PpsTiles::of);
        reveal(PpsTiles::same);
        reveal(PpsExtension::of);
        reveal(PpsExtension::same);
    }
    let head = parse_pps_head(r);
    let tools = parse_pps_tools(r);
    let tiles = parse_pps_tiles(r, tools.tiles_enabled_flag);
    let filters = parse_pps_filters(r);
    let lists = parse_pps_lists(r);
    let extension = parse_pps_extension(r, tools.transform_skip_enabled_flag);
    let qp_bd_offset_y: u32 = 6 * sps.bit_depth_luma_minus8 as u32;
    let p = assemble_pps(head, tools, tiles, filters, lists, extension, qp_bd_offset_y, sps);
    p
}

} // verus!
