//! What the VA-API backend submits for a frame: the parameter buffers, and the packed
//! headers.
//!
//! Some drivers require the application to supply the parameter sets and the slice segment
//! header as packed headers; others generate them. The backend asks the driver, and packs
//! all of them or none: if the driver advertises all of sequence, picture and slice headers,
//! the VPS and the SPS are packed for an IDR picture, the PPS and the slice segment header
//! for every picture. Either way the coded bitstream lands wholly in the coded buffer.
//!
//! The structures here hold the values of the buffers of the same name in `va_enc_hevc.h`.

use crate::codec::h265::synthesizer::{nalu_bytes, table_result, Synthesizer, SynthesizerError};
use crate::codec::h265::tables::{pps_syntax, slice_syntax, sps_syntax, vps_syntax};
use crate::codec::h265::types::{NaluType, Pps, Profile, SliceHeader, SliceType, Sps, Vps};
use crate::encoder::{
    BackendFailure, EncodeError, EncodeResult, RateControl, StatelessBackendError,
    StatelessBackendResult, Tunings,
};
use crate::encoder::stateless::h265::{BackendRequest, DpbEntry};
use std::rc::Rc;
use vstd::prelude::*;

verus! {

/// Values of `VAConfigAttribEncPackedHeaders`.
pub const VA_ENC_PACKED_HEADER_NONE: u32 = 0x0000_0000;

pub const VA_ENC_PACKED_HEADER_SEQUENCE: u32 = 0x0000_0001;

pub const VA_ENC_PACKED_HEADER_PICTURE: u32 = 0x0000_0002;

pub const VA_ENC_PACKED_HEADER_SLICE: u32 = 0x0000_0004;

pub const VA_ENC_PACKED_HEADER_MISC: u32 = 0x0000_0008;

/// The headers that are packed all or none.
pub const PACKED_HEADERS: u32 = 0x0000_0007;

/// The value of an attribute that the driver does not support.
pub const VA_ATTRIB_NOT_SUPPORTED: u32 = 0x8000_0000;

/// The identifier of no surface.
pub const VA_INVALID_ID: u32 = 0xffff_ffff;

/// The flag of a picture that is not there.
pub const VA_PICTURE_HEVC_INVALID: u32 = 0x0000_0001;

/// VA `coding_type` of an intra picture.
pub const CODING_TYPE_I: u32 = 1;

/// VA `coding_type` of a predicted picture.
pub const CODING_TYPE_P: u32 = 2;

/// `collocated_ref_pic_index` where there is no collocated picture, as without temporal
/// motion vector prediction.
pub const COLLOCATED_REF_PIC_NONE: u8 = 0xff;

/// The VA `coding_type` for a slice. It follows the type of the slice and not whether the
/// picture is an IDR picture.
pub fn coding_type_for_slice(slice_type: SliceType) -> (r: u32)
    ensures
        r == (if slice_type == SliceType::I { CODING_TYPE_I } else { CODING_TYPE_P }),
{
    match slice_type {
        SliceType::I => CODING_TYPE_I,
        _ => CODING_TYPE_P,
    }
}

/// The headers the application must supply for the value of an attribute: all three where
/// the driver advertises all three, and none otherwise.
pub open spec fn spec_decide_packed_headers(attrib_value: u32) -> u32 {
    if attrib_value != VA_ATTRIB_NOT_SUPPORTED && attrib_value & PACKED_HEADERS == PACKED_HEADERS {
        PACKED_HEADERS
    } else {
        VA_ENC_PACKED_HEADER_NONE
    }
}

/// The all-three-or-none packed-header decision. Given the queried
/// `VAConfigAttribEncPackedHeaders` value, returns the mask of headers the application must
/// supply: all three when the driver advertises all three, or none when the attribute is
/// unsupported or only partially advertised.
pub fn decide_packed_headers(attrib_value: u32) -> (r: u32)
    ensures
        r == spec_decide_packed_headers(attrib_value),
{
    if attrib_value == VA_ATTRIB_NOT_SUPPORTED {
        return VA_ENC_PACKED_HEADER_NONE;
    }
    if attrib_value & PACKED_HEADERS == PACKED_HEADERS {
        PACKED_HEADERS
    } else {
        VA_ENC_PACKED_HEADER_NONE
    }
}

/// The mask of headers the application must supply, from the outcome of the query. Where
/// the query failed, the driver is taken to generate the headers itself.
pub fn packed_headers_from_query(attrib_value: Option<u32>) -> (r: u32)
    ensures
        r == (match attrib_value {
            Some(v) => spec_decide_packed_headers(v),
            None => VA_ENC_PACKED_HEADER_NONE,
        }),
{
    match attrib_value {
        Some(v) => decide_packed_headers(v),
        None => VA_ENC_PACKED_HEADER_NONE,
    }
}

/// The VA profiles that are encoded.
#[derive(Clone, Copy, Debug, PartialEq, Eq)]
pub enum VaProfile {
    HevcMain,
    HevcMain10,
    HevcMain422_10,
}

/// The VA profile of a general profile: Main, Main 10, or Main 4:2:2 10 for the range
/// extensions. Any other profile is refused.
pub fn va_profile(profile: Profile) -> (r: EncodeResult<VaProfile>)
    ensures
        r == match profile {
            Profile::Main => Ok::<VaProfile, EncodeError>(VaProfile::HevcMain),
            Profile::Main10 => Ok::<VaProfile, EncodeError>(VaProfile::HevcMain10),
            Profile::RangeExtensions => Ok::<VaProfile, EncodeError>(VaProfile::HevcMain422_10),
            _ => Err::<VaProfile, EncodeError>(
                EncodeError::Backend(StatelessBackendError::UnsupportedProfile),
            ),
        },
{
    match profile {
        Profile::Main => Ok(VaProfile::HevcMain),
        Profile::Main10 => Ok(VaProfile::HevcMain10),
        Profile::RangeExtensions => Ok(VaProfile::HevcMain422_10),
        _ => Err(EncodeError::Backend(StatelessBackendError::UnsupportedProfile)),
    }
}

/// The VA entrypoints.
#[derive(Clone, Copy, Debug, PartialEq, Eq)]
pub enum VaEntrypoint {
    EncSlice,
    EncSliceLp,
}

/// The VA entrypoint for the wish to save power.
pub fn va_entrypoint(low_power: bool) -> (r: VaEntrypoint)
    ensures
        r == (if low_power { VaEntrypoint::EncSliceLp } else { VaEntrypoint::EncSlice }),
{
    if low_power {
        VaEntrypoint::EncSliceLp
    } else {
        VaEntrypoint::EncSlice
    }
}

/// `VAPictureHEVC`.
#[derive(Clone, Copy, Debug, PartialEq, Eq)]
pub struct HevcPicture {
    pub picture_id: u32,
    pub pic_order_cnt: i32,
    pub flags: u32,
}

/// The picture that fills the unused slots of a reference list.
pub open spec fn spec_invalid_hevc_pic() -> HevcPicture {
    HevcPicture { picture_id: VA_INVALID_ID, pic_order_cnt: 0, flags: VA_PICTURE_HEVC_INVALID }
}

/// The picture that fills the unused slots of a reference list.
pub fn invalid_hevc_pic() -> (p: HevcPicture)
    ensures
        p == spec_invalid_hevc_pic(),
{
    HevcPicture { picture_id: VA_INVALID_ID, pic_order_cnt: 0, flags: VA_PICTURE_HEVC_INVALID }
}

/// A reference or the current picture. It has no flags: the driver derives the categories
/// of the references from the slice segment header or from their picture order counts.
pub fn hevc_pic(surface_id: u32, poc: i32) -> (p: HevcPicture)
    ensures
        p == (HevcPicture { picture_id: surface_id, pic_order_cnt: poc, flags: 0 }),
{
    HevcPicture { picture_id: surface_id, pic_order_cnt: poc, flags: 0 }
}

/// A reference: its surface and its picture order count.
#[derive(Clone, Copy, Debug, PartialEq, Eq)]
pub struct ReferenceSurface {
    pub surface_id: u32,
    pub poc: i32,
}

/// Whether `frames` holds the references in order, as far as there is room, and nothing
/// behind them.
pub open spec fn is_reference_frames(
    frames: Seq<HevcPicture>,
    refs: Seq<ReferenceSurface>,
) -> bool {
    &&& frames.len() == 15
    &&& forall|i: int|
        0 <= i < 15 ==> #[trigger] frames[i] == if i < refs.len() {
            HevcPicture { picture_id: refs[i].surface_id, pic_order_cnt: refs[i].poc, flags: 0 }
        } else {
            spec_invalid_hevc_pic()
        }
}

/// The references of a picture, with the tail marked invalid.
pub fn reference_frames(refs: &[ReferenceSurface]) -> (frames: [HevcPicture; 15])
    ensures
        is_reference_frames(frames@, refs@),
{
    let mut frames: [HevcPicture; 15] = [invalid_hevc_pic(); 15];
    let mut i: usize = 0;
    while i < refs.len() && i < 15
        invariant
            i <= refs@.len(),
            i <= 15,
            forall|k: int|
                0 <= k < 15 ==> #[trigger] frames@[k] == if k < i {
                    HevcPicture { picture_id: refs@[k].surface_id, pic_order_cnt: refs@[k].poc, flags: 0 }
                } else {
                    spec_invalid_hevc_pic()
                },
        decreases 15 - i,
    {
        frames[i] = hevc_pic(refs[i].surface_id, refs[i].poc);
        i = i + 1;
    }
    frames
}

/// The references of a list, each with its surface.
pub open spec fn surfaces_of<R>(
    list: Seq<Rc<DpbEntry<R>>>,
    surfaces: Seq<u32>,
) -> Seq<ReferenceSurface> {
    Seq::new(
        list.len(),
        |i: int| ReferenceSurface { surface_id: surfaces[i], poc: list[i].meta.poc },
    )
}

/// The references of a list, each with its surface and its picture order count.
pub fn reference_surfaces<R>(
    list: &Vec<Rc<DpbEntry<R>>>,
    surfaces: &[u32],
) -> (refs: Vec<ReferenceSurface>)
    requires
        surfaces@.len() == list@.len(),
    ensures
        refs@ == surfaces_of(list@, surfaces@),
{
    let mut refs: Vec<ReferenceSurface> = Vec::new();
    let mut i: usize = 0;
    while i < list.len()
        invariant
            i <= list@.len(),
            surfaces@.len() == list@.len(),
            refs@ =~= surfaces_of(list@, surfaces@).take(i as int),
        decreases list@.len() - i,
    {
        refs.push(ReferenceSurface { surface_id: surfaces[i], poc: list[i].meta.poc });
        i = i + 1;
    }
    proof {
        assert(refs@ =~= surfaces_of(list@, surfaces@));
    }
    refs
}

/// A flag as a number.
pub open spec fn spec_flag(b: bool) -> u32 {
    if b {
        1
    } else {
        0
    }
}

/// A flag as a number.
fn flag(b: bool) -> (r: u32)
    ensures
        r == spec_flag(b),
{
    if b {
        1
    } else {
        0
    }
}

/// The bit fields of the sequence parameter buffer.
#[derive(Clone, Copy, Debug, PartialEq, Eq)]
pub struct SeqFields {
    pub chroma_format_idc: u32,
    pub separate_colour_plane_flag: u32,
    pub bit_depth_luma_minus8: u32,
    pub bit_depth_chroma_minus8: u32,
    pub scaling_list_enabled_flag: u32,
    pub strong_intra_smoothing_enabled_flag: u32,
    pub amp_enabled_flag: u32,
    pub sample_adaptive_offset_enabled_flag: u32,
    pub pcm_enabled_flag: u32,
    pub pcm_loop_filter_disabled_flag: u32,
    pub sps_temporal_mvp_enabled_flag: u32,
    pub low_delay_seq: u32,
    pub hierachical_flag: u32,
}

/// The bit fields of the video usability information.
#[derive(Clone, Copy, Debug, PartialEq, Eq)]
pub struct VuiFields {
    pub aspect_ratio_info_present_flag: u32,
    pub neutral_chroma_indication_flag: u32,
    pub field_seq_flag: u32,
    pub vui_timing_info_present_flag: u32,
    pub bitstream_restriction_flag: u32,
    pub tiles_fixed_structure_flag: u32,
    pub motion_vectors_over_pic_boundaries_flag: u32,
    pub restricted_ref_pic_lists_flag: u32,
    pub log2_max_mv_length_horizontal: u32,
    pub log2_max_mv_length_vertical: u32,
}

/// `VAEncSequenceParameterBufferHEVC`.
#[derive(Clone, Copy, Debug, PartialEq, Eq)]
pub struct EncSeqParam {
    pub general_profile_idc: u8,
    pub general_level_idc: u8,
    pub general_tier_flag: u8,
    pub intra_period: u32,
    pub intra_idr_period: u32,
    pub ip_period: u32,
    pub bits_per_second: u32,
    pub pic_width_in_luma_samples: u16,
    pub pic_height_in_luma_samples: u16,
    pub seq_fields: SeqFields,
    pub log2_min_luma_coding_block_size_minus3: u8,
    pub log2_diff_max_min_luma_coding_block_size: u8,
    pub log2_min_luma_transform_block_size_minus2: u8,
    pub log2_diff_max_min_luma_transform_block_size: u8,
    pub max_transform_hierarchy_depth_inter: u8,
    pub max_transform_hierarchy_depth_intra: u8,
    pub pcm_sample_bit_depth_luma_minus1: u32,
    pub pcm_sample_bit_depth_chroma_minus1: u32,
    pub log2_min_pcm_luma_coding_block_size_minus3: u32,
    pub log2_max_pcm_luma_coding_block_size_minus3: u32,
    pub vui_fields: Option<VuiFields>,
    pub aspect_ratio_idc: u8,
    pub sar_width: u32,
    pub sar_height: u32,
    pub vui_num_units_in_tick: u32,
    pub vui_time_scale: u32,
    pub min_spatial_segmentation_idc: u16,
    pub max_bytes_per_pic_denom: u8,
    pub max_bits_per_min_cu_denom: u8,
    pub palette_mode_enabled_flag: u32,
}

/// Whether `p` is the sequence parameter buffer for a sequence parameter set.
pub open spec fn is_seq_param(
    p: EncSeqParam,
    sps: Sps,
    bits_per_second: u32,
    intra_period: u32,
    ip_period: u32,
) -> bool {
    &&& p.general_profile_idc == sps.profile_tier_level.general_profile_idc
    &&& p.general_level_idc == sps.profile_tier_level.general_level_idc.code()
    &&& p.general_tier_flag == spec_flag(sps.profile_tier_level.general_tier_flag)
    &&& p.intra_period == intra_period
    &&& p.intra_idr_period == intra_period
    &&& p.ip_period == ip_period
    &&& p.bits_per_second == bits_per_second
    &&& p.pic_width_in_luma_samples == sps.pic_width_in_luma_samples
    &&& p.pic_height_in_luma_samples == sps.pic_height_in_luma_samples
    &&& p.log2_min_luma_coding_block_size_minus3 == sps.log2_min_luma_coding_block_size_minus3
    &&& p.log2_diff_max_min_luma_coding_block_size == sps.log2_diff_max_min_luma_coding_block_size
    &&& p.log2_min_luma_transform_block_size_minus2 == sps.log2_min_luma_transform_block_size_minus2
    &&& p.log2_diff_max_min_luma_transform_block_size == sps.log2_diff_max_min_luma_transform_block_size
    &&& p.max_transform_hierarchy_depth_inter == sps.max_transform_hierarchy_depth_inter
    &&& p.max_transform_hierarchy_depth_intra == sps.max_transform_hierarchy_depth_intra
    &&& p.pcm_sample_bit_depth_luma_minus1 == 0
    &&& p.pcm_sample_bit_depth_chroma_minus1 == 0
    &&& p.log2_min_pcm_luma_coding_block_size_minus3 == 0
    &&& p.log2_max_pcm_luma_coding_block_size_minus3 == 0
    &&& p.vui_fields is None
    &&& p.aspect_ratio_idc == 0
    &&& p.sar_width == 0
    &&& p.sar_height == 0
    &&& p.vui_num_units_in_tick == 0
    &&& p.vui_time_scale == 0
    &&& p.min_spatial_segmentation_idc == 0
    &&& p.max_bytes_per_pic_denom == 0
    &&& p.max_bits_per_min_cu_denom == 0
    &&& p.palette_mode_enabled_flag == 0
    &&& p.seq_fields.chroma_format_idc == sps.chroma_format_idc as u32
    &&& p.seq_fields.separate_colour_plane_flag == spec_flag(sps.separate_colour_plane_flag)
    &&& p.seq_fields.bit_depth_luma_minus8 == sps.bit_depth_luma_minus8 as u32
    &&& p.seq_fields.bit_depth_chroma_minus8 == sps.bit_depth_chroma_minus8 as u32
    &&& p.seq_fields.scaling_list_enabled_flag == spec_flag(sps.scaling_list_enabled_flag)
    &&& p.seq_fields.strong_intra_smoothing_enabled_flag == spec_flag(
        sps.strong_intra_smoothing_enabled_flag,
    )
    &&& p.seq_fields.amp_enabled_flag == spec_flag(sps.amp_enabled_flag)
    &&& p.seq_fields.sample_adaptive_offset_enabled_flag == spec_flag(
        sps.sample_adaptive_offset_enabled_flag,
    )
    &&& p.seq_fields.pcm_enabled_flag == spec_flag(sps.pcm_enabled_flag)
    &&& p.seq_fields.pcm_loop_filter_disabled_flag == spec_flag(sps.pcm_loop_filter_disabled_flag)
    &&& p.seq_fields.sps_temporal_mvp_enabled_flag == spec_flag(sps.temporal_mvp_enabled_flag)
    &&& p.seq_fields.low_delay_seq == 1
    &&& p.seq_fields.hierachical_flag == 0
}

/// The sequence parameter buffer for a sequence parameter set.
pub fn build_enc_seq_param(
    sps: &Sps,
    bits_per_second: u32,
    intra_period: u32,
    ip_period: u32,
) -> (p: EncSeqParam)
    ensures
        is_seq_param(p, *sps, bits_per_second, intra_period, ip_period),
{
    let ptl = &sps.profile_tier_level;
    let seq_fields = SeqFields {
        chroma_format_idc: sps.chroma_format_idc as u32,
        separate_colour_plane_flag: flag(sps.separate_colour_plane_flag),
        bit_depth_luma_minus8: sps.bit_depth_luma_minus8 as u32,
        bit_depth_chroma_minus8: sps.bit_depth_chroma_minus8 as u32,
        scaling_list_enabled_flag: flag(sps.scaling_list_enabled_flag),
        strong_intra_smoothing_enabled_flag: flag(sps.strong_intra_smoothing_enabled_flag),
        amp_enabled_flag: flag(sps.amp_enabled_flag),
        sample_adaptive_offset_enabled_flag: flag(sps.sample_adaptive_offset_enabled_flag),
        pcm_enabled_flag: flag(sps.pcm_enabled_flag),
        pcm_loop_filter_disabled_flag: flag(sps.pcm_loop_filter_disabled_flag),
        sps_temporal_mvp_enabled_flag: flag(sps.temporal_mvp_enabled_flag),
        low_delay_seq: 1,
        hierachical_flag: 0,
    };
    EncSeqParam {
        general_profile_idc: ptl.general_profile_idc,
        general_level_idc: ptl.general_level_idc.to_u8(),
        general_tier_flag: flag(ptl.general_tier_flag) as u8,
        intra_period,
        intra_idr_period: intra_period,
        ip_period,
        bits_per_second,
        pic_width_in_luma_samples: sps.pic_width_in_luma_samples,
        pic_height_in_luma_samples: sps.pic_height_in_luma_samples,
        seq_fields,
        log2_min_luma_coding_block_size_minus3: sps.log2_min_luma_coding_block_size_minus3,
        log2_diff_max_min_luma_coding_block_size: sps.log2_diff_max_min_luma_coding_block_size,
        log2_min_luma_transform_block_size_minus2: sps.log2_min_luma_transform_block_size_minus2,
        log2_diff_max_min_luma_transform_block_size: sps.log2_diff_max_min_luma_transform_block_size,
        max_transform_hierarchy_depth_inter: sps.max_transform_hierarchy_depth_inter,
        max_transform_hierarchy_depth_intra: sps.max_transform_hierarchy_depth_intra,
        pcm_sample_bit_depth_luma_minus1: 0,
        pcm_sample_bit_depth_chroma_minus1: 0,
        log2_min_pcm_luma_coding_block_size_minus3: 0,
        log2_max_pcm_luma_coding_block_size_minus3: 0,
        vui_fields: None,
        aspect_ratio_idc: 0,
        sar_width: 0,
        sar_height: 0,
        vui_num_units_in_tick: 0,
        vui_time_scale: 0,
        min_spatial_segmentation_idc: 0,
        max_bytes_per_pic_denom: 0,
        max_bits_per_min_cu_denom: 0,
        palette_mode_enabled_flag: 0,
    }
}

/// The bit fields of the picture parameter buffer.
#[derive(Clone, Copy, Debug, PartialEq, Eq)]
pub struct PicFields {
    pub idr_pic_flag: u32,
    pub coding_type: u32,
    pub reference_pic_flag: u32,
    pub dependent_slice_segments_enabled_flag: u32,
    pub sign_data_hiding_enabled_flag: u32,
    pub constrained_intra_pred_flag: u32,
    pub transform_skip_enabled_flag: u32,
    pub cu_qp_delta_enabled_flag: u32,
    pub weighted_pred_flag: u32,
    pub weighted_bipred_flag: u32,
    pub transquant_bypass_enabled_flag: u32,
    pub tiles_enabled_flag: u32,
    pub entropy_coding_sync_enabled_flag: u32,
    pub loop_filter_across_tiles_enabled_flag: u32,
    pub loop_filter_across_slices_enabled_flag: u32,
    pub scaling_list_data_present_flag: u32,
    pub screen_content_flag: u32,
    pub enable_gpu_weighted_prediction: u32,
    pub no_output_of_prior_pics_flag: u32,
}

/// `VAEncPictureParameterBufferHEVC`.
#[derive(Clone, Copy, Debug, PartialEq, Eq)]
pub struct EncPicParam {
    pub decoded_curr_pic: HevcPicture,
    pub reference_frames: [HevcPicture; 15],
    pub coded_buf: u32,
    pub collocated_ref_pic_index: u8,
    pub last_picture: u8,
    pub pic_init_qp: u8,
    pub diff_cu_qp_delta_depth: u8,
    pub pps_cb_qp_offset: i8,
    pub pps_cr_qp_offset: i8,
    pub num_tile_columns_minus1: u8,
    pub num_tile_rows_minus1: u8,
    pub column_width_minus1: [u8; 19],
    pub row_height_minus1: [u8; 21],
    pub log2_parallel_merge_level_minus2: u8,
    pub ctu_max_bitsize_allowed: u8,
    pub num_ref_idx_l0_default_active_minus1: u8,
    pub num_ref_idx_l1_default_active_minus1: u8,
    pub slice_pic_parameter_set_id: u8,
    pub nal_unit_type: u8,
    pub pic_fields: PicFields,
    pub hierarchical_level_plus1: u8,
    pub va_byte_reserved: u8,
    pub pps_curr_pic_ref_enabled_flag: u16,
}

/// Whether `p` is the picture parameter buffer for a request.
pub open spec fn is_pic_param<P, R>(
    p: EncPicParam,
    request: BackendRequest<P, R>,
    coded_buf: u32,
    recon_surface: u32,
    refs: Seq<ReferenceSurface>,
) -> bool {
    &&& is_reference_frames(p.reference_frames@, refs)
    &&& p.decoded_curr_pic == (HevcPicture {
        picture_id: recon_surface,
        pic_order_cnt: request.dpb_meta.poc,
        flags: 0,
    })
    &&& p.coded_buf == coded_buf
    &&& p.collocated_ref_pic_index == COLLOCATED_REF_PIC_NONE
    &&& p.last_picture == 0
    &&& p.pic_init_qp == (request.pps.init_qp_minus26 + 26) % 256
    &&& p.diff_cu_qp_delta_depth == request.pps.diff_cu_qp_delta_depth
    &&& p.pps_cb_qp_offset == request.pps.cb_qp_offset
    &&& p.pps_cr_qp_offset == request.pps.cr_qp_offset
    &&& p.num_tile_columns_minus1 == request.pps.num_tile_columns_minus1
    &&& p.num_tile_rows_minus1 == request.pps.num_tile_rows_minus1
    &&& p.column_width_minus1 == [0u8; 19usize]
    &&& p.row_height_minus1 == [0u8; 21usize]
    &&& p.ctu_max_bitsize_allowed == 0
    &&& p.hierarchical_level_plus1 == 0
    &&& p.va_byte_reserved == 0
    &&& p.pps_curr_pic_ref_enabled_flag == 0
    &&& p.log2_parallel_merge_level_minus2 == request.pps.log2_parallel_merge_level_minus2
    &&& p.num_ref_idx_l0_default_active_minus1 == request.pps.num_ref_idx_l0_default_active_minus1
    &&& p.num_ref_idx_l1_default_active_minus1 == request.pps.num_ref_idx_l1_default_active_minus1
    &&& p.slice_pic_parameter_set_id == request.pps.pic_parameter_set_id
    &&& p.nal_unit_type == request.nalu_type.code()
    &&& p.pic_fields.idr_pic_flag == spec_flag(request.is_idr)
    &&& p.pic_fields.coding_type == (if request.header.type_ == SliceType::I {
        CODING_TYPE_I
    } else {
        CODING_TYPE_P
    })
    &&& p.pic_fields.reference_pic_flag == 1
    &&& p.pic_fields.dependent_slice_segments_enabled_flag == spec_flag(
        request.pps.dependent_slice_segments_enabled_flag,
    )
    &&& p.pic_fields.sign_data_hiding_enabled_flag == spec_flag(
        request.pps.sign_data_hiding_enabled_flag,
    )
    &&& p.pic_fields.constrained_intra_pred_flag == spec_flag(
        request.pps.constrained_intra_pred_flag,
    )
    &&& p.pic_fields.transform_skip_enabled_flag == spec_flag(
        request.pps.transform_skip_enabled_flag,
    )
    &&& p.pic_fields.cu_qp_delta_enabled_flag == spec_flag(request.pps.cu_qp_delta_enabled_flag)
    &&& p.pic_fields.weighted_pred_flag == spec_flag(request.pps.weighted_pred_flag)
    &&& p.pic_fields.weighted_bipred_flag == spec_flag(request.pps.weighted_bipred_flag)
    &&& p.pic_fields.transquant_bypass_enabled_flag == spec_flag(
        request.pps.transquant_bypass_enabled_flag,
    )
    &&& p.pic_fields.tiles_enabled_flag == spec_flag(request.pps.tiles_enabled_flag)
    &&& p.pic_fields.entropy_coding_sync_enabled_flag == spec_flag(
        request.pps.entropy_coding_sync_enabled_flag,
    )
    &&& p.pic_fields.loop_filter_across_tiles_enabled_flag == spec_flag(
        request.pps.loop_filter_across_tiles_enabled_flag,
    )
    &&& p.pic_fields.loop_filter_across_slices_enabled_flag == spec_flag(
        request.pps.loop_filter_across_slices_enabled_flag,
    )
    &&& p.pic_fields.scaling_list_data_present_flag == spec_flag(
        request.pps.scaling_list_data_present_flag,
    )
    &&& p.pic_fields.screen_content_flag == 0
    &&& p.pic_fields.enable_gpu_weighted_prediction == 0
    &&& p.pic_fields.no_output_of_prior_pics_flag == spec_flag(
        request.header.no_output_of_prior_pics_flag,
    )
}

/// The picture parameter buffer for a request. The coding type follows the type of the
/// slice, so that a forced keyframe, whose reference list is empty, is coded intra.
pub fn build_enc_pic_param<P, R>(
    request: &BackendRequest<P, R>,
    coded_buf: u32,
    recon_surface: u32,
    refs: &[ReferenceSurface],
) -> (p: EncPicParam)
    requires
        request.pps.init_qp_minus26 + 26 <= i8::MAX,
    ensures
        is_pic_param(p, *request, coded_buf, recon_surface, refs@),
{
    let pps = &request.pps;
    let coding_type: u32 = coding_type_for_slice(request.header.type_);
    let pic_fields = PicFields {
        idr_pic_flag: flag(request.is_idr),
        coding_type,
        reference_pic_flag: 1,
        dependent_slice_segments_enabled_flag: flag(pps.dependent_slice_segments_enabled_flag),
        sign_data_hiding_enabled_flag: flag(pps.sign_data_hiding_enabled_flag),
        constrained_intra_pred_flag: flag(pps.constrained_intra_pred_flag),
        transform_skip_enabled_flag: flag(pps.transform_skip_enabled_flag),
        cu_qp_delta_enabled_flag: flag(pps.cu_qp_delta_enabled_flag),
        weighted_pred_flag: flag(pps.weighted_pred_flag),
        weighted_bipred_flag: flag(pps.weighted_bipred_flag),
        transquant_bypass_enabled_flag: flag(pps.transquant_bypass_enabled_flag),
        tiles_enabled_flag: flag(pps.tiles_enabled_flag),
        entropy_coding_sync_enabled_flag: flag(pps.entropy_coding_sync_enabled_flag),
        loop_filter_across_tiles_enabled_flag: flag(pps.loop_filter_across_tiles_enabled_flag),
        loop_filter_across_slices_enabled_flag: flag(pps.loop_filter_across_slices_enabled_flag),
        scaling_list_data_present_flag: flag(pps.scaling_list_data_present_flag),
        screen_content_flag: 0,
        enable_gpu_weighted_prediction: 0,
        no_output_of_prior_pics_flag: flag(request.header.no_output_of_prior_pics_flag),
    };
    let qp: i16 = pps.init_qp_minus26 as i16 + 26;
    let pic_init_qp: u8 = if qp < 0 {
        (qp + 256) as u8
    } else {
        qp as u8
    };
    EncPicParam {
        decoded_curr_pic: hevc_pic(recon_surface, request.dpb_meta.poc),
        reference_frames: reference_frames(refs),
        coded_buf,
        collocated_ref_pic_index: COLLOCATED_REF_PIC_NONE,
        last_picture: 0,
        pic_init_qp,
        diff_cu_qp_delta_depth: pps.diff_cu_qp_delta_depth,
        pps_cb_qp_offset: pps.cb_qp_offset,
        pps_cr_qp_offset: pps.cr_qp_offset,
        num_tile_columns_minus1: pps.num_tile_columns_minus1,
        num_tile_rows_minus1: pps.num_tile_rows_minus1,
        column_width_minus1: [0; 19],
        row_height_minus1: [0; 21],
        ctu_max_bitsize_allowed: 0,
        log2_parallel_merge_level_minus2: pps.log2_parallel_merge_level_minus2,
        num_ref_idx_l0_default_active_minus1: pps.num_ref_idx_l0_default_active_minus1,
        num_ref_idx_l1_default_active_minus1: pps.num_ref_idx_l1_default_active_minus1,
        slice_pic_parameter_set_id: pps.pic_parameter_set_id,
        nal_unit_type: request.nalu_type.to_u8(),
        pic_fields,
        hierarchical_level_plus1: 0,
        va_byte_reserved: 0,
        pps_curr_pic_ref_enabled_flag: 0,
    }
}

/// The bit fields of the slice parameter buffer.
#[derive(Clone, Copy, Debug, PartialEq, Eq)]
pub struct SliceFields {
    pub last_slice_of_pic_flag: u32,
    pub dependent_slice_segment_flag: u32,
    pub colour_plane_id: u32,
    pub slice_temporal_mvp_enabled_flag: u32,
    pub slice_sao_luma_flag: u32,
    pub slice_sao_chroma_flag: u32,
    pub num_ref_idx_active_override_flag: u32,
    pub mvd_l1_zero_flag: u32,
    pub cabac_init_flag: u32,
    pub slice_deblocking_filter_disabled_flag: u32,
    pub slice_loop_filter_across_slices_enabled_flag: u32,
    pub collocated_from_l0_flag: u32,
}

/// `VAEncSliceParameterBufferHEVC`.
#[derive(Clone, Copy, Debug, PartialEq, Eq)]
pub struct EncSliceParam {
    pub slice_segment_address: u32,
    pub num_ctu_in_slice: u32,
    pub slice_type: u8,
    pub slice_pic_parameter_set_id: u8,
    pub num_ref_idx_l0_active_minus1: u8,
    pub num_ref_idx_l1_active_minus1: u8,
    pub ref_pic_list0: [HevcPicture; 15],
    pub ref_pic_list1: [HevcPicture; 15],
    pub luma_log2_weight_denom: u8,
    pub delta_chroma_log2_weight_denom: i8,
    pub delta_luma_weight_l0: [i8; 15],
    pub luma_offset_l0: [i8; 15],
    pub delta_chroma_weight_l0: [[i8; 2]; 15],
    pub chroma_offset_l0: [[i8; 2]; 15],
    pub delta_luma_weight_l1: [i8; 15],
    pub luma_offset_l1: [i8; 15],
    pub delta_chroma_weight_l1: [[i8; 2]; 15],
    pub chroma_offset_l1: [[i8; 2]; 15],
    pub max_num_merge_cand: u8,
    pub slice_qp_delta: i8,
    pub slice_cb_qp_offset: i8,
    pub slice_cr_qp_offset: i8,
    pub slice_beta_offset_div2: i8,
    pub slice_tc_offset_div2: i8,
    pub slice_fields: SliceFields,
    pub pred_weight_table_bit_offset: u32,
    pub pred_weight_table_bit_length: u32,
}

/// Whether `p` is the slice parameter buffer for a slice segment header.
pub open spec fn is_slice_param(
    p: EncSliceParam,
    pps: Pps,
    header: SliceHeader,
    refs: Seq<ReferenceSurface>,
    num_ctu_in_slice: u32,
) -> bool {
    &&& is_reference_frames(p.ref_pic_list0@, refs)
    &&& is_reference_frames(p.ref_pic_list1@, Seq::empty())
    &&& p.slice_segment_address == 0
    &&& p.num_ctu_in_slice == num_ctu_in_slice
    &&& p.slice_type == header.type_.code()
    &&& p.slice_pic_parameter_set_id == pps.pic_parameter_set_id
    &&& p.num_ref_idx_l0_active_minus1 == header.l0_minus1(pps)
    &&& p.num_ref_idx_l1_active_minus1 == header.l1_minus1(pps)
    &&& p.luma_log2_weight_denom == header.pred_weight_table.luma_log2_weight_denom
    &&& p.delta_chroma_log2_weight_denom == header.pred_weight_table.delta_chroma_log2_weight_denom
    &&& p.delta_luma_weight_l0 == [0i8; 15usize]
    &&& p.luma_offset_l0 == [0i8; 15usize]
    &&& p.delta_chroma_weight_l0 == [[0i8; 2usize]; 15usize]
    &&& p.chroma_offset_l0 == [[0i8; 2usize]; 15usize]
    &&& p.delta_luma_weight_l1 == [0i8; 15usize]
    &&& p.luma_offset_l1 == [0i8; 15usize]
    &&& p.delta_chroma_weight_l1 == [[0i8; 2usize]; 15usize]
    &&& p.chroma_offset_l1 == [[0i8; 2usize]; 15usize]
    &&& p.pred_weight_table_bit_offset == 0
    &&& p.pred_weight_table_bit_length == 0
    &&& p.max_num_merge_cand == 5 - header.five_minus_max_num_merge_cand
    &&& p.slice_qp_delta == header.qp_delta
    &&& p.slice_cb_qp_offset == header.cb_qp_offset
    &&& p.slice_cr_qp_offset == header.cr_qp_offset
    &&& p.slice_beta_offset_div2 == header.beta_offset_div2
    &&& p.slice_tc_offset_div2 == header.tc_offset_div2
    &&& p.slice_fields.last_slice_of_pic_flag == 1
    &&& p.slice_fields.dependent_slice_segment_flag == spec_flag(
        header.dependent_slice_segment_flag,
    )
    &&& p.slice_fields.colour_plane_id == header.colour_plane_id as u32
    &&& p.slice_fields.slice_temporal_mvp_enabled_flag == spec_flag(
        header.temporal_mvp_enabled_flag,
    )
    &&& p.slice_fields.slice_sao_luma_flag == spec_flag(header.sao_luma_flag)
    &&& p.slice_fields.slice_sao_chroma_flag == spec_flag(header.sao_chroma_flag)
    &&& p.slice_fields.num_ref_idx_active_override_flag == spec_flag(
        header.num_ref_idx_active_override_flag,
    )
    &&& p.slice_fields.mvd_l1_zero_flag == spec_flag(header.mvd_l1_zero_flag)
    &&& p.slice_fields.cabac_init_flag == spec_flag(header.cabac_init_flag)
    &&& p.slice_fields.slice_deblocking_filter_disabled_flag == spec_flag(
        header.deblocking_filter_disabled_flag,
    )
    &&& p.slice_fields.slice_loop_filter_across_slices_enabled_flag == spec_flag(
        header.loop_filter_across_slices_enabled_flag,
    )
    &&& p.slice_fields.collocated_from_l0_flag == spec_flag(header.collocated_from_l0_flag)
}

/// The slice parameter buffer for a slice segment header.
pub fn build_enc_slice_param(
    pps: &Pps,
    header: &SliceHeader,
    refs: &[ReferenceSurface],
    num_ctu_in_slice: u32,
) -> (p: EncSliceParam)
    requires
        header.five_minus_max_num_merge_cand <= 5,
    ensures
        is_slice_param(p, *pps, *header, refs@, num_ctu_in_slice),
{
    let (l0, l1): (u8, u8) = if header.num_ref_idx_active_override_flag {
        (header.num_ref_idx_l0_active_minus1, header.num_ref_idx_l1_active_minus1)
    } else {
        (pps.num_ref_idx_l0_default_active_minus1, pps.num_ref_idx_l1_default_active_minus1)
    };
    let slice_fields = SliceFields {
        last_slice_of_pic_flag: 1,
        dependent_slice_segment_flag: flag(header.dependent_slice_segment_flag),
        colour_plane_id: header.colour_plane_id as u32,
        slice_temporal_mvp_enabled_flag: flag(header.temporal_mvp_enabled_flag),
        slice_sao_luma_flag: flag(header.sao_luma_flag),
        slice_sao_chroma_flag: flag(header.sao_chroma_flag),
        num_ref_idx_active_override_flag: flag(header.num_ref_idx_active_override_flag),
        mvd_l1_zero_flag: flag(header.mvd_l1_zero_flag),
        cabac_init_flag: flag(header.cabac_init_flag),
        slice_deblocking_filter_disabled_flag: flag(header.deblocking_filter_disabled_flag),
        slice_loop_filter_across_slices_enabled_flag: flag(
            header.loop_filter_across_slices_enabled_flag,
        ),
        collocated_from_l0_flag: flag(header.collocated_from_l0_flag),
    };
    let no_refs: [ReferenceSurface; 0] = [];
    proof {
        assert(no_refs@ =~= Seq::<ReferenceSurface>::empty());
    }
    EncSliceParam {
        slice_segment_address: 0,
        num_ctu_in_slice,
        slice_type: header.type_.to_u8(),
        slice_pic_parameter_set_id: pps.pic_parameter_set_id,
        num_ref_idx_l0_active_minus1: l0,
        num_ref_idx_l1_active_minus1: l1,
        ref_pic_list0: reference_frames(refs),
        ref_pic_list1: reference_frames(&no_refs),
        luma_log2_weight_denom: header.pred_weight_table.luma_log2_weight_denom,
        delta_chroma_log2_weight_denom: header.pred_weight_table.delta_chroma_log2_weight_denom,
        delta_luma_weight_l0: [0; 15],
        luma_offset_l0: [0; 15],
        delta_chroma_weight_l0: [[0; 2]; 15],
        chroma_offset_l0: [[0; 2]; 15],
        delta_luma_weight_l1: [0; 15],
        luma_offset_l1: [0; 15],
        delta_chroma_weight_l1: [[0; 2]; 15],
        chroma_offset_l1: [[0; 2]; 15],
        max_num_merge_cand: 5 - header.five_minus_max_num_merge_cand,
        slice_qp_delta: header.qp_delta,
        slice_cb_qp_offset: header.cb_qp_offset,
        slice_cr_qp_offset: header.cr_qp_offset,
        slice_beta_offset_div2: header.beta_offset_div2,
        slice_tc_offset_div2: header.tc_offset_div2,
        slice_fields,
        pred_weight_table_bit_offset: 0,
        pred_weight_table_bit_length: 0,
    }
}

/// Which header a packed header stands for.
#[derive(Clone, Copy, Debug, PartialEq, Eq)]
pub enum PackedHeaderKind {
    Sequence,
    Picture,
    Slice,
}

/// A packed header: a complete NAL unit with emulation prevention.
#[derive(Debug, PartialEq, Eq)]
pub struct PackedHeader {
    pub kind: PackedHeaderKind,
    /// The number of bits of `data`, as the buffer holds it.
    pub bit_length: u32,
    /// Whether `data` holds emulation prevention bytes where they are needed.
    pub has_emulation: bool,
    pub data: Vec<u8>,
}

/// What is handed to the driver for a frame, in order.
#[derive(Debug, PartialEq, Eq)]
pub enum Submission {
    Sequence(EncSeqParam),
    RateControl(Tunings),
    FrameRate(u32),
    Packed(PackedHeader),
    Picture(EncPicParam),
    Slice(EncSliceParam),
}

/// Whether `s` is the packed header of kind `kind` with the bytes `data`.
pub open spec fn is_packed(s: Submission, kind: PackedHeaderKind, data: Seq<u8>) -> bool {
    s matches Submission::Packed(p) && {
        &&& p.kind == kind
        &&& p.data@ == data
        &&& p.bit_length == (8 * data.len()) % 0x1_0000_0000
        &&& p.has_emulation
    }
}

/// Whether the headers that are packed for a request can be written, up to the first that fails.
pub open spec fn packable<P, R>(request: BackendRequest<P, R>) -> bool {
    let vps = table_result(vps_syntax(*request.vps));
    let sps = table_result(sps_syntax(*request.sps));
    let pps = table_result(pps_syntax(*request.pps));
    &&& request.is_idr ==> request.vps.writable()
    &&& request.is_idr && vps is Ok ==> request.sps.writable()
    &&& request.is_idr ==> vps is Err || sps is Err || request.pps.writable()
    &&& !request.is_idr ==> request.pps.writable()
    &&& (request.is_idr ==> vps is Ok && sps is Ok) && pps is Ok ==> request.header.writable(
        request.nalu_type,
        *request.sps,
        *request.pps,
    )
}

/// Tests [`packable`].
fn is_packable<P, R>(request: &BackendRequest<P, R>) -> (r: bool)
    ensures
        r == packable(*request),
{
    let mut scratch: Vec<u8> = Vec::new();
    if request.is_idr {
        if !request.vps.is_writable() {
            return false;
        }
        if let Err(_) = Synthesizer::<'_, Vps>::synthesize(&request.vps, &mut scratch, true) {
            return true;
        }
        if !request.sps.is_writable() {
            return false;
        }
        if let Err(_) = Synthesizer::<'_, Sps>::synthesize(&request.sps, &mut scratch, true) {
            return true;
        }
    }
    if !request.pps.is_writable() {
        return false;
    }
    if let Err(_) = Synthesizer::<'_, Pps>::synthesize(&request.pps, &mut scratch, true) {
        return true;
    }
    request.header.is_writable(request.nalu_type, &request.sps, &request.pps)
}

/// Whether what is handed to the driver can be computed for a request.
pub open spec fn submittable<P, R>(request: BackendRequest<P, R>, packed_headers: u32) -> bool {
    &&& packed_headers != 0 ==> packable(request)
    &&& request.pps.init_qp_minus26 + 26 <= i8::MAX
    &&& request.header.five_minus_max_num_merge_cand <= 5
}

/// Tests [`submittable`], for callers that have no proof of it.
pub fn is_submittable<P, R>(request: &BackendRequest<P, R>, packed_headers: u32) -> (r: bool)
    ensures
        r == submittable(*request, packed_headers),
{
    if packed_headers != 0 && !is_packable(request) {
        return false;
    }
    request.pps.init_qp_minus26 <= 101 && request.header.five_minus_max_num_merge_cand <= 5
}

/// The bitrate for the sequence parameter buffer.
pub open spec fn bits_per_second(tunings: Tunings) -> int {
    match tunings.rate_control {
        RateControl::ConstantBitrate(target) => target as int % 0x1_0000_0000,
        RateControl::ConstantQuality(_) => 0,
    }
}

/// Whether `s` is what is handed to the driver for a request: the sequence parameters with
/// an IDR picture only, since they begin a coded video sequence; the rate control and the
/// frame rate; the packed headers, if there are any, up to that of the picture; the picture
/// parameters; the packed slice segment header, if there is one; and the slice parameters.
pub open spec fn is_submission<P, R>(
    s: Seq<Submission>,
    request: BackendRequest<P, R>,
    packed: bool,
    coded_buf: u32,
    recon_surface: u32,
    refs: Seq<ReferenceSurface>,
) -> bool {
    let a: int = if request.is_idr { 1 } else { 0 };
    let b: int = if packed && request.is_idr { 2 } else { 0 };
    let c: int = if packed { 1 } else { 0 };
    &&& s.len() == a + 2 + b + c + 1 + c + 1
    &&& request.is_idr ==> (s[0] matches Submission::Sequence(p) && is_seq_param(
        p,
        *request.sps,
        bits_per_second(request.tunings) as u32,
        request.intra_period,
        request.ip_period,
    ))
    &&& s[a] == Submission::RateControl(request.tunings)
    &&& s[a + 1] == Submission::FrameRate(request.tunings.framerate)
    &&& packed && request.is_idr ==> {
        &&& is_packed(
            s[a + 2],
            PackedHeaderKind::Sequence,
            nalu_bytes(NaluType::VpsNut, vps_syntax(*request.vps), true),
        )
        &&& is_packed(
            s[a + 3],
            PackedHeaderKind::Sequence,
            nalu_bytes(NaluType::SpsNut, sps_syntax(*request.sps), true),
        )
    }
    &&& packed ==> is_packed(
        s[a + 2 + b],
        PackedHeaderKind::Picture,
        nalu_bytes(NaluType::PpsNut, pps_syntax(*request.pps), true),
    )
    &&& s[a + 2 + b + c] matches Submission::Picture(p)
        && is_pic_param(p, request, coded_buf, recon_surface, refs)
    &&& packed ==> is_packed(
        s[a + 2 + b + c + 1],
        PackedHeaderKind::Slice,
        nalu_bytes(
            request.nalu_type,
            slice_syntax(request.header, request.nalu_type, *request.sps, *request.pps),
            true,
        ),
    )
    &&& s[a + 2 + b + c + 1 + c] matches Submission::Slice(p) && is_slice_param(
        p,
        *request.pps,
        request.header,
        refs,
        request.num_ctu_in_slice,
    )
}

/// The error of the first header that cannot be packed.
pub open spec fn packing_error<P, R>(request: BackendRequest<P, R>) -> Option<SynthesizerError> {
    let vps = table_result(vps_syntax(*request.vps));
    let sps = table_result(sps_syntax(*request.sps));
    let pps = table_result(pps_syntax(*request.pps));
    let hdr = table_result(
        slice_syntax(request.header, request.nalu_type, *request.sps, *request.pps),
    );
    if request.is_idr && vps is Err {
        Some(vps->Err_0)
    } else if request.is_idr && sps is Err {
        Some(sps->Err_0)
    } else if pps is Err {
        Some(pps->Err_0)
    } else if hdr is Err {
        Some(hdr->Err_0)
    } else {
        None
    }
}

/// A packed header with the bytes `data`.
fn packed_header(kind: PackedHeaderKind, data: Vec<u8>) -> (s: Submission)
    ensures
        is_packed(s, kind, data@),
{
    let low: u64 = data.len() as u64 % 0x1_0000_0000;
    let bit_length: u32 = ((8 * low) % 0x1_0000_0000) as u32;
    proof {
        assert((8 * (data@.len() as int % 0x1_0000_0000)) % 0x1_0000_0000 == (8 * data@.len() as int)
            % 0x1_0000_0000);
    }
    Submission::Packed(PackedHeader { kind, bit_length, has_emulation: true, data })
}

/// The bytes of the packed headers of a request: of the VPS and the SPS with an IDR picture,
/// of the PPS, and of the slice segment header.
pub struct PackedHeaders {
    pub sequence: Option<(Vec<u8>, Vec<u8>)>,
    pub picture: Vec<u8>,
    pub slice: Vec<u8>,
}

/// Synthesizes the headers to be packed.
fn pack_headers<P, R>(request: &BackendRequest<P, R>) -> (r: StatelessBackendResult<PackedHeaders>)
    requires
        packable(*request),
    ensures
        match r {
            Ok(h) => {
                &&& packing_error(*request) is None
                &&& h.sequence is Some <==> request.is_idr
                &&& h.sequence matches Some(s) ==> s.0@ == nalu_bytes(
                    NaluType::VpsNut,
                    vps_syntax(*request.vps),
                    true,
                ) && s.1@ == nalu_bytes(NaluType::SpsNut, sps_syntax(*request.sps), true)
                &&& h.picture@ == nalu_bytes(NaluType::PpsNut, pps_syntax(*request.pps), true)
                &&& h.slice@ == nalu_bytes(
                    request.nalu_type,
                    slice_syntax(request.header, request.nalu_type, *request.sps, *request.pps),
                    true,
                )
            },
            Err(e) => packing_error(*request) matches Some(x)
                && e == StatelessBackendError::Other(BackendFailure::PackedHeader(x)),
        },
{
    let mut sequence: Option<(Vec<u8>, Vec<u8>)> = None;
    if request.is_idr {
        let mut vps: Vec<u8> = Vec::new();
        if let Err(e) = Synthesizer::<'_, Vps>::synthesize(&request.vps, &mut vps, true) {
            return Err(StatelessBackendError::Other(BackendFailure::PackedHeader(e)));
        }
        let mut sps: Vec<u8> = Vec::new();
        if let Err(e) = Synthesizer::<'_, Sps>::synthesize(&request.sps, &mut sps, true) {
            return Err(StatelessBackendError::Other(BackendFailure::PackedHeader(e)));
        }
        proof {
            assert(vps@ =~= nalu_bytes(NaluType::VpsNut, vps_syntax(*request.vps), true));
            assert(sps@ =~= nalu_bytes(NaluType::SpsNut, sps_syntax(*request.sps), true));
        }
        sequence = Some((vps, sps));
    }
    let mut picture: Vec<u8> = Vec::new();
    if let Err(e) = Synthesizer::<'_, Pps>::synthesize(&request.pps, &mut picture, true) {
        return Err(StatelessBackendError::Other(BackendFailure::PackedHeader(e)));
    }
    let mut slice: Vec<u8> = Vec::new();
    if let Err(e) = Synthesizer::<'_, SliceHeader>::synthesize(
        request.nalu_type,
        &request.header,
        &request.sps,
        &request.pps,
        &mut slice,
        true,
    ) {
        return Err(StatelessBackendError::Other(BackendFailure::PackedHeader(e)));
    }
    proof {
        assert(picture@ =~= nalu_bytes(NaluType::PpsNut, pps_syntax(*request.pps), true));
        assert(slice@ =~= nalu_bytes(
            request.nalu_type,
            slice_syntax(request.header, request.nalu_type, *request.sps, *request.pps),
            true,
        ));
    }
    Ok(PackedHeaders { sequence, picture, slice })
}

/// What is handed to the driver for a request, in order. `packed_headers` is the mask of
/// headers that the application must supply, `coded_buf` the buffer for the bitstream,
/// `recon_surface` the surface for the reconstructed picture, and `surfaces` are the surfaces
/// of the references, in the order of their list.
pub fn submissions<P, R>(
    request: &BackendRequest<P, R>,
    packed_headers: u32,
    coded_buf: u32,
    recon_surface: u32,
    surfaces: &[u32],
) -> (r: StatelessBackendResult<Vec<Submission>>)
    requires
        submittable(*request, packed_headers),
        surfaces@.len() == request.ref_list_0@.len(),
    ensures
        match r {
            Ok(s) => {
                &&& packed_headers != 0 ==> packing_error(*request) is None
                &&& is_submission(
                    s@,
                    *request,
                    packed_headers != 0,
                    coded_buf,
                    recon_surface,
                    surfaces_of(request.ref_list_0@, surfaces@),
                )
            },
            Err(e) => {
                &&& packed_headers != 0
                &&& packing_error(*request) matches Some(x)
                    && e == StatelessBackendError::Other(BackendFailure::PackedHeader(x))
            },
        },
{
    let refs = reference_surfaces(&request.ref_list_0, surfaces);
    let pic_param = build_enc_pic_param(request, coded_buf, recon_surface, refs.as_slice());
    let slice_param = build_enc_slice_param(
        &request.pps,
        &request.header,
        refs.as_slice(),
        request.num_ctu_in_slice,
    );
    let headers: Option<PackedHeaders> = if packed_headers != 0 {
        match pack_headers(request) {
            Ok(h) => Some(h),
            Err(e) => return Err(e),
        }
    } else {
        None
    };
    let mut s: Vec<Submission> = Vec::new();
    if request.is_idr {
        let target: u64 = match request.tunings.rate_control.bitrate_target() {
            Some(target) => target,
            None => 0,
        };
        let rate: u32 = (target % 0x1_0000_0000) as u32;
        s.push(
            Submission::Sequence(
                build_enc_seq_param(&request.sps, rate, request.intra_period, request.ip_period),
            ),
        );
    }
    s.push(Submission::RateControl(request.tunings));
    s.push(Submission::FrameRate(request.tunings.framerate));
    match headers {
        Some(h) => {
            if let Some((vps, sps)) = h.sequence {
                s.push(packed_header(PackedHeaderKind::Sequence, vps));
                s.push(packed_header(PackedHeaderKind::Sequence, sps));
            }
            s.push(packed_header(PackedHeaderKind::Picture, h.picture));
            s.push(Submission::Picture(pic_param));
            s.push(packed_header(PackedHeaderKind::Slice, h.slice));
        },
        None => {
            s.push(Submission::Picture(pic_param));
        },
    }
    s.push(Submission::Slice(slice_param));
    Ok(s)
}

} // verus!
