//! What a decoder reads first in a NAL unit: the size of the picture, the tools that it uses, and
//! the quantizer of a slice.

use crate::codec::h265::elements::{
    law_synthesized_pps_is_carried, law_synthesized_slice_header_is_carried,
    law_synthesized_sps_is_carried,
};
use crate::codec::h265::synthesizer::{Synthesizer, SynthesizerResult};
use crate::codec::h265::tables::{
    pps_head_syntax, pps_syntax, pps_tools_syntax, ptl_syntax, slice_address_syntax,
    slice_body_syntax, slice_independent_syntax, slice_inter_syntax, slice_qp_syntax,
    slice_references_syntax, slice_sao_syntax, slice_syntax, slice_type_syntax, sps_format_syntax,
    sps_head_syntax, sps_syntax,
};
use crate::codec::h265::types::{NaluType, Pps, SliceHeader, Sps};
use crate::reading::{
    bit_string, consists_of, elements, group_elements, holds, lemma_elements_part,
    lemma_elements_push, read, reads, told, Elements,
};
use crate::syntax::{syntax, Syntax, SyntaxElement};
use vstd::prelude::*;

verus! {

/// Whether the payload of the NAL unit that was appended to `before` begins with these elements.
pub open spec fn begins_with(before: Seq<u8>, after: Seq<u8>, list: Elements) -> bool {
    reads(bit_string(after.skip(6 + before.len() as int)), list.list) is Some
}

/// Whether the elements of a table start with these.
#[verifier::opaque]
pub open spec fn starts(table: Syntax, front: Seq<SyntaxElement>) -> bool {
    table.elements == front + table.elements.skip(front.len() as int)
}

proof fn lemma_starts(table: Syntax, front: Seq<SyntaxElement>)
    requires
        table.elements == front,
    ensures
        starts(table, front),
{
    reveal(starts);
    assert(table.elements =~= front + table.elements.skip(front.len() as int));
}

pub broadcast proof fn lemma_starts_push(
    table: Syntax,
    e: SyntaxElement,
    front: Seq<SyntaxElement>,
)
    requires
        starts(table, front),
    ensures
        #[trigger] starts(table.element(e), front),
{
    reveal(starts);
    lemma_elements_push(table, e);
    let list = table.element(e).elements;
    assert(list =~= front + list.skip(front.len() as int));
}

pub broadcast proof fn lemma_starts_part(a: Syntax, b: Syntax, front: Seq<SyntaxElement>)
    requires
        starts(a, front),
    ensures
        #[trigger] starts(a.part(b), front),
{
    reveal(starts);
    lemma_elements_part(a, b);
    let list = a.part(b).elements;
    assert(list =~= front + list.skip(front.len() as int));
}

proof fn lemma_starts_behind(a: Syntax, b: Syntax, front: Seq<SyntaxElement>)
    requires
        starts(b, front),
    ensures
        starts(a.part(b), a.elements + front),
{
    reveal(starts);
    lemma_elements_part(a, b);
    let list = a.part(b).elements;
    let whole = a.elements + front;
    assert(list =~= whole + b.elements.skip(front.len() as int));
    assert(list.skip(whole.len() as int) =~= b.elements.skip(front.len() as int));
}

/// What begins with elements begins with the first of them.
proof fn lemma_reads_front(bits: Seq<bool>, front: Seq<SyntaxElement>, back: Seq<SyntaxElement>)
    requires
        reads(bits, front + back) is Some,
    ensures
        reads(bits, front) is Some,
    decreases front.len(),
{
    if front.len() > 0 {
        let list = front + back;
        assert(list[0] == front[0]);
        assert(list.skip(1) =~= front.skip(1) + back);
        match read(bits, front[0]) {
            Some(rest) => lemma_reads_front(rest, front.skip(1), back),
            None => {},
        }
    }
}

/// A NAL unit that holds elements begins with the first of them.
proof fn lemma_begins(before: Seq<u8>, after: Seq<u8>, front: Elements, table: Syntax)
    requires
        before.len() + 6 <= after.len(),
        holds(after.skip(before.len() as int).skip(6), table.elements),
        starts(table, front.list),
    ensures
        begins_with(before, after, front),
{
    reveal(starts);
    let body = after.skip(6 + before.len() as int);
    assert(after.skip(before.len() as int).skip(6) =~= body);
    lemma_reads_front(
        bit_string(body),
        front.list,
        table.elements.skip(front.list.len() as int),
    );
}

/// The identifiers of a picture parameter set, and what slices start from.
pub open spec fn head_of_the_picture(pps: Pps) -> Elements {
    elements()
        .unsigned(pps.pic_parameter_set_id as int)
        .unsigned(pps.seq_parameter_set_id as int)
        .bit(pps.dependent_slice_segments_enabled_flag)
        .bit(pps.output_flag_present_flag)
        .bits(3, pps.num_extra_slice_header_bits as int)
        .bit(pps.sign_data_hiding_enabled_flag)
        .bit(pps.cabac_init_present_flag)
        .unsigned(pps.num_ref_idx_l0_default_active_minus1 as int)
        .unsigned(pps.num_ref_idx_l1_default_active_minus1 as int)
        .signed(pps.init_qp_minus26 as int)
}

/// A decoder reads the tools of a picture parameter set in their order: behind the quantizer that
/// slices start from, whether intra prediction is constrained, whether the transform can be
/// skipped, and whether the quantizer can change within a slice.
pub proof fn law_tools_are_read(pps: &Pps)
    requires
        pps_syntax(*pps).fits(),
    ensures
        forall|out: &mut Vec<u8>, r: SynthesizerResult<()>| #[trigger]
            call_ensures(Synthesizer::<'_, Pps>::synthesize, (pps, out, false), r) ==> begins_with(
                out@,
                final(out)@,
                head_of_the_picture(*pps).all(
                    elements()
                        .bit(pps.constrained_intra_pred_flag)
                        .bit(pps.transform_skip_enabled_flag)
                        .bit(pps.cu_qp_delta_enabled_flag),
                ),
            ),
{
    let tools = elements()
        .bit(pps.constrained_intra_pred_flag)
        .bit(pps.transform_skip_enabled_flag)
        .bit(pps.cu_qp_delta_enabled_flag);
    let front = head_of_the_picture(*pps).all(tools);
    lemma_tools(pps);
    law_synthesized_pps_is_carried(pps);
    assert forall|out: &mut Vec<u8>, r: SynthesizerResult<()>| #[trigger]
        call_ensures(Synthesizer::<'_, Pps>::synthesize, (pps, out, false), r) implies begins_with(
        out@,
        final(out)@,
        front,
    ) by {
        lemma_begins(out@, final(out)@, front, pps_syntax(*pps));
    }
}

proof fn lemma_tools(pps: &Pps)
    ensures
        starts(
            pps_syntax(*pps),
            head_of_the_picture(*pps).all(
                elements()
                    .bit(pps.constrained_intra_pred_flag)
                    .bit(pps.transform_skip_enabled_flag)
                    .bit(pps.cu_qp_delta_enabled_flag),
            ).list,
        ),
{
    let tools = elements()
        .bit(pps.constrained_intra_pred_flag)
        .bit(pps.transform_skip_enabled_flag)
        .bit(pps.cu_qp_delta_enabled_flag);
    assert(consists_of(pps_head_syntax(*pps), head_of_the_picture(*pps))) by {
        broadcast use group_elements;

        reveal(pps_head_syntax);
    }
    assert(starts(pps_tools_syntax(*pps), tools.list)) by {
        broadcast use {lemma_starts_push, lemma_starts_part};

        let table = syntax()
            .flag(pps.constrained_intra_pred_flag)
            .flag(pps.transform_skip_enabled_flag)
            .flag(pps.cu_qp_delta_enabled_flag);
        assert(consists_of(table, tools)) by {
            broadcast use group_elements;

        }
        lemma_starts(table, tools.list);
        reveal(pps_tools_syntax);
    }
    lemma_starts_behind(pps_head_syntax(*pps), pps_tools_syntax(*pps), tools.list);
    assert(starts(pps_syntax(*pps), pps_head_syntax(*pps).elements + tools.list)) by {
        broadcast use lemma_starts_part;

        reveal(pps_syntax);
    }
}

/// A decoder reads the size of the picture behind the identifiers, the profile and the chroma
/// format of a sequence parameter set: the width, and then the height.
pub proof fn law_picture_size_is_read(sps: &Sps)
    requires
        sps_syntax(*sps).fits(),
    ensures
        forall|out: &mut Vec<u8>, r: SynthesizerResult<()>| #[trigger]
            call_ensures(Synthesizer::<'_, Sps>::synthesize, (sps, out, false), r) ==> begins_with(
                out@,
                final(out)@,
                elements()
                    .bits(4, sps.video_parameter_set_id as int)
                    .bits(3, sps.max_sub_layers_minus1 as int)
                    .bit(sps.temporal_id_nesting_flag)
                    .all(
                        told(
                            ptl_syntax(
                                sps.profile_tier_level,
                                true,
                                sps.max_sub_layers_minus1 as int,
                            ),
                        ),
                    )
                    .all(size_of_the_picture(*sps)),
            ),
{
    let front = elements()
        .bits(4, sps.video_parameter_set_id as int)
        .bits(3, sps.max_sub_layers_minus1 as int)
        .bit(sps.temporal_id_nesting_flag)
        .all(told(ptl_syntax(sps.profile_tier_level, true, sps.max_sub_layers_minus1 as int)))
        .all(size_of_the_picture(*sps));
    lemma_size(sps);
    law_synthesized_sps_is_carried(sps);
    assert forall|out: &mut Vec<u8>, r: SynthesizerResult<()>| #[trigger]
        call_ensures(Synthesizer::<'_, Sps>::synthesize, (sps, out, false), r) implies begins_with(
        out@,
        final(out)@,
        front,
    ) by {
        lemma_begins(out@, final(out)@, front, sps_syntax(*sps));
    }
}

/// The identifier of a sequence parameter set, the chroma format, the width and the height.
pub open spec fn size_of_the_picture(sps: Sps) -> Elements {
    elements()
        .unsigned(sps.seq_parameter_set_id as int)
        .unsigned(sps.chroma_format_idc as int)
        .only(sps.chroma_format_idc == 3, elements().bit(sps.separate_colour_plane_flag))
        .unsigned(sps.pic_width_in_luma_samples as int)
        .unsigned(sps.pic_height_in_luma_samples as int)
}

proof fn lemma_size(sps: &Sps)
    ensures
        starts(
            sps_syntax(*sps),
            elements()
                .bits(4, sps.video_parameter_set_id as int)
                .bits(3, sps.max_sub_layers_minus1 as int)
                .bit(sps.temporal_id_nesting_flag)
                .all(
                    told(
                        ptl_syntax(sps.profile_tier_level, true, sps.max_sub_layers_minus1 as int),
                    ),
                )
                .all(size_of_the_picture(*sps)).list,
        ),
{
    let head = elements()
        .bits(4, sps.video_parameter_set_id as int)
        .bits(3, sps.max_sub_layers_minus1 as int)
        .bit(sps.temporal_id_nesting_flag);
    let ptl = ptl_syntax(sps.profile_tier_level, true, sps.max_sub_layers_minus1 as int);
    let size = size_of_the_picture(*sps);
    assert(consists_of(sps_head_syntax(*sps), head)) by {
        broadcast use group_elements;

        reveal(sps_head_syntax);
    }
    assert(starts(sps_format_syntax(*sps), size.list)) by {
        broadcast use {lemma_starts_push, lemma_starts_part};

        let table = syntax()
            .ue(sps.seq_parameter_set_id as int)
            .ue(sps.chroma_format_idc as int)
            .when(sps.chroma_format_idc == 3, syntax().flag(sps.separate_colour_plane_flag))
            .ue(sps.pic_width_in_luma_samples as int)
            .ue(sps.pic_height_in_luma_samples as int);
        assert(consists_of(table, size)) by {
            broadcast use group_elements;

        }
        lemma_starts(table, size.list);
        reveal(sps_format_syntax);
    }
    let a = sps_head_syntax(*sps).part(ptl);
    lemma_elements_part(sps_head_syntax(*sps), ptl);
    lemma_starts_behind(a, sps_format_syntax(*sps), size.list);
    assert(starts(sps_syntax(*sps), a.elements + size.list)) by {
        broadcast use lemma_starts_part;

        reveal(sps_syntax);
    }
}

/// A decoder reads the quantizer of a slice, as its signed difference from that of the picture
/// parameter set, behind the reference pictures, the sample adaptive offset and the prediction.
pub proof fn law_slice_quantizer_is_read(
    nalu_type: NaluType,
    hdr: &SliceHeader,
    sps: &Sps,
    pps: &Pps,
)
    requires
        slice_syntax(*hdr, nalu_type, *sps, *pps).fits(),
        !hdr.dependent_slice_segment_flag,
    ensures
        forall|out: &mut Vec<u8>, r: SynthesizerResult<()>| #[trigger]
            call_ensures(
                Synthesizer::<'_, SliceHeader>::synthesize,
                (nalu_type, hdr, sps, pps, out, false),
                r,
            ) ==> begins_with(
                out@,
                final(out)@,
                told(slice_address_syntax(*hdr, nalu_type, *sps, *pps))
                    .all(told(slice_type_syntax(*hdr, *sps, *pps)))
                    .all(told(slice_references_syntax(*hdr, nalu_type, *sps)))
                    .all(told(slice_sao_syntax(*hdr, *sps)))
                    .all(told(slice_inter_syntax(*hdr, *sps, *pps)))
                    .all(elements().signed(hdr.qp_delta as int)),
            ),
{
    let front = told(slice_address_syntax(*hdr, nalu_type, *sps, *pps))
        .all(told(slice_type_syntax(*hdr, *sps, *pps)))
        .all(told(slice_references_syntax(*hdr, nalu_type, *sps)))
        .all(told(slice_sao_syntax(*hdr, *sps)))
        .all(told(slice_inter_syntax(*hdr, *sps, *pps)))
        .all(elements().signed(hdr.qp_delta as int));
    let table = slice_syntax(*hdr, nalu_type, *sps, *pps);
    assert(starts(table, front.list)) by {
        lemma_quantizer(nalu_type, hdr, sps, pps);
    }
    law_synthesized_slice_header_is_carried(nalu_type, hdr, sps, pps);
    assert forall|out: &mut Vec<u8>, r: SynthesizerResult<()>| #[trigger]
        call_ensures(
            Synthesizer::<'_, SliceHeader>::synthesize,
            (nalu_type, hdr, sps, pps, out, false),
            r,
        ) implies begins_with(out@, final(out)@, front) by {
        lemma_begins(out@, final(out)@, front, table);
    }
}

proof fn lemma_quantizer(nalu_type: NaluType, hdr: &SliceHeader, sps: &Sps, pps: &Pps)
    requires
        !hdr.dependent_slice_segment_flag,
    ensures
        starts(
            slice_syntax(*hdr, nalu_type, *sps, *pps),
            told(slice_address_syntax(*hdr, nalu_type, *sps, *pps))
                .all(told(slice_type_syntax(*hdr, *sps, *pps)))
                .all(told(slice_references_syntax(*hdr, nalu_type, *sps)))
                .all(told(slice_sao_syntax(*hdr, *sps)))
                .all(told(slice_inter_syntax(*hdr, *sps, *pps)))
                .all(elements().signed(hdr.qp_delta as int)).list,
        ),
{
    let qp = elements().signed(hdr.qp_delta as int).list;
    let address = slice_address_syntax(*hdr, nalu_type, *sps, *pps);
    let kind = slice_type_syntax(*hdr, *sps, *pps);
    let references = slice_references_syntax(*hdr, nalu_type, *sps);
    let sao = slice_sao_syntax(*hdr, *sps);
    let inter = slice_inter_syntax(*hdr, *sps, *pps);
    assert(starts(slice_qp_syntax(*hdr, *pps), qp)) by {
        broadcast use {lemma_starts_push, lemma_starts_part};

        let table = syntax().se(hdr.qp_delta as int);
        assert(consists_of(table, elements().signed(hdr.qp_delta as int))) by {
            broadcast use group_elements;

        }
        lemma_starts(table, qp);
        reveal(slice_qp_syntax);
    }
    lemma_elements_part(sao, inter);
    lemma_starts_behind(sao.part(inter), slice_qp_syntax(*hdr, *pps), qp);
    let inner = sao.elements + inter.elements + qp;
    assert(starts(slice_body_syntax(*hdr, *sps, *pps), inner)) by {
        broadcast use lemma_starts_part;

        reveal(slice_body_syntax);
    }
    lemma_elements_part(kind, references);
    lemma_starts_behind(kind.part(references), slice_body_syntax(*hdr, *sps, *pps), inner);
    let middle = kind.elements + references.elements + inner;
    assert(starts(slice_independent_syntax(*hdr, nalu_type, *sps, *pps), middle)) by {
        reveal(slice_independent_syntax);
    }
    lemma_starts_behind(address, slice_independent_syntax(*hdr, nalu_type, *sps, *pps), middle);
    assert(starts(slice_syntax(*hdr, nalu_type, *sps, *pps), address.elements + middle)) by {
        broadcast use lemma_starts_part;

        reveal(slice_syntax);
    }
    assert(address.elements + middle =~= address.elements + kind.elements + references.elements
        + sao.elements + inter.elements + qp);
}

} // verus!
