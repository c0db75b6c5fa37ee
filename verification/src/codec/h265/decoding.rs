//! What is read from a stream, in terms of its bytes and of what is coded in them.

use crate::bits::bits_of;
use crate::codec::emulation::{start_code_at, unescape, unescape_state};
use crate::codec::h265::nalu::{
    first_prefix, header_of, prefix_at, spec_nalu_type, unit_end, Nalu, NaluError,
};
use crate::codec::h265::parser::{
    read_pps, read_slice_header, read_sps, read_vps, slice_parsed, slice_pps_id, ParseError, Parser,
    Slice,
};
use crate::codec::h265::tables::{
    pps_syntax, slice_address_syntax, slice_syntax, sps_syntax, vps_syntax,
};
use crate::codec::h265::types::{NaluType, Pps, SliceHeader, Sps, Vps};
use crate::reading::{lemma_was_read, was_read};
use crate::syntax::{group_onto, group_read, Syntax};
use std::rc::Rc;
use vstd::prelude::*;

verus! {

/// Where the first start code lies.
proof fn lemma_first_prefix(data: Seq<u8>, i: int)
    requires
        0 <= i,
    ensures
        match first_prefix(data, i) {
            Some(k) => i <= k && prefix_at(data, k) && forall|m: int|
                i <= m < k ==> !#[trigger] prefix_at(data, m),
            None => forall|m: int| i <= m ==> !#[trigger] prefix_at(data, m),
        },
    decreases data.len() - i,
{
    if i + 2 < data.len() && !prefix_at(data, i) {
        lemma_first_prefix(data, i + 1);
    }
}

/// Where a NAL unit ends.
proof fn lemma_unit_end(data: Seq<u8>, i: int)
    requires
        0 <= i <= data.len(),
    ensures
        i <= unit_end(data, i) <= data.len(),
        unit_end(data, i) < data.len() ==> start_code_at(data, unit_end(data, i)),
        forall|m: int| i <= m < unit_end(data, i) ==> !#[trigger] start_code_at(data, m),
    decreases data.len() - i,
{
    if i < data.len() && !start_code_at(data, i) {
        lemma_unit_end(data, i + 1);
    }
}

/// Whether the bytes `0`, `0` and `1` lie at position `i`.
pub open spec fn starts_unit(data: Seq<u8>, i: int) -> bool {
    i + 3 <= data.len() && data.subrange(i, i + 3) == seq![0u8, 0u8, 1u8]
}

/// Whether three zero bytes, or two of them and a one, lie at position `i`.
pub open spec fn ends_unit(data: Seq<u8>, i: int) -> bool {
    i + 3 <= data.len() && data[i] == 0 && data[i + 1] == 0 && (data[i + 2] == 0 || data[i + 2]
        == 1)
}

/// A NAL unit follows the first start code and goes on to the next one, or to three zero bytes,
/// or to the end. Its first two bytes are, from the left, a zero bit, six bits of the type, six of
/// the layer and three of the temporal sub-layer; the rest is the escaped payload.
pub proof fn law_nal_unit_is_read(data: &[u8], start: usize, nalu: Nalu)
    requires
        call_ensures(Nalu::next, (data, start), Ok::<Nalu, NaluError>(nalu)),
    ensures
        exists|i: int| #[trigger]
            starts_unit(data@, i) && start <= i && i + 5 <= nalu.end <= data@.len() && {
                &&& forall|m: int| start <= m < i ==> !#[trigger] starts_unit(data@, m)
                &&& forall|m: int| i + 3 <= m < nalu.end ==> !#[trigger] ends_unit(data@, m)
                &&& nalu.end < data@.len() ==> ends_unit(data@, nalu.end as int)
                &&& 256 * data@[i + 3] + data@[i + 4] == 512 * nalu.header.type_.code() + 8
                    * nalu.header.nuh_layer_id + nalu.header.nuh_temporal_id_plus1
                &&& nalu.header.type_.code() < 64
                &&& nalu.header.nuh_layer_id < 64
                &&& nalu.header.nuh_temporal_id_plus1 < 8
                &&& nalu.rbsp@ == unescape(data@.subrange(i + 5, nalu.end as int))
            },
{
    lemma_first_prefix(data@, start as int);
    assert forall|m: int| 0 <= m implies #[trigger] starts_unit(data@, m) == prefix_at(data@, m) by {
        if m + 3 <= data@.len() {
            let three = data@.subrange(m, m + 3);
            assert(three[0] == data@[m] && three[1] == data@[m + 1] && three[2] == data@[m + 2]);
            if prefix_at(data@, m) {
                assert(three =~= seq![0u8, 0u8, 1u8]);
            }
        }
    }
    assert forall|m: int| 0 <= m implies #[trigger] ends_unit(data@, m) == start_code_at(
        data@,
        m,
    ) by {}
    let i = first_prefix(data@, start as int)->0;
    lemma_unit_end(data@, i + 3);
    let first = data@[i + 3];
    let second = data@[i + 4];
    assert(header_of(first, second) == Some(nalu.header));
    assert(spec_nalu_type(first / 2) == Some(nalu.header.type_));
    assert(starts_unit(data@, i));
}

/// No NAL unit is found exactly where there is no start code, where what follows it is shorter
/// than a header, and where the header has its first bit set or a type without a name.
pub proof fn law_nal_unit_is_missed(data: &[u8], start: usize, e: NaluError)
    requires
        call_ensures(Nalu::next, (data, start), Err::<Nalu, NaluError>(e)),
    ensures
        e == NaluError::NoStartCode <==> forall|m: int|
            start <= m ==> !#[trigger] starts_unit(data@, m),
        e == NaluError::TooShort ==> exists|i: int| #[trigger]
            starts_unit(data@, i) && start <= i && (data@.len() < i + 5 || ends_unit(data@, i + 3)
                || ends_unit(data@, i + 4)),
        e == NaluError::InvalidHeader ==> exists|i: int| #[trigger]
            starts_unit(data@, i) && start <= i && i + 5 <= data@.len() && (data@[i + 3] >= 128
                || forall|t: NaluType| #[trigger] t.code() != data@[i + 3] / 2),
{
    lemma_first_prefix(data@, start as int);
    assert forall|m: int| 0 <= m implies #[trigger] starts_unit(data@, m) == prefix_at(data@, m) by {
        if m + 3 <= data@.len() {
            let three = data@.subrange(m, m + 3);
            assert(three[0] == data@[m] && three[1] == data@[m + 1] && three[2] == data@[m + 2]);
            if prefix_at(data@, m) {
                assert(three =~= seq![0u8, 0u8, 1u8]);
            }
        }
    }
    assert forall|m: int| 0 <= m implies #[trigger] ends_unit(data@, m) == start_code_at(
        data@,
        m,
    ) by {}
    if let Some(i) = first_prefix(data@, start as int) {
        assert(starts_unit(data@, i));
        lemma_unit_end(data@, i + 3);
        if e == NaluError::TooShort {
            assert(unit_end(data@, i + 3) < i + 5);
        }
    }
}

/// Whether no `3` follows two zero bytes.
pub open spec fn is_plain(bytes: Seq<u8>) -> bool {
    forall|i: int|
        #![trigger bytes[i]]
        0 <= i && i + 2 < bytes.len() ==> !(bytes[i] == 0 && bytes[i + 1] == 0 && bytes[i + 2] == 3)
}

/// Bytes among which no `3` follows two zero bytes are their own payload.
pub proof fn law_plain_bytes_are_not_escaped(bytes: Seq<u8>)
    requires
        is_plain(bytes),
    ensures
        unescape(bytes) == bytes,
{
    lemma_plain(bytes);
}

proof fn lemma_plain(bytes: Seq<u8>)
    requires
        is_plain(bytes),
    ensures
        unescape_state(bytes).0 == bytes,
        0 <= unescape_state(bytes).1 <= bytes.len(),
        unescape_state(bytes).1 >= 1 ==> bytes.last() == 0,
        unescape_state(bytes).1 >= 2 ==> bytes[bytes.len() - 2] == 0,
    decreases bytes.len(),
{
    if bytes.len() == 0 {
        assert(unescape_state(bytes).0 =~= bytes);
    } else {
        let front = bytes.drop_last();
        assert forall|i: int|
            #![trigger front[i]]
            0 <= i && i + 2 < front.len() implies !(front[i] == 0 && front[i + 1] == 0 && front[i
            + 2] == 3) by {
            assert(bytes[i] == front[i]);
        }
        lemma_plain(front);
        if unescape_state(front).1 >= 2 {
            assert(bytes[bytes.len() - 3] == front[front.len() - 2]);
            assert(front.last() == bytes[bytes.len() - 2]);
        }
        assert(front.push(bytes.last()) =~= bytes);
    }
}

/// The elements of a video parameter set stand in the bytes that it was parsed from.
pub proof fn law_parsed_vps_was_read(rbsp: &Vec<u8>, vps: Vps)
    requires
        call_ensures(read_vps, (rbsp,), Some(vps)),
    ensures
        was_read(rbsp@, vps_syntax(vps).elements),
{
    lemma_was_read(rbsp@, vps_syntax(vps));
}

/// The elements of a sequence parameter set stand in the bytes that it was parsed from.
pub proof fn law_parsed_sps_was_read(rbsp: &Vec<u8>, vps: Option<Rc<Vps>>, sps: Sps)
    requires
        call_ensures(read_sps, (rbsp, vps), Some(sps)),
    ensures
        was_read(rbsp@, sps_syntax(sps).elements),
        sps.vps == vps,
{
    lemma_was_read(rbsp@, sps_syntax(sps));
}

/// The elements of a picture parameter set stand in the bytes that it was parsed from.
pub proof fn law_parsed_pps_was_read(rbsp: &Vec<u8>, sps: Rc<Sps>, pps: Pps)
    requires
        call_ensures(read_pps, (rbsp, sps), Some(pps)),
    ensures
        was_read(rbsp@, pps_syntax(pps).elements),
        pps.sps == sps,
{
    lemma_was_read(rbsp@, pps_syntax(pps));
}

/// The elements of a slice segment header stand in the bytes that it was parsed from.
pub proof fn law_parsed_slice_header_was_read(
    rbsp: &Vec<u8>,
    nalu_type: NaluType,
    sps: &Sps,
    pps: &Pps,
    header: SliceHeader,
)
    requires
        call_ensures(read_slice_header, (rbsp, nalu_type, sps, pps), Some(header)),
    ensures
        was_read(rbsp@, slice_syntax(header, nalu_type, *sps, *pps).elements),
{
    lemma_was_read(rbsp@, slice_syntax(header, nalu_type, *sps, *pps));
}

/// The first `3` that follows two zero bytes is dropped, and what follows it is unescaped by
/// itself.
pub proof fn law_escape_is_dropped(front: Seq<u8>, rest: Seq<u8>)
    requires
        is_plain(front),
    ensures
        unescape(front + seq![0u8, 0u8, 3u8] + rest) == front + seq![0u8, 0u8] + unescape(rest),
{
    let zeros = front + seq![0u8, 0u8];
    let escaped = front + seq![0u8, 0u8, 3u8];
    assert forall|i: int|
        #![trigger zeros[i]]
        0 <= i && i + 2 < zeros.len() implies !(zeros[i] == 0 && zeros[i + 1] == 0 && zeros[i + 2]
        == 3) by {
        if i + 2 < front.len() {
            assert(zeros[i] == front[i]);
        }
    }
    lemma_plain(zeros);
    lemma_ends_in_zeros(zeros);
    assert(escaped.drop_last() =~= zeros);
    assert(unescape_state(escaped) == (zeros, 0int));
    lemma_unescape_behind(escaped, rest);
}

/// Two zero bytes at the end are counted.
proof fn lemma_ends_in_zeros(bytes: Seq<u8>)
    requires
        bytes.len() >= 2,
        bytes.last() == 0,
        bytes[bytes.len() - 2] == 0,
    ensures
        unescape_state(bytes).1 >= 2,
{
    let front = bytes.drop_last();
    assert(front.last() == 0);
    lemma_zeros_are_counted(front.drop_last());
    assert(unescape_state(front).1 == unescape_state(front.drop_last()).1 + 1);
}

proof fn lemma_zeros_are_counted(bytes: Seq<u8>)
    ensures
        unescape_state(bytes).1 >= 0,
    decreases bytes.len(),
{
    if bytes.len() > 0 {
        lemma_zeros_are_counted(bytes.drop_last());
    }
}

/// Behind bytes after which no zeros are counted, bytes are unescaped by themselves.
proof fn lemma_unescape_behind(front: Seq<u8>, rest: Seq<u8>)
    requires
        unescape_state(front).1 == 0,
    ensures
        unescape_state(front + rest).0 == unescape_state(front).0 + unescape_state(rest).0,
        unescape_state(front + rest).1 == unescape_state(rest).1,
    decreases rest.len(),
{
    if rest.len() == 0 {
        assert(front + rest =~= front);
    } else {
        lemma_unescape_behind(front, rest.drop_last());
        assert((front + rest).drop_last() =~= front + rest.drop_last());
    }
}

/// The sum of the coded cycles of the long-term reference pictures from `first` to `i`.
pub open spec fn sum_of_cycles(h: SliceHeader, first: int, i: int) -> int
    decreases i + 1 - first,
{
    if i < first {
        0
    } else {
        sum_of_cycles(h, first, i - 1) + h.coded_msb_cycle(i)
    }
}

/// The cycles of the long-term reference pictures are coded by their steps, which add up: over
/// those of the sequence parameter set, and over those of the slice segment header.
pub proof fn law_cycles_add_up(h: SliceHeader, i: int)
    requires
        0 <= i < h.num_long_term_sps + h.num_long_term_pics,
    ensures
        sum_of_cycles(
            h,
            if i < h.num_long_term_sps {
                0
            } else {
                h.num_long_term_sps as int
            },
            i,
        ) == h.delta_poc_msb_cycle_lt[i],
    decreases i,
{
    let first = if i < h.num_long_term_sps {
        0
    } else {
        h.num_long_term_sps as int
    };
    if i > first {
        law_cycles_add_up(h, i - 1);
    } else {
        assert(sum_of_cycles(h, first, i - 1) == 0);
    }
}

/// A parsed video parameter set is kept under its identifier, and replaces none but the one there.
pub proof fn law_parsed_vps_is_kept(nalu: &Nalu, vps: Rc<Vps>)
    ensures
        forall|parser: &mut Parser|
            #[trigger] call_ensures(
                Parser::parse_vps,
                (parser, nalu),
                Ok::<Rc<Vps>, ParseError>(vps),
            ) ==> {
                &&& nalu.header.type_ == NaluType::VpsNut
                &&& was_read(nalu.rbsp@, vps_syntax(*vps).elements)
                &&& forall|id: u8| #[trigger]
                    final(parser).vps_at(id) == if id == vps.video_parameter_set_id {
                        Some(vps)
                    } else {
                        parser.vps_at(id)
                    }
                &&& forall|id: u8| #[trigger] final(parser).sps_at(id) == parser.sps_at(id)
                &&& forall|id: u8| #[trigger] final(parser).pps_at(id) == parser.pps_at(id)
            },
{
    assert forall|parser: &mut Parser|
        #[trigger] call_ensures(
            Parser::parse_vps,
            (parser, nalu),
            Ok::<Rc<Vps>, ParseError>(vps),
        ) implies was_read(nalu.rbsp@, vps_syntax(*vps).elements) by {
        lemma_was_read(nalu.rbsp@, vps_syntax(*vps));
    }
}

/// As [`law_parsed_vps_is_kept`], of a sequence parameter set, which refers to the video parameter
/// set that it names.
pub proof fn law_parsed_sps_is_kept(nalu: &Nalu, sps: Rc<Sps>)
    ensures
        forall|parser: &mut Parser|
            #[trigger] call_ensures(
                Parser::parse_sps,
                (parser, nalu),
                Ok::<Rc<Sps>, ParseError>(sps),
            ) ==> {
                &&& nalu.header.type_ == NaluType::SpsNut
                &&& was_read(nalu.rbsp@, sps_syntax(*sps).elements)
                &&& sps.vps == parser.vps_at(sps.video_parameter_set_id)
                &&& forall|id: u8| #[trigger]
                    final(parser).sps_at(id) == if id == sps.seq_parameter_set_id {
                        Some(sps)
                    } else {
                        parser.sps_at(id)
                    }
                &&& forall|id: u8| #[trigger] final(parser).vps_at(id) == parser.vps_at(id)
                &&& forall|id: u8| #[trigger] final(parser).pps_at(id) == parser.pps_at(id)
            },
{
    assert forall|parser: &mut Parser|
        #[trigger] call_ensures(
            Parser::parse_sps,
            (parser, nalu),
            Ok::<Rc<Sps>, ParseError>(sps),
        ) implies was_read(nalu.rbsp@, sps_syntax(*sps).elements) by {
        lemma_was_read(nalu.rbsp@, sps_syntax(*sps));
    }
}

/// As [`law_parsed_vps_is_kept`], of a picture parameter set, which refers to the sequence
/// parameter set that it names.
pub proof fn law_parsed_pps_is_kept(nalu: &Nalu, pps: Rc<Pps>)
    ensures
        forall|parser: &mut Parser|
            #[trigger] call_ensures(
                Parser::parse_pps,
                (parser, nalu),
                Ok::<Rc<Pps>, ParseError>(pps),
            ) ==> {
                &&& nalu.header.type_ == NaluType::PpsNut
                &&& was_read(nalu.rbsp@, pps_syntax(*pps).elements)
                &&& Some(pps.sps) == parser.sps_at(pps.seq_parameter_set_id)
                &&& forall|id: u8| #[trigger]
                    final(parser).pps_at(id) == if id == pps.pic_parameter_set_id {
                        Some(pps)
                    } else {
                        parser.pps_at(id)
                    }
                &&& forall|id: u8| #[trigger] final(parser).vps_at(id) == parser.vps_at(id)
                &&& forall|id: u8| #[trigger] final(parser).sps_at(id) == parser.sps_at(id)
            },
{
    assert forall|parser: &mut Parser|
        #[trigger] call_ensures(
            Parser::parse_pps,
            (parser, nalu),
            Ok::<Rc<Pps>, ParseError>(pps),
        ) implies was_read(nalu.rbsp@, pps_syntax(*pps).elements) by {
        lemma_was_read(nalu.rbsp@, pps_syntax(*pps));
    }
}

/// A slice segment is parsed under the picture parameter set that it names, and the sequence
/// parameter set that this one refers to. Only the types below 32 are slices.
pub proof fn law_slice_goes_by_its_picture_parameter_set(parser: &Parser, nalu: Nalu, slice: Slice)
    requires
        call_ensures(Parser::parse_slice_header, (parser, nalu), Ok::<Slice, ParseError>(slice)),
    ensures
        nalu.header.type_.code() < 32,
        slice.nalu == nalu,
        parser.pps_at(slice.header.pic_parameter_set_id) matches Some(pps) && was_read(
            nalu.rbsp@,
            slice_syntax(slice.header, nalu.header.type_, *pps.sps, *pps).elements,
        ),
{
    let t = nalu.header.type_;
    let id = slice_pps_id(nalu.rbsp@, t)->0;
    let pps = parser.pps_at(id as u8)->0;
    lemma_slice_pps_id(nalu.rbsp@, t, pps, slice.header);
    lemma_was_read(nalu.rbsp@, slice_under(slice.header, t, pps));
}

/// The table of a slice segment header under a picture parameter set.
spec fn slice_under(h: SliceHeader, t: NaluType, pps: Rc<Pps>) -> Syntax {
    slice_syntax(h, t, *pps.sps, *pps)
}

proof fn lemma_slice_pps_id(rbsp: Seq<u8>, t: NaluType, pps: Rc<Pps>, h: SliceHeader)
    requires
        slice_parsed(rbsp, t, *pps.sps, *pps, Some(h)),
    ensures
        slice_pps_id(rbsp, t) == Some(h.pic_parameter_set_id as int),
{
    broadcast use {group_onto, group_read};

    reveal(slice_syntax);
    reveal(slice_address_syntax);
    let rest = choose|rest: Seq<bool>|
        bits_of(rbsp) == #[trigger] slice_under(h, t, pps).onto(rest);
    assert(bits_of(rbsp) == slice_under(h, t, pps).onto(rest));
}

} // verus!
