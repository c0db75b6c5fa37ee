//! NAL units in an Annex B byte stream.

use crate::codec::emulation::{
    escape, lemma_escape_clean, lemma_unescape_escape, lemma_unescape_push, start_code_at, unescape,
    unescape_state,
};
use crate::codec::h265::types::NaluType;
use crate::codec::nalu_writer::hevc_header;
use vstd::prelude::*;

verus! {

/// The header of an H.265 NAL unit (7.3.1.2).
#[derive(Clone, Copy, Debug, PartialEq, Eq)]
pub struct NaluHeader {
    pub type_: NaluType,
    pub nuh_layer_id: u8,
    pub nuh_temporal_id_plus1: u8,
}

/// A NAL unit: its header, and its RBSP without emulation prevention bytes.
#[derive(Clone, Debug, PartialEq, Eq)]
pub struct Nalu {
    pub header: NaluHeader,
    pub rbsp: Vec<u8>,
    /// Where the search for the next NAL unit starts.
    pub end: usize,
}

/// Why no NAL unit was found.
#[derive(Clone, Copy, Debug, PartialEq, Eq, Structural)]
pub enum NaluError {
    /// There is no start code.
    NoStartCode,
    /// The NAL unit is shorter than its header.
    TooShort,
    /// The forbidden bit is set, or the type is reserved.
    InvalidHeader,
}

/// A NAL unit in the abstract.
pub struct NaluModel {
    pub header: NaluHeader,
    pub rbsp: Seq<u8>,
    pub end: int,
}

impl View for Nalu {
    type V = NaluModel;

    open spec fn view(&self) -> NaluModel {
        NaluModel { header: self.header, rbsp: self.rbsp@, end: self.end as int }
    }
}

/// Whether a start code lies at position `i`.
pub open spec fn prefix_at(data: Seq<u8>, i: int) -> bool {
    0 <= i && i + 2 < data.len() && data[i] == 0 && data[i + 1] == 0 && data[i + 2] == 1
}

/// The first start code from `i`.
pub open spec fn first_prefix(data: Seq<u8>, i: int) -> Option<int>
    decreases data.len() - i,
{
    if i + 2 >= data.len() {
        None
    } else if prefix_at(data, i) {
        Some(i)
    } else {
        first_prefix(data, i + 1)
    }
}

/// The end of the NAL unit that starts at `i`: the next start code, or the next three
/// zero bytes, or the end of the data.
pub open spec fn unit_end(data: Seq<u8>, i: int) -> int
    decreases data.len() - i,
{
    if i >= data.len() {
        data.len() as int
    } else if start_code_at(data, i) {
        i
    } else {
        unit_end(data, i + 1)
    }
}

/// The header in two bytes.
pub open spec fn header_of(first: u8, second: u8) -> Option<NaluHeader> {
    if first >= 128 {
        None
    } else {
        match spec_nalu_type(first / 2) {
            Some(type_) => Some(
                NaluHeader {
                    type_,
                    nuh_layer_id: ((first % 2) * 32 + second / 8) as u8,
                    nuh_temporal_id_plus1: second % 8,
                },
            ),
            None => None,
        }
    }
}

/// The NAL unit type with code `v`.
pub open spec fn spec_nalu_type(v: u8) -> Option<NaluType> {
    if exists|t: NaluType| #[trigger] t.code() == v {
        Some(choose|t: NaluType| #[trigger] t.code() == v)
    } else {
        None
    }
}

/// The first NAL unit from position `start`.
pub open spec fn nalu_from(data: Seq<u8>, start: int) -> Result<NaluModel, NaluError> {
    match first_prefix(data, start) {
        None => Err(NaluError::NoStartCode),
        Some(i) => {
            let begin = i + 3;
            let end = unit_end(data, begin);
            if end < begin + 2 {
                Err(NaluError::TooShort)
            } else {
                match header_of(data[begin], data[begin + 1]) {
                    None => Err(NaluError::InvalidHeader),
                    Some(header) => Ok(
                        NaluModel { header, rbsp: unescape(data.subrange(begin + 2, end)), end },
                    ),
                }
            }
        },
    }
}

proof fn lemma_unit_end(data: Seq<u8>, i: int)
    requires
        0 <= i <= data.len(),
    ensures
        i <= unit_end(data, i) <= data.len(),
    decreases data.len() - i,
{
    if i < data.len() && !start_code_at(data, i) {
        lemma_unit_end(data, i + 1);
    }
}

proof fn lemma_unit_end_clean(data: Seq<u8>, i: int)
    requires
        0 <= i <= data.len(),
        forall|k: int| i <= k ==> !#[trigger] start_code_at(data, k),
    ensures
        unit_end(data, i) == data.len(),
    decreases data.len() - i,
{
    if i < data.len() {
        assert(!start_code_at(data, i));
        lemma_unit_end_clean(data, i + 1);
    }
}

impl Nalu {
    /// The first NAL unit of `data` from position `start`.
    pub fn next(data: &[u8], start: usize) -> (r: Result<Nalu, NaluError>)
        ensures
            match r {
                Ok(n) => nalu_from(data@, start as int) == Ok::<NaluModel, NaluError>(n@),
                Err(e) => nalu_from(data@, start as int) == Err::<NaluModel, NaluError>(e),
            },
    {
        let mut i: usize = start;
        while i < data.len() && data.len() - i > 2
            && !(data[i] == 0 && data[i + 1] == 0 && data[i + 2] == 1)
            invariant
                start <= i,
                first_prefix(data@, start as int) == first_prefix(data@, i as int),
            ensures
                start <= i,
                first_prefix(data@, start as int) == first_prefix(data@, i as int),
                i + 2 >= data@.len() || prefix_at(data@, i as int),
            decreases data@.len() - i,
        {
            i = i + 1;
        }
        if i >= data.len() || data.len() - i <= 2 {
            return Err(NaluError::NoStartCode);
        }
        let begin: usize = i + 3;
        let mut end: usize = begin;
        while end < data.len()
            && !(data.len() - end > 2 && data[end] == 0 && data[end + 1] == 0 && data[end + 2]
            <= 1)
            invariant
                begin <= end <= data@.len(),
                unit_end(data@, begin as int) == unit_end(data@, end as int),
            ensures
                begin <= end <= data@.len(),
                unit_end(data@, begin as int) == end,
            decreases data@.len() - end,
        {
            end = end + 1;
        }
        if end - begin < 2 {
            return Err(NaluError::TooShort);
        }
        let first: u8 = data[begin];
        let second: u8 = data[begin + 1];
        if first >= 128 {
            return Err(NaluError::InvalidHeader);
        }
        proof {
            lemma_nalu_type_codes(first / 2);
        }
        let type_ = match NaluType::from_u8(first / 2) {
            Some(t) => t,
            None => return Err(NaluError::InvalidHeader),
        };
        let rbsp = unescape_bytes(data, begin + 2, end);
        let header = NaluHeader {
            type_,
            nuh_layer_id: (first % 2) * 32 + second / 8,
            nuh_temporal_id_plus1: second % 8,
        };
        Ok(Nalu { header, rbsp, end })
    }
}

/// No two NAL unit types have the same code.
proof fn lemma_nalu_type_codes(v: u8)
    ensures
        forall|t: NaluType| #[trigger] t.code() == v ==> spec_nalu_type(v) == Some(t),
        (forall|t: NaluType| #[trigger] t.code() != v) ==> spec_nalu_type(v) is None,
{
    assert forall|t: NaluType, u: NaluType| #[trigger] t.code() == v && #[trigger] u.code() == v
        implies t == u by {
    }
}

/// The bytes `start..end` of `data` without emulation prevention bytes.
fn unescape_bytes(data: &[u8], start: usize, end: usize) -> (out: Vec<u8>)
    requires
        start <= end <= data@.len(),
    ensures
        out@ == unescape(data@.subrange(start as int, end as int)),
{
    let mut out: Vec<u8> = Vec::new();
    let mut zeros: u8 = 0;
    let mut i: usize = start;
    proof {
        assert(data@.subrange(start as int, start as int) =~= Seq::<u8>::empty());
    }
    while i < end
        invariant
            start <= i <= end <= data@.len(),
            out@ == unescape_state(data@.subrange(start as int, i as int)).0,
            zeros <= 2,
            zeros >= 2 <==> unescape_state(data@.subrange(start as int, i as int)).1 >= 2,
            zeros < 2 ==> zeros == unescape_state(data@.subrange(start as int, i as int)).1,
        decreases end - i,
    {
        proof {
            lemma_unescape_push(data@.subrange(start as int, i as int), data@[i as int]);
            assert(data@.subrange(start as int, i as int).push(data@[i as int]) =~= data@.subrange(
                start as int,
                i + 1,
            ));
        }
        let b: u8 = data[i];
        if zeros >= 2 && b == 3 {
            zeros = 0;
        } else {
            out.push(b);
            if b == 0 {
                if zeros < 2 {
                    zeros = zeros + 1;
                }
            } else {
                zeros = 0;
            }
        }
        i = i + 1;
    }
    out
}

/// A NAL unit that was written with emulation prevention is found again: the header is
/// the one written, and the RBSP is what was escaped.
pub proof fn law_written_nalu_is_found(nalu_type: NaluType, rbsp: Seq<u8>)
    ensures
        ({
            let data = hevc_header(nalu_type.code(), 0, 1) + escape(rbsp);
            nalu_from(data, 0) == Ok::<NaluModel, NaluError>(
                NaluModel {
                    header: NaluHeader { type_: nalu_type, nuh_layer_id: 0, nuh_temporal_id_plus1: 1 },
                    rbsp,
                    end: data.len() as int,
                },
            )
        }),
{
    let head = hevc_header(nalu_type.code(), 0, 1);
    let data = head + escape(rbsp);
    assert(head.len() == 6);
    assert(data[0] == 0 && data[1] == 0 && data[2] == 0 && data[3] == 1 && data[5] == 1);
    assert(data[4] == 2 * nalu_type.code());
    reveal_with_fuel(first_prefix, 3);
    assert(first_prefix(data, 0) == Some(1int));
    lemma_escape_clean(rbsp);
    assert forall|k: int| 4 <= k implies !#[trigger] start_code_at(data, k) by {
        if start_code_at(data, k) {
            if k >= 6 {
                assert(data[k] == escape(rbsp)[k - 6]);
                assert(data[k + 1] == escape(rbsp)[k - 5]);
                assert(data[k + 2] == escape(rbsp)[k - 4]);
                assert(start_code_at(escape(rbsp), k - 6));
            }
        }
    }
    lemma_unit_end_clean(data, 4);
    lemma_nalu_type_codes(nalu_type.code());
    assert(data.subrange(6, data.len() as int) =~= escape(rbsp));
    lemma_unescape_escape(rbsp);
}

} // verus!
