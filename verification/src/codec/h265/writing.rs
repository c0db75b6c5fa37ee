//! What is written of a table, and the scaling lists element by element.

use crate::bits::{
    code_u, lemma_code_of_value, lemma_code_u_len, lemma_pow2_pos, pack, pow2, value_of,
    with_trailing,
};
use crate::codec::h265::elements::carries;
use crate::codec::h265::synthesizer::{
    nalu_bytes, table_result, Synthesizer, SynthesizerError, SynthesizerResult,
};
use crate::codec::h265::tables::{
    coefs_from, pps_syntax, scaling_list_data_syntax, scaling_list_syntax, scaling_lists_from,
    slice_syntax, sps_syntax, vps_syntax, wrapped,
};
use crate::codec::h265::types::{NaluType, Pps, ScalingLists, SliceHeader, Sps, Vps};
use crate::codec::nalu_writer::NaluWriterError;
use crate::reading::{
    consists_of, elements, group_elements, holds, joined, law_bytes_hold_the_elements,
    lemma_elements_part, lemma_no_rows, lemma_number,
    lemma_rows, number, told, Elements,
};
use crate::syntax::{concat_codes, write_all, Syntax, SyntaxElement};
use vstd::arithmetic::div_mod::lemma_mod_breakdown;
use vstd::prelude::*;

verus! {

broadcast use lemma_elements_part;

/// Whether an element has a code: a field of at most 32 bits, an unsigned number below
/// `2^32 - 1`, or a signed number.
pub open spec fn has_code(e: SyntaxElement) -> bool {
    match e {
        SyntaxElement::U { bits, .. } => bits <= 32,
        SyntaxElement::Ue { value } => value < 4_294_967_295,
        SyntaxElement::Se { .. } => true,
        _ => false,
    }
}

/// A table is written where each of its elements has a code. Otherwise the first that has none
/// decides on the error: a field that is too wide, a number that is too large, or a structure
/// that is not coded here.
pub proof fn law_first_element_without_a_code_decides(table: Syntax)
    ensures
        table_result(table) is Ok <==> forall|i: int|
            0 <= i < table.elements.len() ==> has_code(#[trigger] table.elements[i]),
        table_result(table) matches Err(e) ==> exists|k: int|
            0 <= k < table.elements.len() && !has_code(#[trigger] table.elements[k]) && (forall|
                i: int,
            |
                0 <= i < k ==> has_code(#[trigger] table.elements[i])) && match table.elements[k] {
                SyntaxElement::U { .. } => e == SynthesizerError::NaluWriter(
                    NaluWriterError::InvalidBitCount,
                ),
                SyntaxElement::Ue { .. } => e == SynthesizerError::NaluWriter(
                    NaluWriterError::Overflow,
                ),
                _ => e == SynthesizerError::Unsupported,
            },
{
    reveal(Syntax::failure);
    lemma_first_failure(table.elements);
}

proof fn lemma_first_failure(e: Seq<SyntaxElement>)
    ensures
        match write_all(e).1 {
            None => forall|i: int| 0 <= i < e.len() ==> has_code(#[trigger] e[i]),
            Some(x) => exists|k: int|
                0 <= k < e.len() && e[k] == x && !has_code(#[trigger] e[k]) && (forall|i: int|
                    0 <= i < k ==> has_code(#[trigger] e[i])),
        },
    decreases e.len(),
{
    if e.len() > 0 {
        let front = e.drop_last();
        lemma_first_failure(front);
        assert forall|i: int| 0 <= i < front.len() implies #[trigger] e[i] == front[i] by {}
        if let Some(x) = write_all(front).1 {
            let k = choose|k: int|
                0 <= k < front.len() && front[k] == x && !has_code(#[trigger] front[k]) && (forall|
                    i: int,
                |
                    0 <= i < k ==> has_code(#[trigger] front[i]));
            assert(e[k] == front[k]);
            assert forall|i: int| 0 <= i < k implies has_code(#[trigger] e[i]) by {
                assert(has_code(front[i]));
            }
        } else {
            assert forall|i: int| 0 <= i < front.len() implies has_code(#[trigger] e[i]) by {
                assert(has_code(front[i]));
            }
            assert(e[e.len() - 1] == e.last());
        }
    }
}

/// A value that is too large for its field is written by its low bits.
pub proof fn law_field_holds_the_low_bits(bits: nat, value: nat)
    ensures
        number((SyntaxElement::U { bits: bits as int, value: value as int }).code()) == value % pow2(
            bits,
        ),
        (SyntaxElement::U { bits: bits as int, value: value as int }).code().len() == bits,
{
    lemma_low_bits(bits, value);
    lemma_number(code_u(bits, value));
    lemma_code_u_len(bits, value);
}

proof fn lemma_low_bits(n: nat, v: nat)
    ensures
        value_of(code_u(n, v)) == v % pow2(n),
    decreases n,
{
    if n > 0 {
        lemma_low_bits((n - 1) as nat, v / 2);
        lemma_pow2_pos((n - 1) as nat);
        assert(code_u(n, v).drop_last() =~= code_u((n - 1) as nat, v / 2));
        lemma_mod_breakdown(v as int, 2, pow2((n - 1) as nat) as int);
    }
}

/// The coefficients of list `matrix_id` of the size that `size_id` stands for.
pub open spec fn coefficients(sl: ScalingLists, size_id: int, matrix_id: int) -> Seq<u8> {
    if size_id == 0 {
        sl.scaling_list_4x4@[matrix_id]@
    } else if size_id == 1 {
        sl.scaling_list_8x8@[matrix_id]@
    } else if size_id == 2 {
        sl.scaling_list_16x16@[matrix_id]@
    } else {
        sl.scaling_list_32x32@[matrix_id]@
    }
}

/// The DC coefficient of list `matrix_id` of one of the two larger sizes, minus 8.
pub open spec fn dc_coefficient(sl: ScalingLists, size_id: int, matrix_id: int) -> int {
    if size_id == 2 {
        sl.scaling_list_dc_coef_minus8_16x16@[matrix_id] as int
    } else {
        sl.scaling_list_dc_coef_minus8_32x32@[matrix_id] as int
    }
}

/// Whether adding `step`, of eight bits, to `from` gives `to` modulo 256.
pub open spec fn steps(from: int, step: SyntaxElement, to: int) -> bool {
    step matches SyntaxElement::Se { value } && -128 <= value <= 127 && (from + value - to) % 256
        == 0
}

/// A scaling list is a set flag, the DC coefficient of the two larger sizes, and for each
/// coefficient the step to it: from the coefficient before, and for the first from the DC
/// coefficient, or from 8. There are 16 coefficients of the smallest size, and otherwise 64.
pub proof fn law_scaling_list_elements(sl: ScalingLists, size_id: int, matrix_id: int)
    requires
        0 <= size_id < 4,
        0 <= matrix_id < 6,
    ensures
        ({
            let e = scaling_list_syntax(sl, size_id, matrix_id).elements;
            let list = coefficients(sl, size_id, matrix_id);
            let dc = dc_coefficient(sl, size_id, matrix_id);
            let head: int = if size_id >= 2 { 2 } else { 1 };
            &&& list.len() == if size_id == 0 { 16int } else { 64int }
            &&& e.len() == head + list.len()
            &&& e[0] == (SyntaxElement::U { bits: 1, value: 1 })
            &&& size_id >= 2 ==> e[1] == (SyntaxElement::Se { value: dc })
            &&& forall|i: int|
                0 < i < list.len() ==> steps(
                    list[i - 1] as int,
                    #[trigger] e[head + i],
                    list[i] as int,
                )
            &&& steps(if size_id >= 2 { dc + 8 } else { 8 }, e[head], list[0] as int)
        }),
{
    broadcast use group_elements;

    reveal(scaling_list_syntax);
    let list = coefficients(sl, size_id, matrix_id);
    let dc = dc_coefficient(sl, size_id, matrix_id);
    let first = if size_id >= 2 { dc + 8 } else { 8 };
    let head: int = if size_id >= 2 { 2 } else { 1 };
    assert(sl.list(size_id, matrix_id) == list);
    lemma_steps(list, first, 0);
    let e = scaling_list_syntax(sl, size_id, matrix_id).elements;
    let tail = coefs_from(list, first, 0, list.len() as int).elements;
    assert(e.skip(head) =~= tail);
    assert forall|i: int| 0 <= i < list.len() implies #[trigger] e[head + i] == tail[i] by {
        assert(e.skip(head)[i] == e[head + i]);
    }
    assert(e[head + 0int] == tail[0]);
    assert(steps(step_start(list, first, 0), tail[0], list[0] as int));
    assert forall|i: int| 0 < i < list.len() implies steps(
        list[i - 1] as int,
        #[trigger] e[head + i],
        list[i] as int,
    ) by {
        assert(steps(step_start(list, first, i), tail[i], list[i] as int));
    }
}

/// The value that the step to coefficient `k` starts from.
spec fn step_start(list: Seq<u8>, first: int, k: int) -> int {
    if k == 0 {
        first
    } else {
        list[k - 1] as int
    }
}

/// Each coefficient from `i` is coded as the step to it.
proof fn lemma_steps(list: Seq<u8>, first: int, i: int)
    requires
        0 <= i <= list.len(),
    ensures
        ({
            let e = coefs_from(list, step_start(list, first, i), i, list.len() as int).elements;
            &&& e.len() == list.len() - i
            &&& forall|j: int|
                0 <= j < e.len() ==> steps(
                    step_start(list, first, i + j),
                    #[trigger] e[j],
                    list[i + j] as int,
                )
        }),
    decreases list.len() - i,
{
    broadcast use group_elements;

    if i < list.len() {
        lemma_steps(list, first, i + 1);
        let before = step_start(list, first, i);
        let e = coefs_from(list, before, i, list.len() as int).elements;
        let rest = coefs_from(list, list[i] as int, i + 1, list.len() as int).elements;
        let step = SyntaxElement::Se { value: wrapped(list[i] - before) };
        assert(e =~= seq![step] + rest);
        assert(steps(before, step, list[i] as int));
        assert forall|j: int| 0 <= j < e.len() implies steps(
            step_start(list, first, i + j),
            #[trigger] e[j],
            list[i + j] as int,
        ) by {
            if j > 0 {
                assert(e[j] == rest[j - 1]);
            }
        }
    }
}

/// The scaling list data are all lists of the first three sizes, and the first and the fourth of
/// the largest.
pub proof fn law_scaling_list_data_elements(sl: ScalingLists)
    ensures
        consists_of(
            scaling_list_data_syntax(sl),
            joined(
                Seq::new(
                    20,
                    |k: int|
                        told(
                            if k < 18 {
                                scaling_list_syntax(sl, k / 6, k % 6)
                            } else {
                                scaling_list_syntax(sl, 3, 3 * (k - 18))
                            },
                        ),
                ),
            ),
        ),
{
    reveal(scaling_list_data_syntax);
    let rows = Seq::new(
        20,
        |k: int|
            told(
                if k < 18 {
                    scaling_list_syntax(sl, k / 6, k % 6)
                } else {
                    scaling_list_syntax(sl, 3, 3 * (k - 18))
                },
            ),
    );
    lemma_list_rows(sl, rows, 0, 0, 0);
    assert(rows.skip(0) =~= rows);
}

proof fn lemma_list_rows(
    sl: ScalingLists,
    rows: Seq<Elements>,
    size_id: int,
    matrix_id: int,
    i: int,
)
    requires
        rows.len() == 20,
        forall|k: int|
            0 <= k < 20 ==> #[trigger] rows[k] == told(
                if k < 18 {
                    scaling_list_syntax(sl, k / 6, k % 6)
                } else {
                    scaling_list_syntax(sl, 3, 3 * (k - 18))
                },
            ),
        0 <= size_id < 4,
        0 <= matrix_id <= 6,
        size_id == 3 ==> matrix_id % 3 == 0,
        i == 6 * size_id + if size_id == 3 { matrix_id / 3 } else { matrix_id },
    ensures
        consists_of(scaling_lists_from(sl, size_id, matrix_id), joined(rows.skip(i))),
    decreases 4 - size_id, 9 - matrix_id,
{
    broadcast use group_elements;

    if matrix_id >= 6 {
        if size_id < 3 {
            lemma_list_rows(sl, rows, size_id + 1, 0, i);
        } else {
            lemma_no_rows(rows);
            assert(consists_of(scaling_lists_from(sl, 4, 0), elements()));
        }
    } else {
        let next = matrix_id + if size_id == 3 { 3int } else { 1int };
        lemma_list_rows(sl, rows, size_id, next, i + 1);
        lemma_rows(rows, i);
        assert(rows[i] == told(scaling_list_syntax(sl, size_id, matrix_id)));
    }
}

/// What is said of each error.
pub proof fn law_errors_are_described(e: &SynthesizerError, s: &'static str)
    requires
        call_ensures(SynthesizerError::message, (e,), s),
    ensures
        *e == SynthesizerError::Unsupported ==> s@ == "tried to synthesize unsupported settings"@,
        *e == SynthesizerError::NaluWriter(NaluWriterError::Overflow) ==> s@
            == "value increment caused value overflow"@,
        *e == SynthesizerError::NaluWriter(NaluWriterError::InvalidBitCount) ==> s@
            == "invalid bit count"@,
{
}

/// The element that a decoder reads where `e` was written: of a field, the low bits of its value.
pub open spec fn as_read(e: SyntaxElement) -> SyntaxElement {
    match e {
        SyntaxElement::U { bits, value } => SyntaxElement::U {
            bits,
            value: value % pow2(bits as nat) as int,
        },
        _ => e,
    }
}

/// Whether an element holds a number of a field, or of an Exp-Golomb code of 32 bits.
pub open spec fn holds_a_number(e: SyntaxElement) -> bool {
    match e {
        SyntaxElement::U { bits, value } => 0 <= bits && 0 <= value,
        SyntaxElement::Ue { value } => 0 <= value,
        SyntaxElement::Se { value } => -0x7fff_ffff <= value <= 0x7fff_ffff,
        _ => true,
    }
}

/// The bytes of a table hold its elements also where a value is too large for its field: that field
/// holds the low bits.
pub proof fn law_bytes_hold_what_is_read(table: Syntax)
    requires
        table_result(table) is Ok,
        forall|i: int|
            0 <= i < table.elements.len() ==> holds_a_number(#[trigger] table.elements[i]),
    ensures
        holds(
            pack(with_trailing(table.written())),
            table.elements.map_values(|e: SyntaxElement| as_read(e)),
        ),
{
    law_first_element_without_a_code_decides(table);
    let read = Syntax { elements: table.elements.map_values(|e: SyntaxElement| as_read(e)) };
    reveal(Syntax::fits);
    reveal(Syntax::bits);
    reveal(Syntax::written);
    assert forall|i: int| 0 <= i < read.elements.len() implies (#[trigger] read.elements[i]).fits() by {
        let e = table.elements[i];
        assert(has_code(e) && holds_a_number(e));
        if let SyntaxElement::U { bits, value } = e {
            lemma_pow2_pos(bits as nat);
        }
    }
    lemma_same_codes(table.elements);
    law_bytes_hold_the_elements(read);
}

/// As [`law_bytes_hold_what_is_read`], of a synthesized NAL unit.
pub proof fn law_nalu_carries_what_is_read(nalu_type: NaluType, table: Syntax)
    requires
        table_result(table) is Ok,
        forall|i: int|
            0 <= i < table.elements.len() ==> holds_a_number(#[trigger] table.elements[i]),
    ensures
        carries(
            nalu_bytes(nalu_type, table, false),
            nalu_type.code(),
            table.elements.map_values(|e: SyntaxElement| as_read(e)),
        ),
{
    law_bytes_hold_what_is_read(table);
    let body = pack(with_trailing(table.written()));
    assert(nalu_bytes(nalu_type, table, false).skip(6) =~= body);
}

/// What is written of elements that have codes are these codes, and those of what is read.
proof fn lemma_same_codes(e: Seq<SyntaxElement>)
    requires
        forall|i: int|
            0 <= i < e.len() ==> holds_a_number(#[trigger] e[i]) && has_code(e[i]),
    ensures
        write_all(e).0 == concat_codes(e.map_values(|x: SyntaxElement| as_read(x))),
        write_all(e).1 is None,
    decreases e.len(),
{
    let read = e.map_values(|x: SyntaxElement| as_read(x));
    if e.len() > 0 {
        let front = e.drop_last();
        assert forall|i: int| 0 <= i < front.len() implies holds_a_number(#[trigger] front[i])
            && has_code(front[i]) by {
            assert(front[i] == e[i]);
        }
        lemma_same_codes(front);
        assert(read.drop_last() =~= front.map_values(|x: SyntaxElement| as_read(x)));
        assert(holds_a_number(e[e.len() - 1]) && has_code(e[e.len() - 1]));
        lemma_same_code(e.last());
        assert(read.last() == as_read(e.last()));
    }
}

proof fn lemma_same_code(e: SyntaxElement)
    requires
        holds_a_number(e),
    ensures
        as_read(e).code() == e.code(),
{
    if let SyntaxElement::U { bits, value } = e {
        let (n, v) = (bits as nat, value as nat);
        lemma_low_bits(n, v);
        lemma_code_u_len(n, v);
        lemma_code_of_value(code_u(n, v));
        lemma_pow2_pos(n);
    }
}

/// Whether `r` is the result for these elements: an error of the first that has no code, if there
/// is one.
pub open spec fn answers(list: Seq<SyntaxElement>, r: SynthesizerResult<()>) -> bool {
    &&& r is Ok <==> forall|i: int| 0 <= i < list.len() ==> has_code(#[trigger] list[i])
    &&& r matches Err(e) ==> exists|k: int|
        0 <= k < list.len() && !has_code(#[trigger] list[k]) && (forall|i: int|
            0 <= i < k ==> has_code(#[trigger] list[i])) && match list[k] {
            SyntaxElement::U { .. } => e == SynthesizerError::NaluWriter(
                NaluWriterError::InvalidBitCount,
            ),
            SyntaxElement::Ue { .. } => e == SynthesizerError::NaluWriter(
                NaluWriterError::Overflow,
            ),
            _ => e == SynthesizerError::Unsupported,
        }
}

/// What synthesizing a video parameter set answers, and that what it appends on success carries the
/// elements, of a value that is too large for its field the low bits.
pub proof fn law_vps_is_refused_or_carried(vps: &Vps)
    requires
        forall|i: int|
            0 <= i < vps_syntax(*vps).elements.len() ==> holds_a_number(
                #[trigger] vps_syntax(*vps).elements[i],
            ),
    ensures
        forall|out: &mut Vec<u8>, r: SynthesizerResult<()>| #[trigger]
            call_ensures(Synthesizer::<'_, Vps>::synthesize, (vps, out, false), r) ==> {
                let list = vps_syntax(*vps).elements;
                &&& answers(list, r)
                &&& final(out)@.take(out@.len() as int) == out@
                &&& r is Ok ==> carries(
                    final(out)@.skip(out@.len() as int),
                    NaluType::VpsNut.code(),
                    list.map_values(|e: SyntaxElement| as_read(e)),
                )
            },
{
    let table = vps_syntax(*vps);
    law_first_element_without_a_code_decides(table);
    if table_result(table) is Ok {
        law_nalu_carries_what_is_read(NaluType::VpsNut, table);
    }
    let data = nalu_bytes(NaluType::VpsNut, table, false);
    assert forall|before: Seq<u8>| #[trigger] (before + data).take(before.len() as int) == before by {
        assert((before + data).take(before.len() as int) =~= before);
    }
    assert forall|before: Seq<u8>| #[trigger] (before + data).skip(before.len() as int) == data by {
        assert((before + data).skip(before.len() as int) =~= data);
    }
}

/// What synthesizing a sequence parameter set answers, and that what it appends on success carries the
/// elements, of a value that is too large for its field the low bits.
pub proof fn law_sps_is_refused_or_carried(sps: &Sps)
    requires
        forall|i: int|
            0 <= i < sps_syntax(*sps).elements.len() ==> holds_a_number(
                #[trigger] sps_syntax(*sps).elements[i],
            ),
    ensures
        forall|out: &mut Vec<u8>, r: SynthesizerResult<()>| #[trigger]
            call_ensures(Synthesizer::<'_, Sps>::synthesize, (sps, out, false), r) ==> {
                let list = sps_syntax(*sps).elements;
                &&& answers(list, r)
                &&& final(out)@.take(out@.len() as int) == out@
                &&& r is Ok ==> carries(
                    final(out)@.skip(out@.len() as int),
                    NaluType::SpsNut.code(),
                    list.map_values(|e: SyntaxElement| as_read(e)),
                )
            },
{
    let table = sps_syntax(*sps);
    law_first_element_without_a_code_decides(table);
    if table_result(table) is Ok {
        law_nalu_carries_what_is_read(NaluType::SpsNut, table);
    }
    let data = nalu_bytes(NaluType::SpsNut, table, false);
    assert forall|before: Seq<u8>| #[trigger] (before + data).take(before.len() as int) == before by {
        assert((before + data).take(before.len() as int) =~= before);
    }
    assert forall|before: Seq<u8>| #[trigger] (before + data).skip(before.len() as int) == data by {
        assert((before + data).skip(before.len() as int) =~= data);
    }
}

/// What synthesizing a picture parameter set answers, and that what it appends on success carries the
/// elements, of a value that is too large for its field the low bits.
pub proof fn law_pps_is_refused_or_carried(pps: &Pps)
    requires
        forall|i: int|
            0 <= i < pps_syntax(*pps).elements.len() ==> holds_a_number(
                #[trigger] pps_syntax(*pps).elements[i],
            ),
    ensures
        forall|out: &mut Vec<u8>, r: SynthesizerResult<()>| #[trigger]
            call_ensures(Synthesizer::<'_, Pps>::synthesize, (pps, out, false), r) ==> {
                let list = pps_syntax(*pps).elements;
                &&& answers(list, r)
                &&& final(out)@.take(out@.len() as int) == out@
                &&& r is Ok ==> carries(
                    final(out)@.skip(out@.len() as int),
                    NaluType::PpsNut.code(),
                    list.map_values(|e: SyntaxElement| as_read(e)),
                )
            },
{
    let table = pps_syntax(*pps);
    law_first_element_without_a_code_decides(table);
    if table_result(table) is Ok {
        law_nalu_carries_what_is_read(NaluType::PpsNut, table);
    }
    let data = nalu_bytes(NaluType::PpsNut, table, false);
    assert forall|before: Seq<u8>| #[trigger] (before + data).take(before.len() as int) == before by {
        assert((before + data).take(before.len() as int) =~= before);
    }
    assert forall|before: Seq<u8>| #[trigger] (before + data).skip(before.len() as int) == data by {
        assert((before + data).skip(before.len() as int) =~= data);
    }
}

/// What synthesizing a slice segment header answers, and that what it appends on success carries the
/// elements, of a value that is too large for its field the low bits.
pub proof fn law_slice_header_is_refused_or_carried(
    nalu_type: NaluType,
    hdr: &SliceHeader,
    sps: &Sps,
    pps: &Pps,
)
    requires
        forall|i: int|
            0 <= i < slice_syntax(*hdr, nalu_type, *sps, *pps).elements.len() ==> holds_a_number(
                #[trigger] slice_syntax(*hdr, nalu_type, *sps, *pps).elements[i],
            ),
    ensures
        forall|out: &mut Vec<u8>, r: SynthesizerResult<()>| #[trigger]
            call_ensures(Synthesizer::<'_, SliceHeader>::synthesize, (nalu_type, hdr, sps, pps, out, false), r) ==> {
                let list = slice_syntax(*hdr, nalu_type, *sps, *pps).elements;
                &&& answers(list, r)
                &&& final(out)@.take(out@.len() as int) == out@
                &&& r is Ok ==> carries(
                    final(out)@.skip(out@.len() as int),
                    nalu_type.code(),
                    list.map_values(|e: SyntaxElement| as_read(e)),
                )
            },
{
    let table = slice_syntax(*hdr, nalu_type, *sps, *pps);
    law_first_element_without_a_code_decides(table);
    if table_result(table) is Ok {
        law_nalu_carries_what_is_read(nalu_type, table);
    }
    let data = nalu_bytes(nalu_type, table, false);
    assert forall|before: Seq<u8>| #[trigger] (before + data).take(before.len() as int) == before by {
        assert((before + data).take(before.len() as int) =~= before);
    }
    assert forall|before: Seq<u8>| #[trigger] (before + data).skip(before.len() as int) == data by {
        assert((before + data).skip(before.len() as int) =~= data);
    }
}

} // verus!
