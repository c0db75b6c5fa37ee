//! What is read from a stream of OBUs, in terms of its bytes and of what is coded in them.

use crate::codec::av1::leb128::{leb128, leb128_value};
use crate::codec::av1::parser::{spec_obu_type, Obu, ObuAction, ObuError, ParsedObu, Parser};
use crate::codec::av1::synthesizer::{obu_payload, Synthesizer, SynthesizerResult};
use crate::codec::av1::tables::sequence_header_syntax;
use crate::codec::av1::types::{
    BitDepth, ColorPrimaries, MatrixCoefficients, ObuType, Profile, SequenceHeaderObu,
    TransferCharacteristics,
};
use crate::codec::h265::synthesizer::table_result;
use crate::codec::h265::writing::{
    as_read, has_code, holds_a_number, law_bytes_hold_what_is_read,
    law_first_element_without_a_code_decides,
};
use crate::codec::nalu_writer::NaluWriterError;
use crate::reading::{holds, lemma_was_read, was_read};
use crate::syntax::SyntaxElement;
use std::rc::Rc;
use vstd::prelude::*;

verus! {

/// The length of the header at the start of `data`: one byte, and another one where the extension
/// bit, the third from the right, is set.
pub open spec fn header_length(data: Seq<u8>) -> int {
    if data[0] % 8 >= 4 {
        2
    } else {
        1
    }
}

/// Whether the payload of the OBU at the start of `data` is `payload`: all that follows the
/// header, or as many bytes as the number behind the header says, where the second bit from the
/// right is set.
pub open spec fn payload_is(data: Seq<u8>, payload: Seq<u8>) -> bool {
    let rest = data.skip(header_length(data));
    if data[0] % 4 < 2 {
        payload == rest
    } else {
        leb128_value(rest, 8) matches Some((size, n)) && payload.len() == size && n + size
            <= rest.len() && payload == rest.subrange(n as int, (n + size) as int)
    }
}

/// An OBU is read by its header: a zero bit, four bits of the type, the bits that tell of an
/// extension and of a size, and a reserved bit.
pub proof fn law_obu_is_read(parser: &Parser, data: &[u8], obu: Obu)
    requires
        call_ensures(
            Parser::read_obu,
            (parser, data),
            Ok::<ObuAction, ObuError>(ObuAction::Process(obu)),
        ),
    ensures
        data@.len() > 0,
        obu.obu_type.code() < 16,
        8 * obu.obu_type.code() <= data@[0] < 8 * obu.obu_type.code() + 8,
        payload_is(data@, obu.payload@),
{
    let first = data@[0];
    assert(spec_obu_type((first / 8) % 16) == Some(obu.obu_type));
    let t = obu.obu_type;
    assert(t.code() == (first / 8) % 16);
    let rest = data@.skip(header_length(data@));
    if first % 4 < 2 {
        assert(obu.payload@ =~= rest);
    } else {
        assert(leb128_value(rest, 8) is Some);
        let (size, n) = leb128_value(rest, 8)->0;
        assert(obu.payload@ =~= rest.subrange(n as int, (n + size) as int));
    }
}

/// An OBU is skipped where its type has no name: its header, its size and its payload.
pub proof fn law_obu_is_skipped(parser: &Parser, data: &[u8], n: usize)
    requires
        call_ensures(
            Parser::read_obu,
            (parser, data),
            Ok::<ObuAction, ObuError>(ObuAction::Drop(n)),
        ),
    ensures
        data@.len() > 0,
        data@[0] < 128,
        forall|t: ObuType| #[trigger] t.code() != data@[0] / 8,
        n <= data@.len(),
        data@[0] % 4 < 2 ==> n == data@.len(),
        data@[0] % 4 >= 2 ==> (leb128_value(data@.skip(header_length(data@)), 8) matches Some(
            (size, k),
        ) && n == header_length(data@) + k + size),
{
    let first = data@[0];
    assert((first / 8) % 16 == first / 8);
}

/// No OBU is read from no data, from a header whose first bit is set, and from data that end before
/// the OBU does.
pub proof fn law_obu_is_refused(parser: &Parser, data: &[u8], e: ObuError)
    requires
        call_ensures(Parser::read_obu, (parser, data), Err::<ObuAction, ObuError>(e)),
    ensures
        e == ObuError::InvalidHeader <==> data@.len() > 0 && data@[0] >= 128,
        e != ObuError::InvalidHeader ==> e == ObuError::TooShort && {
            ||| data@.len() == 0
            ||| data@.len() < header_length(data@)
            ||| data@[0] % 4 >= 2 && match leb128_value(data@.skip(header_length(data@)), 8) {
                None => true,
                Some((size, n)) => header_length(data@) + n + size > data@.len(),
            }
        },
{
}

/// A number in groups of seven bits, the lowest first: a byte holds one group, and its highest bit
/// tells whether another one follows.
pub proof fn law_leb128_value(s: Seq<u8>, groups: nat, v: nat, n: nat)
    requires
        leb128_value(s, groups) == Some((v, n)),
    ensures
        1 <= n <= s.len(),
        n <= groups,
        s[n - 1] < 128,
        forall|i: int| 0 <= i < n - 1 ==> #[trigger] s[i] >= 128,
        v % 128 == s[0] % 128,
        n == 1 ==> v < 128,
        n > 1 ==> leb128_value(s.skip(1), (groups - 1) as nat) == Some((v / 128, (n - 1) as nat)),
    decreases groups,
{
    if s[0] >= 128 {
        let (w, m) = leb128_value(s.skip(1), (groups - 1) as nat)->0;
        law_leb128_value(s.skip(1), (groups - 1) as nat, w, m);
        assert(s.skip(1)[n - 2] == s[n - 1]);
        assert forall|i: int| 0 <= i < n - 1 implies #[trigger] s[i] >= 128 by {
            if i > 0 {
                assert(s.skip(1)[i - 1] == s[i]);
            }
        }
    }
}

/// The elements of a sequence header stand in the payload that it was parsed from. Its bit depth
/// is eight without the flag for more; otherwise ten, or twelve where the second profile says so.
/// What is not coded of the colours is unspecified, and of the sampling goes by the profile: 4:2:0
/// for the main one, 4:4:4 for the high one, 4:2:2 for the professional one of at most ten bits.
pub proof fn law_parsed_sequence_header(obu: Obu, s: Rc<SequenceHeaderObu>)
    ensures
        forall|parser: &mut Parser|
            #[trigger] call_ensures(
                Parser::parse_obu,
                (parser, obu),
                Ok::<ParsedObu, ObuError>(ParsedObu::SequenceHeader(s)),
            ) ==> {
                let c = s.color_config;
                &&& obu.obu_type == ObuType::SequenceHeader
                &&& final(parser).sequence() == Some(s)
                &&& was_read(obu.payload@, sequence_header_syntax(*s).elements)
                &&& s.bit_depth == BitDepth::Depth8 <==> !c.high_bitdepth
                &&& s.bit_depth == BitDepth::Depth12 <==> c.high_bitdepth && c.twelve_bit
                &&& c.twelve_bit ==> c.high_bitdepth && s.seq_profile == Profile::Profile2
                &&& s.seq_profile == Profile::Profile1 ==> !c.mono_chrome
                &&& !c.color_description_present_flag ==> {
                    &&& c.color_primaries == ColorPrimaries::Unspecified
                    &&& c.transfer_characteristics == TransferCharacteristics::Unspecified
                    &&& c.matrix_coefficients == MatrixCoefficients::Unspecified
                }
                &&& !c.mono_chrome && c.color_primaries != ColorPrimaries::Bt709 ==> {
                    &&& s.seq_profile == Profile::Profile0 ==> c.subsampling_x && c.subsampling_y
                    &&& s.seq_profile == Profile::Profile1 ==> !c.subsampling_x && !c.subsampling_y
                    &&& s.seq_profile == Profile::Profile2 && !c.twelve_bit ==> c.subsampling_x
                        && !c.subsampling_y
                }
            },
{
    assert forall|parser: &mut Parser|
        #[trigger] call_ensures(
            Parser::parse_obu,
            (parser, obu),
            Ok::<ParsedObu, ObuError>(ParsedObu::SequenceHeader(s)),
        ) implies was_read(obu.payload@, sequence_header_syntax(*s).elements) by {
        lemma_was_read(obu.payload@, sequence_header_syntax(*s));
    }
}

/// A sequence header is refused, and nothing is appended, where a field of it is wider than 32
/// bits. Otherwise the payload holds its elements, of a value that is too large the low bits.
pub proof fn law_sequence_header_is_refused_or_held(obu: &SequenceHeaderObu)
    requires
        forall|i: int|
            0 <= i < sequence_header_syntax(*obu).elements.len() ==> holds_a_number(
                #[trigger] sequence_header_syntax(*obu).elements[i],
            ),
    ensures
        forall|out: &mut Vec<u8>, r: SynthesizerResult<()>| #[trigger]
            call_ensures(Synthesizer::<'_, SequenceHeaderObu>::synthesize, (obu, out), r) ==> {
                let list = sequence_header_syntax(*obu).elements;
                let payload = obu_payload(sequence_header_syntax(*obu));
                &&& r is Ok <==> forall|i: int| 0 <= i < list.len() ==> has_code(#[trigger] list[i])
                &&& r matches Err(e) ==> {
                    &&& e == NaluWriterError::InvalidBitCount
                    &&& final(out)@ == out@
                }
                &&& r is Ok ==> {
                    &&& final(out)@ == out@ + (seq![0x0au8] + leb128(payload.len()) + payload)
                    &&& holds(payload, list.map_values(|e: SyntaxElement| as_read(e)))
                }
            },
{
    let table = sequence_header_syntax(*obu);
    law_first_element_without_a_code_decides(table);
    if table_result(table) is Ok {
        law_bytes_hold_what_is_read(table);
    }
}

} // verus!
