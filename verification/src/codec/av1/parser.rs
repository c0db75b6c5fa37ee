//! The AV1 parser: OBUs, and the sequence header in one.

use crate::bits::{
    bits_of, lemma_bits_of_pack, lemma_code_u_len, lemma_pow2_monotone, lemma_pow2_values,
    lemma_with_trailing, with_trailing,
};
use crate::codec::av1::leb128::{law_leb128_round_trip, leb128, leb128_value, read_leb128};
use crate::codec::av1::sequence::{parse_sequence_header, sequence_same};
use crate::codec::av1::synthesizer::{obu_bytes, obu_payload};
use crate::codec::av1::tables::{
    color_config_syntax, color_head_syntax, color_tail_syntax, seq_filter_syntax, seq_frame_syntax,
    seq_general_syntax, seq_inter_syntax, seq_screen_syntax, sequence_header_syntax,
};
use crate::codec::av1::types::{ObuType, SequenceHeaderObu};
use crate::codec::bit_reader::BitReader;
use crate::shared::share;
use crate::syntax::{group_len, lemma_bits_len, lemma_written_fits, Syntax};
use std::rc::Rc;
use vstd::prelude::*;

verus! {

/// Why an OBU could not be read or parsed.
#[derive(Clone, Copy, Debug, PartialEq, Eq, Structural)]
pub enum ObuError {
    /// The data end before the OBU does.
    TooShort,
    /// The forbidden bit is set.
    InvalidHeader,
    /// The payload is not that of a sequence header that the parser reads.
    Invalid,
    /// The payload has more bits than can be counted.
    TooLong,
}

/// An OBU: its type and its payload.
#[derive(Clone, Debug, PartialEq, Eq)]
pub struct Obu {
    pub obu_type: ObuType,
    pub payload: Vec<u8>,
}

/// What to do with the OBU at the start of the data.
#[derive(Clone, Debug, PartialEq, Eq)]
pub enum ObuAction {
    /// The OBU is to be parsed.
    Process(Obu),
    /// The OBU is of a reserved type: this number of bytes is to be skipped.
    Drop(usize),
}

/// A parsed OBU.
#[derive(Clone, Debug, PartialEq, Eq)]
pub enum ParsedObu {
    SequenceHeader(Rc<SequenceHeaderObu>),
    /// An OBU of another type, which is not parsed.
    Other(ObuType),
}

impl ParsedObu {
    /// The type of the OBU.
    pub fn obu_type(&self) -> (t: ObuType)
        ensures
            t == match *self {
                ParsedObu::SequenceHeader(_) => ObuType::SequenceHeader,
                ParsedObu::Other(t) => t,
            },
    {
        match self {
            ParsedObu::SequenceHeader(_) => ObuType::SequenceHeader,
            ParsedObu::Other(t) => *t,
        }
    }
}

/// The OBU type with code `v`.
pub open spec fn spec_obu_type(v: u8) -> Option<ObuType> {
    if exists|t: ObuType| #[trigger] t.code() == v {
        Some(choose|t: ObuType| #[trigger] t.code() == v)
    } else {
        None
    }
}

/// No two OBU types have the same code.
proof fn lemma_obu_type_codes(v: u8)
    ensures
        forall|t: ObuType| #[trigger] t.code() == v ==> spec_obu_type(v) == Some(t),
        (forall|t: ObuType| #[trigger] t.code() != v) ==> spec_obu_type(v) is None,
{
    assert forall|t: ObuType, u: ObuType| #[trigger] t.code() == v && #[trigger] u.code() == v
        implies t == u by {
    }
}

/// Where the payload of the OBU at the start of `data` lies (5.3.1).
pub open spec fn obu_range(data: Seq<u8>) -> Result<(int, int), ObuError> {
    if data.len() == 0 {
        Err(ObuError::TooShort)
    } else if data[0] >= 128 {
        Err(ObuError::InvalidHeader)
    } else {
        let after_header: int = if (data[0] / 4) % 2 == 1 { 2 } else { 1 };
        if data.len() < after_header {
            Err(ObuError::TooShort)
        } else if (data[0] / 2) % 2 == 0 {
            Ok((after_header, data.len() as int))
        } else {
            match leb128_value(data.skip(after_header), 8) {
                None => Err(ObuError::TooShort),
                Some((size, n)) => if after_header + n + size > data.len() {
                    Err(ObuError::TooShort)
                } else {
                    Ok((after_header + n, after_header + n + size))
                },
            }
        }
    }
}

/// Whether `r` is what a payload parses as: a sequence header whose table its bits start
/// with. Where they start with the table of a sequence header that can be written in full
/// and is consistent, that one is recovered, field for field as far as it is coded.
pub open spec fn sequence_parsed(payload: Seq<u8>, r: Option<SequenceHeaderObu>) -> bool {
    &&& r matches Some(p) ==> {
        &&& p.inferred()
        &&& sequence_header_syntax(p).fits()
        &&& exists|rest: Seq<bool>| bits_of(payload) == #[trigger] sequence_header_syntax(p).onto(rest)
    }
    &&& forall|v: SequenceHeaderObu, rest: Seq<bool>|
        bits_of(payload) == #[trigger] sequence_header_syntax(v).onto(rest)
            && sequence_header_syntax(v).fits()
            && v.inferred() ==> {
            &&& r is Some
            &&& sequence_same(r->0, v)
            &&& bits_of(payload) == sequence_header_syntax(r->0).onto(rest)
        }
}

/// The AV1 parser.
pub struct Parser {
    sequence_header: Option<Rc<SequenceHeaderObu>>,
}

impl Default for Parser {
    fn default() -> (p: Self)
        ensures
            p.sequence() is None,
    {
        Parser { sequence_header: None }
    }
}

impl Parser {
    /// The active sequence header.
    pub closed spec fn sequence(&self) -> Option<Rc<SequenceHeaderObu>> {
        self.sequence_header
    }

    /// Reads the OBU at the start of `data`.
    pub fn read_obu(&self, data: &[u8]) -> (r: Result<ObuAction, ObuError>)
        ensures
            match obu_range(data@) {
                Err(e) => r == Err::<ObuAction, ObuError>(e),
                Ok((begin, end)) => match spec_obu_type((data@[0] / 8) % 16) {
                    Some(t) => r matches Ok(ObuAction::Process(obu)) && obu.obu_type == t
                        && obu.payload@
                        == data@.subrange(begin, end),
                    None => r matches Ok(ObuAction::Drop(n)) && n == end,
                },
            },
    {
        if data.len() == 0 {
            return Err(ObuError::TooShort);
        }
        let first: u8 = data[0];
        if first >= 128 {
            return Err(ObuError::InvalidHeader);
        }
        let after_header: usize = if (first / 4) % 2 == 1 {
            2
        } else {
            1
        };
        if data.len() < after_header {
            return Err(ObuError::TooShort);
        }
        let mut begin: usize = after_header;
        let mut end: usize = data.len();
        if (first / 2) % 2 == 1 {
            match read_leb128(data, after_header, 8) {
                None => return Err(ObuError::TooShort),
                Some((size, n)) => {
                    begin = after_header + n;
                    if size > (data.len() - begin) as u64 {
                        return Err(ObuError::TooShort);
                    }
                    end = begin + size as usize;
                },
            }
        }
        proof {
            lemma_obu_type_codes((first / 8) % 16);
        }
        match ObuType::from_u8((first / 8) % 16) {
            Some(obu_type) => Ok(ObuAction::Process(Obu { obu_type, payload: copy_range(data, begin, end) })),
            None => Ok(ObuAction::Drop(end)),
        }
    }

    /// Parses an OBU. A sequence header becomes the active one.
    pub fn parse_obu(&mut self, obu: Obu) -> (r: Result<ParsedObu, ObuError>)
        ensures
            if obu.obu_type != ObuType::SequenceHeader {
                &&& r == Ok::<ParsedObu, ObuError>(ParsedObu::Other(obu.obu_type))
                &&& final(self).sequence() == old(self).sequence()
            } else if 8 * obu.payload@.len() > usize::MAX {
                &&& r == Err::<ParsedObu, ObuError>(ObuError::TooLong)
                &&& final(self).sequence() == old(self).sequence()
            } else {
                match r {
                    Ok(parsed) => {
                        &&& parsed matches ParsedObu::SequenceHeader(s)
                            && sequence_parsed(obu.payload@, Some(*s))
                            && final(self).sequence() == Some(s)
                    },
                    Err(e) => {
                        &&& e == ObuError::Invalid
                        &&& sequence_parsed(obu.payload@, None)
                        &&& final(self).sequence() == old(self).sequence()
                    },
                }
            },
    {
        if obu.obu_type != ObuType::SequenceHeader {
            return Ok(ParsedObu::Other(obu.obu_type));
        }
        if obu.payload.len() > usize::MAX / 8 {
            return Err(ObuError::TooLong);
        }
        let mut r = BitReader::new(obu.payload);
        let p = parse_sequence_header(&mut r);
        if r.failed() {
            return Err(ObuError::Invalid);
        }
        let rc = Rc::new(p);
        self.sequence_header = Some(share(&rc));
        Ok(ParsedObu::SequenceHeader(rc))
    }
}

/// The bytes `start..end` of `data`.
fn copy_range(data: &[u8], start: usize, end: usize) -> (out: Vec<u8>)
    requires
        start <= end <= data@.len(),
    ensures
        out@ == data@.subrange(start as int, end as int),
{
    let mut out: Vec<u8> = Vec::new();
    let mut i: usize = start;
    while i < end
        invariant
            start <= i <= end <= data@.len(),
            out@ =~= data@.subrange(start as int, i as int),
        decreases end - i,
    {
        out.push(data[i]);
        i = i + 1;
    }
    out
}

/// The payload of a sequence header is short.
proof fn lemma_payload_len(seq: SequenceHeaderObu)
    requires
        sequence_header_syntax(seq).fits(),
    ensures
        obu_payload(sequence_header_syntax(seq)).len() <= 0xffff,
{
    broadcast use group_len;

    let table = sequence_header_syntax(seq);
    let c = seq.color_config;
    let profile = seq.seq_profile;
    assert(seq_general_syntax(seq).elements.len() <= 9) by {
        reveal(seq_general_syntax);
    }
    assert(seq_frame_syntax(seq).elements.len() <= 9) by {
        reveal(seq_frame_syntax);
    }
    assert(seq_inter_syntax(seq).elements.len() <= 9) by {
        reveal(seq_inter_syntax);
    }
    assert(seq_screen_syntax(seq).elements.len() <= 9) by {
        reveal(seq_screen_syntax);
    }
    assert(seq_filter_syntax(seq).elements.len() <= 9) by {
        reveal(seq_filter_syntax);
    }
    assert(color_head_syntax(c, profile).elements.len() <= 9) by {
        reveal(color_head_syntax);
    }
    assert(color_tail_syntax(c, profile).elements.len() <= 9) by {
        reveal(color_tail_syntax);
    }
    reveal(sequence_header_syntax);
    reveal(color_config_syntax);
    assert(table.elements.len() <= 100);
    lemma_written_fits(table);
    lemma_bits_len(table);
    let n = table.bits().len() + 1;
    lemma_code_u_len(((8 - n % 8) % 8) as nat, 0);
}

/// The payload of a sequence header starts with the bits of its table.
pub proof fn lemma_synthesized_payload(seq: SequenceHeaderObu)
    requires
        sequence_header_syntax(seq).fits(),
    ensures
        ({
            let table = sequence_header_syntax(seq);
            bits_of(obu_payload(table)) == table.onto(
                with_trailing(table.bits()).skip(table.bits().len() as int),
            )
        }),
{
    let table = sequence_header_syntax(seq);
    let bits = table.bits();
    lemma_written_fits(table);
    lemma_with_trailing(bits);
    lemma_bits_of_pack(with_trailing(bits));
    reveal(Syntax::onto);
    assert(bits + with_trailing(bits).skip(bits.len() as int) =~= with_trailing(bits));
}

/// A synthesized sequence header is read and parsed again, field for field; and what was
/// parsed is synthesized to the same bytes.
pub proof fn law_sequence_header_round_trip(seq: SequenceHeaderObu)
    requires
        seq.inferred(),
        sequence_header_syntax(seq).fits(),
    ensures
        ({
            let data = obu_bytes(ObuType::SequenceHeader, sequence_header_syntax(seq));
            &&& sequence_header_syntax(seq).failure() is None
            &&& spec_obu_type((data[0] / 8) % 16) == Some(ObuType::SequenceHeader)
            &&& obu_range(data) matches Ok(range) && range.1 == data.len()
                && forall|r: Option<SequenceHeaderObu>|
                #[trigger] sequence_parsed(data.subrange(range.0, range.1), r) ==> {
                    &&& r is Some
                    &&& sequence_same(r->0, seq)
                    &&& obu_bytes(ObuType::SequenceHeader, sequence_header_syntax(r->0)) == data
                }
        }),
{
    let table = sequence_header_syntax(seq);
    let payload = obu_payload(table);
    let size = leb128(payload.len());
    let data = obu_bytes(ObuType::SequenceHeader, table);
    lemma_written_fits(table);
    lemma_payload_len(seq);
    assert(data[0] == 10);
    lemma_obu_type_codes(1);
    lemma_pow2_values();
    lemma_pow2_monotone(32, 56);
    law_leb128_round_trip(payload.len(), payload, 8);
    assert(data.skip(1) =~= size + payload);
    assert(data.subrange(1 + size.len() as int, data.len() as int) =~= payload);
    let bits = table.bits();
    let rest = with_trailing(bits).skip(bits.len() as int);
    lemma_synthesized_payload(seq);
    reveal(Syntax::onto);
    assert forall|r: Option<SequenceHeaderObu>| #[trigger] sequence_parsed(payload, r)
        implies r is Some
        && sequence_same(r->0, seq)
            && obu_bytes(ObuType::SequenceHeader, sequence_header_syntax(r->0)) == data by {
        let other = sequence_header_syntax(r->0);
        lemma_written_fits(other);
        assert(other.bits() =~= (other.bits() + rest).take(other.bits().len() as int));
        assert((other.bits() + rest).len() == (bits + rest).len());
        assert(bits =~= (bits + rest).take(bits.len() as int));
    }
}

} // verus!
