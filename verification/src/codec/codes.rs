//! What a writer appends and a reader takes, as a decoder sees it.

use crate::bits::{lemma_pow2_values, pack, pow2};
use crate::codec::bit_reader::BitReader;
use crate::codec::emulation::escape;
use crate::codec::h265::writing::law_field_holds_the_low_bits;
use crate::codec::nalu_writer::{NaluWriter, NaluWriterError};
use crate::reading::{
    bit_string, lemma_bit_string, lemma_bits_are_the_bit_string, lemma_element_is_read, number, read,
};
use crate::syntax::{
    guard, lemma_read_flag, lemma_read_se, lemma_read_u, lemma_read_ue, SyntaxElement,
};
use vstd::prelude::*;

verus! {

/// The header of an H.265 NAL unit: a start code of four bytes, and two bytes of a zero bit, six
/// bits of the type, six of the layer and three of the temporal sub-layer.
pub proof fn law_header_is_written(nalu_type: u8, layer_id: u8, temporal_id_plus1: u8)
    requires
        nalu_type < 64,
        layer_id < 64,
        temporal_id_plus1 < 8,
    ensures
        forall|w: &mut NaluWriter|
            #[trigger] call_ensures(
                NaluWriter::write_header_hevc,
                (w, nalu_type, layer_id, temporal_id_plus1),
                (),
            ) ==> {
                let (before, after) = (w.head(), final(w).head());
                let n = before.len() as int;
                &&& after.len() == n + 6
                &&& after.take(n) == before
                &&& after[n] == 0 && after[n + 1] == 0 && after[n + 2] == 0 && after[n + 3] == 1
                &&& 256 * after[n + 4] + after[n + 5] == 512 * nalu_type + 8 * layer_id
                    + temporal_id_plus1
                &&& final(w).bits() == w.bits()
                &&& final(w).ep_enabled() == w.ep_enabled()
            },
{
    assert forall|w: &mut NaluWriter|
        #[trigger] call_ensures(
            NaluWriter::write_header_hevc,
            (w, nalu_type, layer_id, temporal_id_plus1),
            (),
        ) implies final(w).head().take(w.head().len() as int) == w.head() by {
        assert(final(w).head().take(w.head().len() as int) =~= w.head());
    }
}

/// A fixed-length field is appended as the low bits of its value. More than 32 bits are refused,
/// and nothing is written.
pub proof fn law_field_is_written(bits: usize, value: u32, r: Result<(), NaluWriterError>)
    ensures
        forall|w: &mut NaluWriter|
            #[trigger] call_ensures(NaluWriter::write_f, (w, bits, value), r) ==> {
                let (before, after) = (w.bits(), final(w).bits());
                &&& r is Ok <==> bits <= 32
                &&& r matches Err(e) ==> e == NaluWriterError::InvalidBitCount && after == before
                &&& r is Ok ==> {
                    &&& after.len() == before.len() + bits
                    &&& after.take(before.len() as int) == before
                    &&& number(after.skip(before.len() as int)) == value as nat % pow2(bits as nat)
                }
            },
        forall|w: &mut NaluWriter|
            #[trigger] call_ensures(NaluWriter::write_u, (w, bits, value), r) ==> {
                let (before, after) = (w.bits(), final(w).bits());
                &&& r is Ok <==> bits <= 32
                &&& r matches Err(e) ==> e == NaluWriterError::InvalidBitCount && after == before
                &&& r is Ok ==> {
                    &&& after.len() == before.len() + bits
                    &&& after.take(before.len() as int) == before
                    &&& number(after.skip(before.len() as int)) == value as nat % pow2(bits as nat)
                }
            },
{
    law_field_holds_the_low_bits(bits as nat, value as nat);
    let code = (SyntaxElement::U { bits: bits as int, value: value as int }).code();
    assert forall|before: Seq<bool>| #[trigger] (before + code).take(before.len() as int) == before by {
        assert((before + code).take(before.len() as int) =~= before);
    }
    assert forall|before: Seq<bool>| #[trigger] (before + code).skip(before.len() as int) == code by {
        assert((before + code).skip(before.len() as int) =~= code);
    }
}

/// An unsigned Exp-Golomb code is read as its value, whatever follows it. The largest number of 32
/// bits is refused, and nothing is written.
pub proof fn law_unsigned_number_is_written(
    value: u32,
    r: Result<(), NaluWriterError>,
    rest: Seq<bool>,
)
    ensures
        forall|w: &mut NaluWriter|
            #[trigger] call_ensures(NaluWriter::write_ue, (w, value), r) ==> {
                let (before, after) = (w.bits(), final(w).bits());
                &&& r is Ok <==> value < 4_294_967_295
                &&& r matches Err(e) ==> e == NaluWriterError::Overflow && after == before
                &&& r is Ok ==> {
                    &&& after.len() >= before.len()
                    &&& after.take(before.len() as int) == before
                    &&& read(
                        after.skip(before.len() as int) + rest,
                        SyntaxElement::Ue { value: value as int },
                    ) == Some(rest)
                }
            },
{
    let e = SyntaxElement::Ue { value: value as int };
    if value < u32::MAX {
        lemma_element_is_read(e, rest);
    }
    let code = e.code();
    assert forall|before: Seq<bool>| #[trigger] (before + code).take(before.len() as int) == before by {
        assert((before + code).take(before.len() as int) =~= before);
    }
    assert forall|before: Seq<bool>| #[trigger] (before + code).skip(before.len() as int) == code by {
        assert((before + code).skip(before.len() as int) =~= code);
    }
}

/// A signed Exp-Golomb code is read as its value, whatever follows it.
pub proof fn law_signed_number_is_written(
    value: i32,
    r: Result<(), NaluWriterError>,
    rest: Seq<bool>,
)
    requires
        value > i32::MIN,
    ensures
        forall|w: &mut NaluWriter|
            #[trigger] call_ensures(NaluWriter::write_se, (w, value), r) ==> {
                let (before, after) = (w.bits(), final(w).bits());
                &&& r is Ok
                &&& after.len() >= before.len()
                &&& after.take(before.len() as int) == before
                &&& read(
                    after.skip(before.len() as int) + rest,
                    SyntaxElement::Se { value: value as int },
                ) == Some(rest)
            },
{
    let e = SyntaxElement::Se { value: value as int };
    lemma_element_is_read(e, rest);
    let code = e.code();
    assert forall|before: Seq<bool>| #[trigger] (before + code).take(before.len() as int) == before by {
        assert((before + code).take(before.len() as int) =~= before);
    }
    assert forall|before: Seq<bool>| #[trigger] (before + code).skip(before.len() as int) == code by {
        assert((before + code).skip(before.len() as int) =~= code);
    }
}

/// The bytes of a writer are its headers, and its bits in whole bytes, the first bit of the
/// highest weight; with emulation prevention these are escaped.
pub proof fn law_bytes_are_written(w: NaluWriter, out: Vec<u8>)
    requires
        call_ensures(NaluWriter::into_bytes, (w,), out),
        w.bits().len() % 8 == 0,
    ensures
        exists|body: Seq<u8>| #[trigger]
            bit_string(body) == w.bits() && out@ == w.head() + if w.ep_enabled() {
                escape(body)
            } else {
                body
            },
{
    lemma_bit_string(w.bits());
    assert(bit_string(pack(w.bits())) == w.bits());
}

/// What a reader takes as a number of `n` bits, as a flag, and as the numbers of an Exp-Golomb
/// code is what a decoder reads there; the reader goes on behind it.
pub proof fn law_numbers_are_taken(n: usize, value: u32, max: u32)
    ensures
        forall|r: &mut BitReader|
            #[trigger] call_ensures(BitReader::u, (r, n), value) && final(r)@ is Some ==> r@ is Some
                && read(r@->0, SyntaxElement::U { bits: n as int, value: value as int })
                == final(r)@,
        forall|r: &mut BitReader|
            #[trigger] call_ensures(BitReader::ue, (r, max), value) && final(r)@ is Some ==> value
                <= max && r@ is Some && read(r@->0, SyntaxElement::Ue { value: value as int })
                == final(r)@,
{
    assert forall|r: &mut BitReader|
        #[trigger] call_ensures(BitReader::u, (r, n), value) && final(r)@ is Some implies r@ is Some
        && read(r@->0, SyntaxElement::U { bits: n as int, value: value as int }) == final(r)@ by {
        let e = SyntaxElement::U { bits: n as int, value: value as int };
        lemma_read_u(r@, n as int);
        reveal(SyntaxElement::onto);
        lemma_element_is_read(e, final(r)@->0);
    }
    assert forall|r: &mut BitReader|
        #[trigger] call_ensures(BitReader::ue, (r, max), value) && final(r)@ is Some implies value
        <= max && r@ is Some && read(r@->0, SyntaxElement::Ue { value: value as int })
        == final(r)@ by {
        let e = SyntaxElement::Ue { value: value as int };
        lemma_read_ue(r@, max as int);
        reveal(SyntaxElement::onto);
        lemma_element_is_read(e, final(r)@->0);
    }
}

/// As [`law_numbers_are_taken`], of a flag, which is a bit, and of a signed number.
pub proof fn law_flags_and_signed_numbers_are_taken(set: bool, min: i32, max: i32, value: i32)
    requires
        min <= 0 <= max,
    ensures
        forall|r: &mut BitReader|
            #[trigger] call_ensures(BitReader::flag, (r,), set) && final(r)@ is Some ==> {
                let bits = r@->0;
                &&& r@ is Some
                &&& bits.len() > 0
                &&& bits[0] == set
                &&& final(r)@ == Some(bits.skip(1))
            },
        forall|r: &mut BitReader|
            #[trigger] call_ensures(BitReader::se, (r, min, max), value) && final(r)@ is Some
                ==> min <= value <= max && r@ is Some && read(
                r@->0,
                SyntaxElement::Se { value: value as int },
            ) == final(r)@,
{
    assert forall|r: &mut BitReader|
        #[trigger] call_ensures(BitReader::flag, (r,), set) && final(r)@ is Some implies {
        let bits = r@->0;
        &&& r@ is Some
        &&& bits.len() > 0
        &&& bits[0] == set
        &&& final(r)@ == Some(bits.skip(1))
    } by {
        let e = SyntaxElement::U { bits: 1, value: if set { 1 } else { 0 } };
        lemma_read_flag(r@);
        reveal(SyntaxElement::onto);
        lemma_element_is_read(e, final(r)@->0);
        let bits = r@->0;
        reveal_with_fuel(number, 2);
        assert(bits.take(1)[0] == bits[0]);
        assert(bits.take(1).skip(1) =~= Seq::<bool>::empty());
        assert(bits.take(1).drop_last() =~= Seq::<bool>::empty());
        lemma_pow2_values();
    }
    assert forall|r: &mut BitReader|
        #[trigger] call_ensures(BitReader::se, (r, min, max), value) && final(r)@ is Some implies min
        <= value <= max && r@ is Some && read(r@->0, SyntaxElement::Se { value: value as int })
        == final(r)@ by {
        let e = SyntaxElement::Se { value: value as int };
        lemma_read_se(r@, min as int, max as int);
        reveal(SyntaxElement::onto);
        lemma_element_is_read(e, final(r)@->0);
    }
}

/// A writer starts empty; a bit is appended as it is; and the bits fill whole bytes where their
/// number is a multiple of eight.
pub proof fn law_bits_are_written(ep_enabled: bool, bit: bool, full: bool)
    ensures
        forall|w: NaluWriter| #[trigger]
            call_ensures(NaluWriter::new, (ep_enabled,), w) ==> {
                &&& w.head().len() == 0
                &&& w.bits().len() == 0
                &&& w.ep_enabled() == ep_enabled
            },
        forall|w: &mut NaluWriter| #[trigger]
            call_ensures(NaluWriter::write_bit, (w, bit), ()) ==> {
                let (before, after) = (w.bits(), final(w).bits());
                &&& after.len() == before.len() + 1
                &&& after.drop_last() == before
                &&& after.last() == bit
                &&& final(w).head() == w.head()
                &&& final(w).ep_enabled() == w.ep_enabled()
            },
        forall|w: &NaluWriter| #[trigger]
            call_ensures(NaluWriter::aligned, (w,), full) ==> (full <==> exists|k: int|
                w.bits().len() == #[trigger] (8 * k)),
{
    assert forall|w: &mut NaluWriter| #[trigger]
        call_ensures(NaluWriter::write_bit, (w, bit), ()) implies final(w).bits().drop_last()
        == w.bits() by {
        assert(final(w).bits().drop_last() =~= w.bits());
    }
    assert forall|w: &NaluWriter| #[trigger]
        call_ensures(NaluWriter::aligned, (w,), full) && full implies exists|k: int|
        w.bits().len() == #[trigger] (8 * k) by {
        let k = w.bits().len() as int / 8;
        assert(w.bits().len() == 8 * k);
    }
}

/// A reader starts with all bits of its bytes, of each the one of the highest weight first; and
/// fails for good where a condition does not hold.
pub proof fn law_reader_starts_with_all_bits(data: Vec<u8>, r: BitReader)
    requires
        call_ensures(BitReader::new, (data,), r),
    ensures
        r@ == Some(bit_string(data@)),
        forall|x: &BitReader, failed: bool| #[trigger]
            call_ensures(BitReader::failed, (x,), failed) ==> (failed <==> x@ is None),
        forall|x: &mut BitReader, condition: bool| #[trigger]
            call_ensures(BitReader::require, (x, condition), ()) ==> {
                &&& condition ==> final(x)@ == x@
                &&& !condition ==> final(x)@ is None
            },
{
    lemma_bits_are_the_bit_string(data@);
    reveal(guard);
}

} // verus!
