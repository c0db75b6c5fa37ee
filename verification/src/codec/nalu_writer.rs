//! A writer of Annex B NAL units: start code and header, then bits that are packed
//! into bytes with emulation prevention.

use crate::bits::{code_u, code_ue, pack, partial, pow2, signed_number, value_of};
use crate::bits::{
    lemma_bit_length_unique, lemma_pack_push, lemma_pow2_monotone, lemma_pow2_pos,
    lemma_pow2_values,
};
use crate::codec::emulation::{escape, escape_state, lemma_escape_push, lemma_escape_zeros};
use vstd::prelude::*;

verus! {

/// Why a value could not be written.
#[derive(Clone, Copy, Debug, PartialEq, Eq, Structural)]
pub enum NaluWriterError {
    /// The number of an Exp-Golomb code does not fit in 32 bits.
    Overflow,
    /// A fixed-length element is longer than 32 bits.
    InvalidBitCount,
}

impl NaluWriterError {
    /// A description of the error.
    pub fn message(&self) -> (s: &'static str)
        ensures
            s@ == match *self {
                NaluWriterError::Overflow => "value increment caused value overflow"@,
                NaluWriterError::InvalidBitCount => "invalid bit count"@,
            },
    {
        match self {
            NaluWriterError::Overflow => "value increment caused value overflow",
            NaluWriterError::InvalidBitCount => "invalid bit count",
        }
    }
}

pub type NaluWriterResult<T> = Result<T, NaluWriterError>;

/// The start code and the two-byte header of an H.265 NAL unit.
pub open spec fn hevc_header(nalu_type: u8, layer_id: u8, temporal_id_plus1: u8) -> Seq<u8> {
    seq![
        0u8,
        0u8,
        0u8,
        1u8,
        (2 * nalu_type + layer_id / 32) as u8,
        (8 * (layer_id % 32) + temporal_id_plus1) as u8,
    ]
}

/// The bytes that bits are written as.
pub open spec fn payload(ep_enabled: bool, bits: Seq<bool>) -> Seq<u8> {
    if ep_enabled {
        escape(pack(bits))
    } else {
        pack(bits)
    }
}

/// The high bit first: bit `i` of `n` is that of weight `2` to the `n - 1 - i`.
pub open spec fn shifted(v: nat, k: nat) -> nat
    decreases k,
{
    if k == 0 {
        v
    } else {
        shifted(v, (k - 1) as nat) / 2
    }
}

proof fn lemma_code_u_snoc(n: nat, v: nat)
    ensures
        n > 0 ==> code_u(n, v) == code_u((n - 1) as nat, v / 2).push(v % 2 == 1),
{
}

proof fn lemma_shifted_step(v: nat, k: nat)
    ensures
        shifted(v, k + 1) == shifted(v, k) / 2,
{
}

proof fn lemma_shifted_small(v: nat, k: nat)
    requires
        v < pow2(k),
    ensures
        shifted(v, k) == 0,
    decreases k,
{
    if k > 0 {
        lemma_shifted_half(v, (k - 1) as nat);
        lemma_shifted_small(v / 2, (k - 1) as nat);
    }
}

proof fn lemma_shifted_half(v: nat, k: nat)
    ensures
        shifted(v, k + 1) == shifted(v / 2, k),
    decreases k,
{
    if k > 0 {
        lemma_shifted_half(v, (k - 1) as nat);
    } else {
        assert(shifted(v, 1) == shifted(v, 0) / 2);
    }
}

proof fn lemma_shr_shifted(v: u32, k: u32)
    requires
        k < 32,
    ensures
        (v >> k) as nat == shifted(v as nat, k as nat),
    decreases k,
{
    if k == 0 {
        assert(v >> 0 == v) by (bit_vector);
    } else {
        let j = (k - 1) as u32;
        lemma_shr_shifted(v, j);
        assert(v >> k == (v >> j) / 2) by (bit_vector)
            requires
                0 < k < 32,
                j == k - 1,
        ;
    }
}

/// A NAL unit under construction.
pub struct NaluWriter {
    out: Vec<u8>,
    ep_enabled: bool,
    zeros: u8,
    current: u8,
    filled: u8,
    head: Ghost<Seq<u8>>,
    bits: Ghost<Seq<bool>>,
}

impl NaluWriter {
    /// What stands in front of the bits.
    pub closed spec fn head(&self) -> Seq<u8> {
        self.head@
    }

    /// The bits written so far.
    pub closed spec fn bits(&self) -> Seq<bool> {
        self.bits@
    }

    /// Whether emulation prevention bytes are put in.
    pub closed spec fn ep_enabled(&self) -> bool {
        self.ep_enabled
    }

    /// The bytes, the zero count and the unfinished byte follow from the bits.
    pub closed spec fn inv(&self) -> bool {
        &&& self.out@ == self.head@ + payload(self.ep_enabled, self.bits@)
        &&& self.ep_enabled ==> self.zeros == escape_state(pack(self.bits@)).1
        &&& self.zeros <= 2
        &&& self.filled == self.bits@.len() % 8
        &&& self.current == value_of(partial(self.bits@))
    }

    /// A writer with nothing written.
    pub fn new(ep_enabled: bool) -> (w: Self)
        ensures
            w.inv(),
            w.head() == Seq::<u8>::empty(),
            w.bits() == Seq::<bool>::empty(),
            w.ep_enabled() == ep_enabled,
    {
        let w = NaluWriter {
            out: Vec::new(),
            ep_enabled,
            zeros: 0,
            current: 0,
            filled: 0,
            head: Ghost(Seq::empty()),
            bits: Ghost(Seq::empty()),
        };
        proof {
            assert(pack(w.bits@) =~= Seq::<u8>::empty());
            assert(partial(w.bits@) =~= Seq::<bool>::empty());
            assert(w.out@ =~= w.head@ + payload(ep_enabled, w.bits@));
        }
        w
    }

    /// Writes the start code and the H.265 NAL unit header.
    pub fn write_header_hevc(&mut self, nalu_type: u8, layer_id: u8, temporal_id_plus1: u8)
        requires
            old(self).inv(),
            old(self).bits().len() == 0,
            nalu_type < 64,
            layer_id < 64,
            temporal_id_plus1 < 8,
        ensures
            final(self).inv(),
            final(self).head() == old(self).head() + hevc_header(nalu_type, layer_id, temporal_id_plus1),
            final(self).bits() == old(self).bits(),
            final(self).ep_enabled() == old(self).ep_enabled(),
    {
        proof {
            assert(pack(self.bits@) =~= Seq::<u8>::empty());
        }
        self.out.push(0);
        self.out.push(0);
        self.out.push(0);
        self.out.push(1);
        self.out.push(nalu_type * 2 + layer_id / 32);
        self.out.push((layer_id % 32) * 8 + temporal_id_plus1);
        self.head = Ghost(self.head@ + hevc_header(nalu_type, layer_id, temporal_id_plus1));
        proof {
            assert(self.out@ =~= self.head@ + payload(self.ep_enabled, self.bits@));
        }
    }

    fn write_byte(&mut self, byte: u8)
        requires
            old(self).zeros <= 2,
        ensures
            !old(self).ep_enabled
                ==> final(self).out@ == old(self).out@.push(byte) && final(self).zeros <= 2,
            old(self).ep_enabled
                ==> (final(self).out@, final(self).zeros as int) == if old(self).zeros >= 2
                && byte <= 3 {
                (old(self).out@.push(3).push(byte), if byte == 0 { 1int } else { 0int })
            } else {
                (old(self).out@.push(byte), if byte == 0 { old(self).zeros + 1 } else { 0int })
            },
            final(self).ep_enabled == old(self).ep_enabled,
            final(self).current == old(self).current,
            final(self).filled == old(self).filled,
            final(self).head == old(self).head,
            final(self).bits == old(self).bits,
    {
        if self.ep_enabled {
            if self.zeros >= 2 && byte <= 3 {
                self.out.push(3);
                self.zeros = 0;
            }
            if byte == 0 {
                self.zeros = self.zeros + 1;
            } else {
                self.zeros = 0;
            }
        }
        self.out.push(byte);
    }

    /// Writes one bit.
    pub fn write_bit(&mut self, bit: bool)
        requires
            old(self).inv(),
        ensures
            final(self).inv(),
            final(self).bits() == old(self).bits().push(bit),
            final(self).head() == old(self).head(),
            final(self).ep_enabled() == old(self).ep_enabled(),
    {
        let ghost before = self.bits@;
        let ghost out0 = self.out@;
        proof {
            lemma_pack_push(before, bit);
            lemma_pow2_values();
            lemma_pow2_monotone(before.len() % 8, 7);
            lemma_escape_zeros(pack(before));
        }
        let next: u8 = self.current * 2 + if bit { 1 } else { 0 };
        self.bits = Ghost(before.push(bit));
        if self.filled == 7 {
            proof {
                lemma_escape_push(pack(before), next);
                lemma_escape_zeros(pack(before).push(next));
            }
            self.filled = 0;
            self.current = 0;
            self.write_byte(next);
            proof {
                let h = self.head@;
                assert(out0.push(next) =~= h + pack(before).push(next) || self.ep_enabled);
                assert(self.out@ =~= h + payload(self.ep_enabled, self.bits@));
            }
        } else {
            self.filled = self.filled + 1;
            self.current = next;
        }
    }

    /// Writes the `bits` low bits of `value`.
    pub fn write_f(&mut self, bits: usize, value: u32) -> (r: NaluWriterResult<()>)
        requires
            old(self).inv(),
        ensures
            final(self).inv(),
            r == if bits <= 32 {
                NaluWriterResult::Ok(())
            } else {
                NaluWriterResult::Err(NaluWriterError::InvalidBitCount)
            },
            final(self).bits() == if bits <= 32 {
                old(self).bits() + code_u(bits as nat, value as nat)
            } else {
                old(self).bits()
            },
            final(self).head() == old(self).head(),
            final(self).ep_enabled() == old(self).ep_enabled(),
    {
        if bits > 32 {
            return Err(NaluWriterError::InvalidBitCount);
        }
        let ghost start = self.bits@;
        let mut left: usize = bits;
        proof {
            if bits == 32 {
                lemma_pow2_values();
                lemma_shifted_small(value as nat, 32);
            } else {
                lemma_shr_shifted(value, bits as u32);
            }
            assert(self.bits@ =~= start + code_u(0, shifted(value as nat, bits as nat)));
        }
        while left > 0
            invariant
                self.inv(),
                left <= bits <= 32,
                self.bits() == start + code_u((bits - left) as nat, shifted(value as nat, left as nat)),
                self.head() == old(self).head(),
                self.ep_enabled() == old(self).ep_enabled(),
            decreases left,
        {
            let k: u32 = left as u32 - 1;
            let shift: u32 = value >> k;
            proof {
                lemma_shr_shifted(value, k);
                lemma_shifted_step(value as nat, k as nat);
                lemma_code_u_snoc((bits - left + 1) as nat, shifted(value as nat, k as nat));
                assert((start + code_u((bits - left) as nat, shifted(value as nat, left as nat))).push(
                    shift % 2 == 1,
                ) =~= start + code_u((bits - left) as nat, shifted(value as nat, left as nat)).push(
                    shift % 2 == 1,
                ));
            }
            self.write_bit(shift % 2 == 1);
            left = left - 1;
        }
        Ok(())
    }

    /// Writes a fixed-length unsigned element.
    pub fn write_u(&mut self, bits: usize, value: u32) -> (r: NaluWriterResult<()>)
        requires
            old(self).inv(),
        ensures
            final(self).inv(),
            r == if bits <= 32 {
                NaluWriterResult::Ok(())
            } else {
                NaluWriterResult::Err(NaluWriterError::InvalidBitCount)
            },
            final(self).bits() == if bits <= 32 {
                old(self).bits() + code_u(bits as nat, value as nat)
            } else {
                old(self).bits()
            },
            final(self).head() == old(self).head(),
            final(self).ep_enabled() == old(self).ep_enabled(),
    {
        self.write_f(bits, value)
    }

    /// Writes an unsigned Exp-Golomb code.
    pub fn write_ue(&mut self, value: u32) -> (r: NaluWriterResult<()>)
        requires
            old(self).inv(),
        ensures
            final(self).inv(),
            r == if value < u32::MAX {
                NaluWriterResult::Ok(())
            } else {
                NaluWriterResult::Err(NaluWriterError::Overflow)
            },
            final(self).bits() == if value < u32::MAX {
                old(self).bits() + code_ue(value as nat)
            } else {
                old(self).bits()
            },
            final(self).head() == old(self).head(),
            final(self).ep_enabled() == old(self).ep_enabled(),
    {
        if value == u32::MAX {
            return Err(NaluWriterError::Overflow);
        }
        let number: u32 = value + 1;
        let mut digits: usize = 1;
        proof {
            lemma_pow2_values();
        }
        let mut high: u32 = number / 2;
        while high > 0
            invariant
                1 <= digits <= 32,
                number >= 1,
                pow2(digits as nat) * (high as nat) <= number,
                (number as nat) < pow2(digits as nat) * (high as nat + 1),
                pow2((digits - 1) as nat) <= number,
            decreases high,
        {
            proof {
                lemma_pow2_values();
                let p = pow2(digits as nat);
                let h = high as nat;
                assert(p * h <= number && p >= 1 && h >= 1 ==> p <= number) by (nonlinear_arith);
                lemma_pow2_pos(digits as nat);
                if digits >= 32 {
                    lemma_pow2_monotone(32, digits as nat);
                }
                assert(2 * p * (h / 2) <= p * h) by (nonlinear_arith);
                assert(p * (h + 1) <= 2 * p * (h / 2 + 1)) by (nonlinear_arith)
                    requires
                        h + 1 <= 2 * (h / 2 + 1),
                        p >= 1,
                ;
            }
            high = high / 2;
            digits = digits + 1;
        }
        proof {
            assert(pow2(digits as nat) * (0 + 1) == pow2(digits as nat)) by (nonlinear_arith);
            lemma_bit_length_unique(number as nat, digits as nat);
        }
        let ghost start = self.bits@;
        let _ = self.write_f(digits - 1, 0);
        let _ = self.write_f(digits, number);
        proof {
            assert(self.bits@ =~= start + code_ue(value as nat));
        }
        Ok(())
    }

    /// Writes a signed Exp-Golomb code.
    pub fn write_se(&mut self, value: i32) -> (r: NaluWriterResult<()>)
        requires
            old(self).inv(),
            value > i32::MIN,
        ensures
            final(self).inv(),
            r == NaluWriterResult::Ok(()),
            final(self).bits() == old(self).bits() + code_ue(signed_number(value as int)),
            final(self).head() == old(self).head(),
            final(self).ep_enabled() == old(self).ep_enabled(),
    {
        if value <= 0 {
            let magnitude: u32 = (-value) as u32;
            self.write_ue(2 * magnitude)
        } else {
            let magnitude: u32 = value as u32;
            self.write_ue(2 * magnitude - 1)
        }
    }

    /// Whether the bits fill whole bytes.
    pub fn aligned(&self) -> (r: bool)
        requires
            self.inv(),
        ensures
            r == (self.bits().len() % 8 == 0),
    {
        self.filled == 0
    }

    /// The bytes written.
    pub fn into_bytes(self) -> (out: Vec<u8>)
        requires
            self.inv(),
        ensures
            out@ == self.head() + payload(self.ep_enabled(), self.bits()),
    {
        self.out
    }
}

} // verus!
