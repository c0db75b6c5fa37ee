//! A reader of syntax elements.

use crate::bits::{
    bits_of, byte_bits, code_u, leading_zeros, lemma_bits_of_chunk, lemma_bits_of_len,
    lemma_code_of_value, lemma_code_u_first, lemma_code_u_len, lemma_leading_zeros_are_zero,
    lemma_pow2_monotone, lemma_pow2_values, value_of,
};
use crate::syntax::{
    guard, lemma_code_number, lemma_read_se, lemma_read_ue, read_code_number, read_flag, read_se,
    read_u, read_ue, Input,
};
use vstd::prelude::*;

verus! {

/// A position in a byte sequence, bit by bit. A read that fails leaves the reader
/// failed; every read after it yields zero.
pub struct BitReader {
    data: Vec<u8>,
    position: usize,
    failed: bool,
}

/// Bit `k` of a byte, the most significant being bit `0`.
proof fn lemma_byte_bit(b: u8, k: u8)
    requires
        k < 8,
    ensures
        byte_bits(b)[k as int] == ((b >> ((7 - k) as u8)) % 2 == 1),
{
    reveal_with_fuel(code_u, 9);
    let v = b as nat;
    assert(b >> 0u8 == b && b >> 1u8 == b / 2 && b >> 2u8 == b / 2 / 2 && b >> 3u8 == b / 2 / 2 / 2
        && b >> 4u8 == b
        / 2 / 2 / 2 / 2 && b >> 5u8 == b / 2 / 2 / 2 / 2 / 2
            && b >> 6u8 == b / 2 / 2 / 2 / 2 / 2 / 2 && b >> 7u8 == b
        / 2 / 2 / 2 / 2 / 2 / 2 / 2) by (bit_vector);
}

impl BitReader {
    /// What is left to read.
    pub closed spec fn view(&self) -> Input {
        if self.failed {
            None
        } else {
            Some(bits_of(self.data@).skip(self.position as int))
        }
    }

    /// The position lies within the data.
    pub closed spec fn inv(&self) -> bool {
        &&& self.position <= 8 * self.data@.len()
        &&& 8 * self.data@.len() <= usize::MAX
    }

    /// A reader at the front of `data`.
    pub fn new(data: Vec<u8>) -> (r: Self)
        requires
            8 * data@.len() <= usize::MAX,
        ensures
            r.inv(),
            r@ == Some(bits_of(data@)),
    {
        proof {
            lemma_bits_of_len(data@);
            assert(bits_of(data@).skip(0) =~= bits_of(data@));
        }
        BitReader { data, position: 0, failed: false }
    }

    /// Whether a read has failed.
    pub fn failed(&self) -> (r: bool)
        ensures
            r == (self@ is None),
    {
        self.failed
    }

    /// Fails the reader unless `condition` holds.
    pub fn require(&mut self, condition: bool)
        requires
            old(self).inv(),
        ensures
            final(self).inv(),
            final(self)@ == guard(old(self)@, condition),
    {
        proof {
            reveal(guard);
        }
        if !condition {
            self.failed = true;
        }
    }

    /// The bit at `index`.
    fn bit_at(&self, index: usize) -> (b: bool)
        requires
            index < 8 * self.data@.len(),
        ensures
            b == bits_of(self.data@)[index as int],
    {
        let j: usize = index / 8;
        let k: u8 = (index % 8) as u8;
        let byte: u8 = self.data[j];
        proof {
            lemma_bits_of_chunk(self.data@, j as int);
            lemma_byte_bit(byte, k);
            lemma_code_u_len(8, byte as nat);
            assert(bits_of(self.data@).subrange(8 * j as int, 8 * j as int + 8)[k as int]
                == bits_of(self.data@)[index as int]);
        }
        (byte >> (7 - k)) % 2 == 1
    }

    /// Reads a fixed-length element.
    pub fn u(&mut self, n: usize) -> (v: u32)
        requires
            old(self).inv(),
        ensures
            final(self).inv(),
            (v as int, final(self)@) == read_u(old(self)@, n as int),
    {
        proof {
            reveal(read_u);
            lemma_bits_of_len(self.data@);
        }
        if self.failed || n > 32 || n > 8 * self.data.len() - self.position {
            self.failed = true;
            return 0;
        }
        let ghost all = bits_of(self.data@);
        let ghost start = self.position as int;
        let mut v: u32 = 0;
        let mut i: usize = 0;
        proof {
            assert(all.subrange(start, start) =~= Seq::<bool>::empty());
        }
        while i < n
            invariant
                *self == *old(self),
                self.inv(),
                all == bits_of(self.data@),
                all.len() == 8 * self.data@.len(),
                n <= 32,
                i <= n,
                start == self.position,
                start + n <= all.len(),
                v == value_of(all.subrange(start, start + i)),
            decreases n - i,
        {
            let b: bool = self.bit_at(self.position + i);
            proof {
                let s = all.subrange(start, start + i);
                lemma_code_of_value(s);
                lemma_pow2_values();
                lemma_pow2_monotone(i as nat, 31);
                assert(all.subrange(start, start + i + 1).drop_last() =~= s);
            }
            v = 2 * v + if b { 1 } else { 0 };
            i = i + 1;
        }
        self.position = self.position + n;
        proof {
            assert(all.skip(start).take(n as int) =~= all.subrange(start, start + n));
            assert(all.skip(start).skip(n as int) =~= all.skip(start + n));
        }
        v
    }

    /// Reads a flag.
    pub fn flag(&mut self) -> (v: bool)
        requires
            old(self).inv(),
        ensures
            final(self).inv(),
            (v, final(self)@) == read_flag(old(self)@),
    {
        proof {
            reveal(read_flag);
        }
        self.u(1) == 1
    }

    /// Reads the number of an Exp-Golomb code.
    fn code_number(&mut self) -> (v: u32)
        requires
            old(self).inv(),
        ensures
            final(self).inv(),
            (v as int, final(self)@) == read_code_number(old(self)@),
    {
        proof {
            reveal(read_code_number);
            lemma_bits_of_len(self.data@);
        }
        if self.failed {
            return 0;
        }
        let ghost all = bits_of(self.data@);
        let ghost start = self.position as int;
        let ghost s = all.skip(start);
        let total: usize = 8 * self.data.len();
        let mut zeros: usize = 0;
        proof {
            lemma_leading_zeros_are_zero(s);
        }
        while zeros <= 31 && self.position + zeros < total && !self.bit_at(self.position + zeros)
            invariant
                *self == *old(self),
                self.inv(),
                all == bits_of(self.data@),
                all.len() == total,
                total == 8 * self.data@.len(),
                s == all.skip(start),
                start == self.position,
                zeros <= 32,
                start + zeros <= total,
                zeros <= leading_zeros(s) <= s.len(),
                leading_zeros(s) < s.len() ==> s[leading_zeros(s) as int],
                forall|i: int| 0 <= i < leading_zeros(s) ==> !(#[trigger] s[i]),
            decreases 32 - zeros,
        {
            proof {
                assert(!s[zeros as int]);
            }
            zeros = zeros + 1;
        }
        proof {
            if zeros <= 31 && start + zeros < total {
                assert(s[zeros as int]);
            }
        }
        if zeros > 31 || 2 * zeros + 1 > total - self.position {
            self.failed = true;
            return 0;
        }
        self.position = self.position + zeros;
        let ghost middle = self@;
        let v: u32 = self.u(zeros + 1);
        proof {
            reveal(read_u);
            let k = zeros as int;
            assert(middle == Some(s.skip(k))) by {
                assert(all.skip(start + k) =~= s.skip(k));
            }
            assert(s.skip(k).take(k + 1) =~= s.subrange(k, 2 * k + 1));
            assert(s.skip(k).skip(k + 1) =~= s.skip(2 * k + 1));
            let digits = s.subrange(k, 2 * k + 1);
            lemma_code_of_value(digits);
            lemma_code_u_first((k + 1) as nat, value_of(digits));
            lemma_pow2_monotone(0, k as nat);
            lemma_pow2_values();
            assert(digits[0] == s[k]);
        }
        v - 1
    }

    /// Reads an unsigned Exp-Golomb element of at most `max`.
    pub fn ue(&mut self, max: u32) -> (v: u32)
        requires
            old(self).inv(),
        ensures
            final(self).inv(),
            (v as int, final(self)@) == read_ue(old(self)@, max as int),
            v <= max,
    {
        proof {
            reveal(read_ue);
            lemma_read_ue(self@, max as int);
        }
        let v: u32 = self.code_number();
        if v > max {
            self.failed = true;
            return 0;
        }
        v
    }

    /// Reads a signed Exp-Golomb element in `min..=max`.
    pub fn se(&mut self, min: i32, max: i32) -> (v: i32)
        requires
            old(self).inv(),
            min <= 0 <= max,
        ensures
            final(self).inv(),
            (v as int, final(self)@) == read_se(old(self)@, min as int, max as int),
            min <= v <= max,
    {
        proof {
            reveal(read_se);
            lemma_code_number(self@);
            lemma_read_se(self@, min as int, max as int);
        }
        let k: u32 = self.code_number();
        let half: i32 = (k / 2) as i32;
        let v: i32 = if k % 2 == 1 {
            half + 1
        } else {
            -half
        };
        if v < min || v > max {
            self.failed = true;
            return 0;
        }
        v
    }
}

} // verus!
