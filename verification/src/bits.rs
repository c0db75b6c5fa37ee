//! Bit sequences: fixed-length codes, Exp-Golomb codes, and the packing of bits
//! into bytes.

use vstd::prelude::*;

verus! {

/// `2` to the power of `n`.
pub open spec fn pow2(n: nat) -> nat
    decreases n,
{
    if n == 0 {
        1
    } else {
        2 * pow2((n - 1) as nat)
    }
}

/// The `n` low bits of `v`, most significant bit first.
pub open spec fn code_u(n: nat, v: nat) -> Seq<bool>
    decreases n,
{
    if n == 0 {
        Seq::empty()
    } else {
        code_u((n - 1) as nat, v / 2).push(v % 2 == 1)
    }
}

/// The number whose binary digits, most significant first, are `s`.
pub open spec fn value_of(s: Seq<bool>) -> nat
    decreases s.len(),
{
    if s.len() == 0 {
        0
    } else {
        2 * value_of(s.drop_last()) + if s.last() {
            1nat
        } else {
            0nat
        }
    }
}

/// The number of binary digits of `v`, without leading zeros.
pub open spec fn bit_length(v: nat) -> nat
    decreases v,
{
    if v == 0 {
        0
    } else {
        1 + bit_length(v / 2)
    }
}

/// The Exp-Golomb code of `v`: one zero for each digit of `v + 1` but the first,
/// then the digits of `v + 1`.
pub open spec fn code_ue(v: nat) -> Seq<bool> {
    let n = bit_length(v + 1);
    code_u((n - 1) as nat, 0) + code_u(n, v + 1)
}

/// The code number of a signed Exp-Golomb value: `0, 1, -1, 2, -2, ...` are
/// numbered `0, 1, 2, 3, 4, ...`.
pub open spec fn signed_number(v: int) -> nat {
    if v <= 0 {
        (-2 * v) as nat
    } else {
        (2 * v - 1) as nat
    }
}

/// The signed value with code number `k`.
pub open spec fn signed_value(k: int) -> int {
    if k % 2 == 1 {
        (k + 1) / 2
    } else {
        -(k / 2)
    }
}

/// The number of `false` bits in front of the first `true` bit of `s`.
pub open spec fn leading_zeros(s: Seq<bool>) -> nat
    decreases s.len(),
{
    if s.len() == 0 || s[0] {
        0
    } else {
        1 + leading_zeros(s.drop_first())
    }
}

/// The bits of a byte, most significant first.
pub open spec fn byte_bits(b: u8) -> Seq<bool> {
    code_u(8, b as nat)
}

/// The bits of a byte sequence.
pub open spec fn bits_of(bytes: Seq<u8>) -> Seq<bool>
    decreases bytes.len(),
{
    if bytes.len() == 0 {
        Seq::empty()
    } else {
        bits_of(bytes.drop_last()) + byte_bits(bytes.last())
    }
}

/// The whole bytes at the front of a bit sequence.
pub open spec fn pack(bits: Seq<bool>) -> Seq<u8> {
    Seq::new(bits.len() / 8, |j: int| value_of(bits.subrange(8 * j, 8 * j + 8)) as u8)
}

/// The bits behind the last whole byte of a bit sequence.
pub open spec fn partial(bits: Seq<bool>) -> Seq<bool> {
    bits.skip(8 * (bits.len() as int / 8))
}

/// `rbsp_trailing_bits()`: a `true` bit, then `false` bits up to the byte boundary.
pub open spec fn with_trailing(bits: Seq<bool>) -> Seq<bool> {
    let n = bits.len() + 1;
    bits.push(true) + code_u(((8 - n % 8) % 8) as nat, 0)
}

pub proof fn lemma_pow2_pos(n: nat)
    ensures
        pow2(n) >= 1,
    decreases n,
{
    if n > 0 {
        lemma_pow2_pos((n - 1) as nat);
    }
}

pub proof fn lemma_pow2_monotone(m: nat, n: nat)
    requires
        m <= n,
    ensures
        pow2(m) <= pow2(n),
    decreases n,
{
    if m < n {
        lemma_pow2_monotone(m, (n - 1) as nat);
    }
}

pub proof fn lemma_pow2_split(m: nat, n: nat)
    ensures
        pow2(m + n) == pow2(m) * pow2(n),
    decreases n,
{
    if n > 0 {
        lemma_pow2_split(m, (n - 1) as nat);
        let a = pow2(m) as int;
        let b = pow2((n - 1) as nat) as int;
        assert(2 * (a * b) == a * (2 * b)) by (nonlinear_arith);
    } else {
        assert(pow2(m) * 1 == pow2(m)) by (nonlinear_arith);
    }
}

pub proof fn lemma_pow2_values()
    ensures
        pow2(0) == 1,
        pow2(1) == 2,
        pow2(2) == 4,
        pow2(3) == 8,
        pow2(4) == 16,
        pow2(5) == 32,
        pow2(6) == 64,
        pow2(7) == 128,
        pow2(8) == 256,
        pow2(16) == 0x1_0000,
        pow2(31) == 0x8000_0000,
        pow2(32) == 0x1_0000_0000,
{
    reveal_with_fuel(pow2, 33);
}

pub proof fn lemma_code_u_len(n: nat, v: nat)
    ensures
        code_u(n, v).len() == n,
    decreases n,
{
    if n > 0 {
        lemma_code_u_len((n - 1) as nat, v / 2);
    }
}

pub proof fn lemma_value_of_code(n: nat, v: nat)
    requires
        v < pow2(n),
    ensures
        value_of(code_u(n, v)) == v,
    decreases n,
{
    if n > 0 {
        lemma_value_of_code((n - 1) as nat, v / 2);
        assert(code_u(n, v).drop_last() =~= code_u((n - 1) as nat, v / 2));
    }
}

pub proof fn lemma_code_of_value(s: Seq<bool>)
    ensures
        code_u(s.len(), value_of(s)) == s,
        value_of(s) < pow2(s.len()),
    decreases s.len(),
{
    if s.len() > 0 {
        lemma_code_of_value(s.drop_last());
        assert(value_of(s) / 2 == value_of(s.drop_last()));
        assert(code_u(s.len(), value_of(s)) =~= s);
    }
}

pub proof fn lemma_code_zeros(n: nat)
    ensures
        code_u(n, 0).len() == n,
        forall|i: int| 0 <= i < n ==> !(#[trigger] code_u(n, 0)[i]),
    decreases n,
{
    if n > 0 {
        lemma_code_zeros((n - 1) as nat);
    }
}

pub proof fn lemma_bit_length(v: nat)
    ensures
        v < pow2(bit_length(v)),
        v > 0 ==> bit_length(v) > 0 && pow2((bit_length(v) - 1) as nat) <= v,
    decreases v,
{
    if v > 0 {
        lemma_bit_length(v / 2);
        if v == 1 {
            assert(bit_length(0) == 0);
        }
    }
}

pub proof fn lemma_bit_length_bound(v: nat, n: nat)
    requires
        v < pow2(n),
    ensures
        bit_length(v) <= n,
    decreases n,
{
    if v > 0 {
        if n == 0 {
        } else {
            lemma_bit_length_bound(v / 2, (n - 1) as nat);
        }
    }
}

pub proof fn lemma_bit_length_unique(v: nat, n: nat)
    requires
        v < pow2(n),
        n > 0,
        pow2((n - 1) as nat) <= v,
    ensures
        bit_length(v) == n,
    decreases n,
{
    lemma_bit_length_bound(v, n);
    lemma_bit_length(v);
    lemma_pow2_pos((n - 1) as nat);
    if bit_length(v) < n {
        lemma_pow2_monotone(bit_length(v), (n - 1) as nat);
    }
}

pub proof fn lemma_code_u_first(n: nat, v: nat)
    requires
        n > 0,
        v < pow2(n),
    ensures
        code_u(n, v)[0] == (v >= pow2((n - 1) as nat)),
    decreases n,
{
    lemma_code_u_len(n, v);
    lemma_code_u_len((n - 1) as nat, v / 2);
    if n == 1 {
        assert(code_u(0, v / 2).len() == 0);
        assert(code_u(1, v)[0] == (v % 2 == 1));
    } else {
        lemma_code_u_first((n - 1) as nat, v / 2);
        assert(code_u(n, v)[0] == code_u((n - 1) as nat, v / 2)[0]);
    }
}

pub proof fn lemma_leading_zeros(s: Seq<bool>, k: nat)
    requires
        k < s.len(),
        s[k as int],
        forall|i: int| 0 <= i < k ==> !(#[trigger] s[i]),
    ensures
        leading_zeros(s) == k,
    decreases k,
{
    if k > 0 {
        assert(!s[0]);
        let t = s.drop_first();
        assert(t[(k - 1) as int] == s[k as int]);
        assert forall|i: int| 0 <= i < k - 1 implies !(#[trigger] t[i]) by {
            assert(t[i] == s[i + 1]);
        }
        lemma_leading_zeros(t, (k - 1) as nat);
    }
}

pub proof fn lemma_leading_zeros_are_zero(s: Seq<bool>)
    ensures
        leading_zeros(s) <= s.len(),
        forall|i: int| 0 <= i < leading_zeros(s) ==> !(#[trigger] s[i]),
        leading_zeros(s) < s.len() ==> s[leading_zeros(s) as int],
    decreases s.len(),
{
    if s.len() > 0 && !s[0] {
        let t = s.drop_first();
        lemma_leading_zeros_are_zero(t);
        assert forall|i: int| 0 <= i < leading_zeros(s) implies !(#[trigger] s[i]) by {
            if i > 0 {
                assert(s[i] == t[i - 1]);
            }
        }
        if leading_zeros(t) < t.len() {
            assert(t[leading_zeros(t) as int] == s[leading_zeros(s) as int]);
        }
    }
}

/// An Exp-Golomb code starts with as many zeros as its number has digits behind
/// the first, and is twice as long plus one.
pub proof fn lemma_code_ue(v: nat)
    ensures
        code_ue(v).len() == 2 * bit_length(v + 1) - 1,
        bit_length(v + 1) >= 1,
        forall|r: Seq<bool>| leading_zeros(#[trigger] (code_ue(v) + r)) == bit_length(v + 1) - 1,
        code_ue(v).skip(bit_length(v + 1) - 1) == code_u(bit_length(v + 1), v + 1),
{
    let n = bit_length(v + 1);
    lemma_bit_length(v + 1);
    lemma_code_u_len((n - 1) as nat, 0);
    lemma_code_u_len(n, v + 1);
    lemma_code_zeros((n - 1) as nat);
    lemma_code_u_first(n, v + 1);
    assert forall|r: Seq<bool>| leading_zeros(#[trigger] (code_ue(v) + r)) == n - 1 by {
        let s = code_ue(v) + r;
        assert(s[n - 1] == code_u(n, v + 1)[0]);
        assert forall|i: int| 0 <= i < n - 1 implies !(#[trigger] s[i]) by {
            assert(s[i] == code_u((n - 1) as nat, 0)[i]);
        }
        lemma_leading_zeros(s, (n - 1) as nat);
    }
    assert(code_ue(v).skip(n - 1) =~= code_u(n, v + 1));
}

pub proof fn lemma_signed_inverse(v: int)
    ensures
        signed_value(signed_number(v) as int) == v,
{
}

pub proof fn lemma_bits_of_len(bytes: Seq<u8>)
    ensures
        bits_of(bytes).len() == 8 * bytes.len(),
    decreases bytes.len(),
{
    if bytes.len() > 0 {
        lemma_bits_of_len(bytes.drop_last());
        lemma_code_u_len(8, bytes.last() as nat);
    }
}

/// Each byte contributes its eight bits.
pub proof fn lemma_bits_of_chunk(bytes: Seq<u8>, j: int)
    requires
        0 <= j < bytes.len(),
    ensures
        bits_of(bytes).len() == 8 * bytes.len(),
        bits_of(bytes).subrange(8 * j, 8 * j + 8) == byte_bits(bytes[j]),
    decreases bytes.len(),
{
    lemma_bits_of_len(bytes);
    lemma_bits_of_len(bytes.drop_last());
    lemma_code_u_len(8, bytes.last() as nat);
    let front = bits_of(bytes.drop_last());
    if j == bytes.len() - 1 {
        assert(bits_of(bytes).subrange(8 * j, 8 * j + 8) =~= byte_bits(bytes[j]));
    } else {
        lemma_bits_of_chunk(bytes.drop_last(), j);
        assert(bits_of(bytes).subrange(8 * j, 8 * j + 8) =~= front.subrange(8 * j, 8 * j + 8));
    }
}

/// Whole bytes survive packing.
pub proof fn lemma_bits_of_pack(bits: Seq<bool>)
    requires
        bits.len() % 8 == 0,
    ensures
        bits_of(pack(bits)) == bits,
    decreases bits.len(),
{
    lemma_bits_of_len(pack(bits));
    if bits.len() == 0 {
        assert(bits_of(pack(bits)) =~= bits);
    } else {
        let n = bits.len() as int;
        let front = bits.take(n - 8);
        let last = bits.skip(n - 8);
        lemma_bits_of_pack(front);
        assert forall|j: int| 0 <= j < front.len() / 8
            implies #[trigger] pack(front)[j] == pack(bits)[j] by {
            assert(front.subrange(8 * j, 8 * j + 8) =~= bits.subrange(8 * j, 8 * j + 8));
        }
        assert(pack(bits).drop_last() =~= pack(front));
        let k = bits.len() as int / 8 - 1;
        assert(bits.subrange(8 * k, 8 * k + 8) =~= last);
        lemma_code_of_value(last);
        lemma_pow2_values();
        assert(pack(bits).last() as nat == value_of(last));
        assert(byte_bits(pack(bits).last()) == last);
        assert(front + last =~= bits);
    }
}

/// Packing a bit sequence that a byte completes appends that byte.
pub proof fn lemma_pack_push(bits: Seq<bool>, b: bool)
    ensures
        bits.len() % 8 != 7
            ==> pack(bits.push(b)) == pack(bits) && partial(bits.push(b)) == partial(bits).push(b),
        bits.len() % 8 == 7
            ==> pack(bits.push(b)) == pack(bits).push(value_of(partial(bits).push(b)) as u8)
            && partial(bits.push(b)) == Seq::<bool>::empty(),
        partial(bits).len() == bits.len() % 8,
        value_of(
            partial(bits).push(b),
        ) == 2 * value_of(partial(bits)) + if b { 1nat } else { 0nat },
        value_of(partial(bits)) < pow2(bits.len() % 8),
{
    let p = bits.push(b);
    let k = bits.len() as int / 8;
    assert forall|j: int| 0 <= j < k implies #[trigger] pack(p)[j] == pack(bits)[j] by {
        assert(p.subrange(8 * j, 8 * j + 8) =~= bits.subrange(8 * j, 8 * j + 8));
    }
    assert(partial(bits).push(b).drop_last() =~= partial(bits));
    lemma_code_of_value(partial(bits));
    if bits.len() % 8 == 7 {
        assert(p.subrange(8 * k, 8 * k + 8) =~= partial(bits).push(b));
        assert(pack(p) =~= pack(bits).push(value_of(partial(bits).push(b)) as u8));
        assert(partial(p) =~= Seq::<bool>::empty());
    } else {
        assert(pack(p) =~= pack(bits));
        assert(partial(p) =~= partial(bits).push(b));
    }
}

pub proof fn lemma_with_trailing(bits: Seq<bool>)
    ensures
        with_trailing(bits).len() % 8 == 0,
        with_trailing(bits).len() > bits.len(),
        with_trailing(bits).take(bits.len() as int) == bits,
{
    let n = bits.len() + 1;
    lemma_code_u_len(((8 - n % 8) % 8) as nat, 0);
    assert(with_trailing(bits).take(bits.len() as int) =~= bits);
}

} // verus!
