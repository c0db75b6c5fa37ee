//! How a decoder reads a stream: numbers from bits, by the descriptors of their syntax elements.
//!
//! What is written is held against this reading, which shares nothing with the writer.

use crate::bits::{
    bit_length, bits_of, code_u, code_ue, lemma_bit_length, lemma_bits_of_chunk, lemma_bits_of_len,
    lemma_code_u_first, lemma_code_u_len, lemma_code_of_value, lemma_code_ue, lemma_code_zeros, lemma_pow2_pos, lemma_pow2_values,
    lemma_value_of_code, lemma_with_trailing, pack, pow2, signed_number, value_of, with_trailing,
};
use crate::syntax::{concat_codes, lemma_concat_codes, syntax, Syntax, SyntaxElement};
use vstd::prelude::*;

verus! {

/// The number that binary digits stand for, the first digit having the highest weight.
pub open spec fn number(digits: Seq<bool>) -> int
    decreases digits.len(),
{
    if digits.len() == 0 {
        0
    } else {
        (if digits[0] {
            pow2((digits.len() - 1) as nat) as int
        } else {
            0
        }) + number(digits.skip(1))
    }
}

/// How many zeros precede the first one.
pub open spec fn zeros(bits: Seq<bool>) -> int
    decreases bits.len(),
{
    if bits.len() == 0 || bits[0] {
        0
    } else {
        1 + zeros(bits.skip(1))
    }
}

/// An Exp-Golomb code: some zeros, a one, and as many digits as there were zeros. The number of
/// shorter codes, and the digits, make up its number (9.2).
pub open spec fn exp_golomb(bits: Seq<bool>) -> Option<(int, Seq<bool>)> {
    let k = zeros(bits);
    if bits.len() < 2 * k + 1 {
        None
    } else {
        Some(
            (
                pow2(k as nat) - 1 + number(bits.subrange(k + 1, 2 * k + 1)),
                bits.skip(2 * k + 1),
            ),
        )
    }
}

/// What is left of the bits where they begin with an element: `u(n)` is a number of `n` digits,
/// `ue(v)` the number of an Exp-Golomb code, and `se(v)` the numbers `1, 2, 3, 4, ...` read as
/// `1, -1, 2, -2, ...`.
pub open spec fn read(bits: Seq<bool>, e: SyntaxElement) -> Option<Seq<bool>> {
    match e {
        SyntaxElement::U { bits: n, value } => {
            if 0 <= n <= bits.len() && number(bits.take(n)) == value {
                Some(bits.skip(n))
            } else {
                None
            }
        },
        SyntaxElement::Ue { value } => match exp_golomb(bits) {
            Some((k, rest)) => if k == value {
                Some(rest)
            } else {
                None
            },
            None => None,
        },
        SyntaxElement::Se { value } => match exp_golomb(bits) {
            Some((k, rest)) => if k % 2 == 1 && value == (k + 1) / 2 || k % 2 == 0 && value == -(k
                / 2) {
                Some(rest)
            } else {
                None
            },
            None => None,
        },
        SyntaxElement::Unsupported => None,
        SyntaxElement::Missing => None,
    }
}

/// What is left of the bits where they begin with these elements.
pub open spec fn reads(bits: Seq<bool>, list: Seq<SyntaxElement>) -> Option<Seq<bool>>
    decreases list.len(),
{
    if list.len() == 0 {
        Some(bits)
    } else {
        match read(bits, list[0]) {
            Some(rest) => reads(rest, list.skip(1)),
            None => None,
        }
    }
}

/// The bits of bytes, of each the one of the highest weight first.
pub open spec fn bit_string(bytes: Seq<u8>) -> Seq<bool> {
    Seq::new(
        8 * bytes.len(),
        |k: int| (bytes[k / 8] as int / pow2((7 - k % 8) as nat) as int) % 2 == 1,
    )
}

/// Whether a table consists of these elements, in this order.
pub open spec fn consists_of(table: Syntax, elements: Elements) -> bool {
    table.elements == elements.list
}

/// Whether bits are a one with zeros behind it, up to seven.
pub open spec fn is_trailing(bits: Seq<bool>) -> bool {
    &&& 1 <= bits.len() <= 8
    &&& bits[0]
    &&& forall|i: int| 1 <= i < bits.len() ==> !#[trigger] bits[i]
}

/// Whether the bytes hold these elements, in this order, and the trailing bits.
pub open spec fn holds(bytes: Seq<u8>, list: Seq<SyntaxElement>) -> bool {
    reads(bit_string(bytes), list) matches Some(rest) && is_trailing(rest)
}

/// Syntax elements in the order in which they are read.
pub struct Elements {
    pub list: Seq<SyntaxElement>,
}

/// No elements.
pub open spec fn elements() -> Elements {
    Elements { list: Seq::empty() }
}

/// The elements of a table.
pub open spec fn told(table: Syntax) -> Elements {
    Elements { list: table.elements }
}

impl Elements {
    /// With `u(n)` behind them.
    #[verifier::opaque]
    pub open spec fn bits(self, n: int, value: int) -> Elements {
        Elements { list: self.list.push(SyntaxElement::U { bits: n, value }) }
    }

    /// With `u(1)` of a flag behind them.
    pub open spec fn bit(self, value: bool) -> Elements {
        self.bits(1, if value { 1 } else { 0 })
    }

    /// With `ue(v)` behind them.
    #[verifier::opaque]
    pub open spec fn unsigned(self, value: int) -> Elements {
        Elements { list: self.list.push(SyntaxElement::Ue { value }) }
    }

    /// With `se(v)` behind them.
    #[verifier::opaque]
    pub open spec fn signed(self, value: int) -> Elements {
        Elements { list: self.list.push(SyntaxElement::Se { value }) }
    }

    /// With a structure behind them that is not coded.
    #[verifier::opaque]
    pub open spec fn unsupported(self) -> Elements {
        Elements { list: self.list.push(SyntaxElement::Unsupported) }
    }

    /// With others behind them.
    pub open spec fn all(self, others: Elements) -> Elements {
        Elements { list: self.list + others.list }
    }

    /// With others behind them under a condition.
    #[verifier::opaque]
    pub open spec fn only(self, present: bool, others: Elements) -> Elements {
        if present {
            self.all(others)
        } else {
            self
        }
    }
}

/// The elements of rows, one row behind the other.
pub open spec fn joined(rows: Seq<Elements>) -> Elements
    decreases rows.len(),
{
    if rows.len() == 0 {
        elements()
    } else {
        rows[0].all(joined(rows.skip(1)))
    }
}

pub broadcast proof fn lemma_elements_none()
    ensures
        #[trigger] syntax().elements == Seq::<SyntaxElement>::empty(),
{
    reveal(syntax);
}

pub broadcast proof fn lemma_elements_push(s: Syntax, e: SyntaxElement)
    ensures
        #[trigger] s.element(e).elements == s.elements.push(e),
{
    reveal(Syntax::element);
}

pub broadcast proof fn lemma_elements_part(a: Syntax, b: Syntax)
    ensures
        #[trigger] a.part(b).elements == a.elements + b.elements,
{
    reveal(Syntax::part);
}

pub broadcast proof fn lemma_bits(s: Elements, n: int, value: int)
    ensures
        #[trigger] s.bits(n, value).list == s.list.push(SyntaxElement::U { bits: n, value }),
{
    reveal(Elements::bits);
}

pub broadcast proof fn lemma_unsigned(s: Elements, value: int)
    ensures
        #[trigger] s.unsigned(value).list == s.list.push(SyntaxElement::Ue { value }),
{
    reveal(Elements::unsigned);
}

pub broadcast proof fn lemma_signed(s: Elements, value: int)
    ensures
        #[trigger] s.signed(value).list == s.list.push(SyntaxElement::Se { value }),
{
    reveal(Elements::signed);
}

pub broadcast proof fn lemma_unsupported(s: Elements)
    ensures
        #[trigger] s.unsupported().list == s.list.push(SyntaxElement::Unsupported),
{
    reveal(Elements::unsupported);
}

pub broadcast proof fn lemma_only(s: Elements, present: bool, others: Elements)
    ensures
        #[trigger] s.only(present, others) == if present {
            s.all(others)
        } else {
            s
        },
{
    reveal(Elements::only);
}

/// The elements of a table, one behind the other.
pub broadcast group group_elements {
    lemma_elements_none,
    lemma_elements_push,
    lemma_elements_part,
    lemma_bits,
    lemma_unsigned,
    lemma_signed,
    lemma_unsupported,
    lemma_only,
}

/// The rows from `i` are row `i` and those behind it.
pub proof fn lemma_rows(rows: Seq<Elements>, i: int)
    requires
        0 <= i < rows.len(),
    ensures
        joined(rows.skip(i)) == rows[i].all(joined(rows.skip(i + 1))),
{
    assert(rows.skip(i).skip(1) =~= rows.skip(i + 1));
    assert(rows.skip(i)[0] == rows[i]);
}

/// There are no rows behind the last.
pub proof fn lemma_no_rows(rows: Seq<Elements>)
    ensures
        joined(rows.skip(rows.len() as int)) == elements(),
{
}

pub proof fn lemma_number(digits: Seq<bool>)
    ensures
        number(digits) == value_of(digits),
    decreases digits.len(),
{
    if digits.len() > 0 {
        lemma_number_first(digits);
        lemma_number(digits.skip(1));
    }
}

/// The first digit adds its weight.
proof fn lemma_number_first(digits: Seq<bool>)
    requires
        digits.len() > 0,
    ensures
        value_of(digits) == value_of(digits.skip(1)) + if digits[0] {
            pow2((digits.len() - 1) as nat)
        } else {
            0nat
        },
    decreases digits.len(),
{
    let rest = digits.skip(1);
    if digits.len() == 1 {
        assert(digits.drop_last() =~= Seq::<bool>::empty());
        assert(rest =~= Seq::<bool>::empty());
        reveal_with_fuel(value_of, 2);
        assert(pow2(0) == 1);
    } else {
        lemma_number_first(digits.drop_last());
        assert(digits.drop_last().skip(1) =~= rest.drop_last());
        assert(rest.last() == digits.last());
        assert(digits.drop_last()[0] == digits[0]);
    }
}

proof fn lemma_zeros(bits: Seq<bool>, k: int)
    requires
        0 <= k < bits.len(),
        bits[k],
        forall|i: int| 0 <= i < k ==> !#[trigger] bits[i],
    ensures
        zeros(bits) == k,
    decreases k,
{
    if k > 0 {
        assert(!bits[0]);
        let t = bits.skip(1);
        assert forall|i: int| 0 <= i < k - 1 implies !#[trigger] t[i] by {
            assert(t[i] == bits[i + 1]);
        }
        lemma_zeros(t, k - 1);
    }
}

proof fn lemma_code_is_read(v: nat, rest: Seq<bool>)
    ensures
        exp_golomb(code_ue(v) + rest) == Some((v as int, rest)),
{
    let n = bit_length(v + 1);
    let k = n - 1;
    let s = code_ue(v) + rest;
    lemma_bit_length(v + 1);
    lemma_code_ue(v);
    lemma_code_u_len(k as nat, 0);
    lemma_code_u_len(n, v + 1);
    lemma_code_zeros(k as nat);
    lemma_code_u_first(n, v + 1);
    let digits = code_u(n, v + 1);
    assert forall|i: int| 0 <= i < k implies !#[trigger] s[i] by {
        assert(s[i] == code_u(k as nat, 0)[i]);
    }
    assert(s[k] == digits[0]);
    lemma_zeros(s, k);
    lemma_value_of_code(n, v + 1);
    lemma_number_first(digits);
    assert(s.subrange(k + 1, 2 * k + 1) =~= digits.skip(1));
    lemma_number(digits.skip(1));
    assert(s.skip(2 * k + 1) =~= rest);
}

/// The code of an element is read as its value.
pub proof fn lemma_element_is_read(e: SyntaxElement, rest: Seq<bool>)
    requires
        e.fits(),
    ensures
        read(e.code() + rest, e) == Some(rest),
{
    let s = e.code() + rest;
    match e {
        SyntaxElement::U { bits, value } => {
            lemma_code_u_len(bits as nat, value as nat);
            lemma_value_of_code(bits as nat, value as nat);
            assert(s.take(bits) =~= e.code());
            lemma_number(e.code());
            assert(s.skip(bits) =~= rest);
        },
        SyntaxElement::Ue { value } => {
            lemma_code_is_read(value as nat, rest);
        },
        SyntaxElement::Se { value } => {
            lemma_code_is_read(signed_number(value), rest);
        },
        SyntaxElement::Unsupported => {},
        SyntaxElement::Missing => {},
    }
}

proof fn lemma_list_is_read(list: Seq<SyntaxElement>, rest: Seq<bool>)
    requires
        forall|i: int| 0 <= i < list.len() ==> (#[trigger] list[i]).fits(),
    ensures
        reads(concat_codes(list) + rest, list) == Some(rest),
    decreases list.len(),
{
    if list.len() == 0 {
        assert(concat_codes(list) + rest =~= rest);
    } else {
        let e = list[0];
        let tail = list.skip(1);
        assert(list =~= seq![e] + tail);
        lemma_concat_codes(seq![e], tail);
        assert(seq![e].drop_last() =~= Seq::<SyntaxElement>::empty());
        assert(concat_codes(seq![e]) =~= e.code()) by {
            reveal_with_fuel(concat_codes, 2);
        }
        assert forall|i: int| 0 <= i < tail.len() implies (#[trigger] tail[i]).fits() by {
            assert(tail[i] == list[i + 1]);
        }
        lemma_element_is_read(e, concat_codes(tail) + rest);
        assert(concat_codes(list) + rest =~= e.code() + (concat_codes(tail) + rest));
        lemma_list_is_read(tail, rest);
    }
}

/// The bits of a table whose values fit are read as its elements, whatever follows.
pub proof fn law_table_is_read(table: Syntax, rest: Seq<bool>)
    requires
        table.fits(),
    ensures
        reads(table.bits() + rest, table.elements) == Some(rest),
{
    reveal(Syntax::fits);
    reveal(Syntax::bits);
    lemma_list_is_read(table.elements, rest);
}

/// Digit `m` of a number.
proof fn lemma_digit(digits: Seq<bool>, m: int)
    requires
        0 <= m < digits.len(),
    ensures
        (value_of(digits) as int / pow2((digits.len() - 1 - m) as nat) as int) % 2 == if digits[m] {
            1int
        } else {
            0int
        },
    decreases digits.len(),
{
    let front = value_of(digits.drop_last()) as int;
    if m == digits.len() - 1 {
        assert(pow2(0) == 1);
        assert(value_of(digits) as int / 1 == value_of(digits));
    } else {
        lemma_digit(digits.drop_last(), m);
        let p = pow2((digits.len() - 2 - m) as nat) as int;
        lemma_pow2_pos((digits.len() - 2 - m) as nat);
        let v = value_of(digits) as int;
        assert(v / 2 == front);
        assert((digits.len() - 2 - m) as nat == ((digits.len() - 1 - m) as nat - 1) as nat);
        assert(pow2((digits.len() - 1 - m) as nat) == 2 * p);
        vstd::arithmetic::div_mod::lemma_div_denominator(v, 2, p);
        assert(digits.drop_last()[m] == digits[m]);
        assert(v / (2 * p) == front / p);
        assert((digits.drop_last().len() - 1 - m) as nat == (digits.len() - 2 - m) as nat);
    }
}

/// Bits that make up whole bytes are those of the bytes.
pub proof fn lemma_bit_string(bits: Seq<bool>)
    requires
        bits.len() % 8 == 0,
    ensures
        bit_string(pack(bits)) == bits,
{
    assert forall|k: int| 0 <= k < bits.len() implies #[trigger] bit_string(pack(bits))[k]
        == bits[k] by {
        let j = k / 8;
        let byte = bits.subrange(8 * j, 8 * j + 8);
        lemma_code_of_value(byte);
        lemma_pow2_values();
        lemma_digit(byte, k % 8);
        assert(byte[k % 8] == bits[k]);
    }
    assert(bit_string(pack(bits)) =~= bits);
}

/// The bytes of a table whose values fit, with the trailing bits, hold its elements.
pub proof fn law_bytes_hold_the_elements(table: Syntax)
    requires
        table.fits(),
    ensures
        holds(pack(with_trailing(table.bits())), table.elements),
{
    let bits = table.bits();
    let all = with_trailing(bits);
    lemma_with_trailing(bits);
    lemma_bit_string(all);
    let rest = all.skip(bits.len() as int);
    assert(all =~= bits + rest);
    law_table_is_read(table, rest);
    let n = ((8 - (bits.len() + 1) % 8) % 8) as nat;
    lemma_code_zeros(n);
    assert(rest =~= seq![true] + code_u(n, 0));
    assert forall|i: int| 1 <= i < rest.len() implies !#[trigger] rest[i] by {
        assert(rest[i] == code_u(n, 0)[i - 1]);
    }
}

/// The bits of bytes, most significant bit first.
pub proof fn lemma_bits_are_the_bit_string(bytes: Seq<u8>)
    ensures
        bits_of(bytes) == bit_string(bytes),
{
    let bits = bits_of(bytes);
    lemma_bits_of_len(bytes);
    lemma_pow2_values();
    assert forall|j: int| 0 <= j < bytes.len() implies #[trigger] pack(bits)[j] == bytes[j] by {
        lemma_bits_of_chunk(bytes, j);
        lemma_value_of_code(8, bytes[j] as nat);
    }
    assert(pack(bits) =~= bytes);
    lemma_bit_string(bits);
}

/// What a structure was read from holds its elements, in front of what follows them.
pub open spec fn was_read(rbsp: Seq<u8>, elements: Seq<SyntaxElement>) -> bool {
    reads(bit_string(rbsp), elements) is Some
}

/// A structure whose table the bits start with was read from them.
pub proof fn lemma_was_read(rbsp: Seq<u8>, table: Syntax)
    requires
        table.fits(),
        exists|rest: Seq<bool>| bits_of(rbsp) == #[trigger] table.onto(rest),
    ensures
        was_read(rbsp, table.elements),
{
    let rest = choose|rest: Seq<bool>| bits_of(rbsp) == #[trigger] table.onto(rest);
    lemma_bits_are_the_bit_string(rbsp);
    reveal(Syntax::onto);
    law_table_is_read(table, rest);
}

} // verus!
