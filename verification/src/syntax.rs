//! Syntax tables: the sequence of syntax elements that a structure is coded as,
//! the bits of such a sequence, and the reading of elements from bits.
//!
//! A table is written as a chain, in the order of the elements:
//! `syntax().u(4, id).flag(present).when(present, syntax().ue(n))`.

use crate::bits::{
    bit_length, code_u, code_ue, leading_zeros, pow2, signed_number, signed_value, value_of,
};
use crate::bits::{
    lemma_bit_length, lemma_bit_length_bound, lemma_bit_length_unique, lemma_code_of_value,
    lemma_code_u_first, lemma_code_u_len, lemma_code_ue, lemma_code_zeros,
    lemma_leading_zeros_are_zero, lemma_pow2_monotone, lemma_pow2_values, lemma_signed_inverse,
    lemma_value_of_code,
};
use vstd::prelude::*;

verus! {

/// One syntax element with its value.
#[allow(inconsistent_fields)]
pub enum SyntaxElement {
    /// `u(n)`: the `bits` low bits of `value`.
    U { bits: int, value: int },
    /// `ue(v)`: an unsigned Exp-Golomb code.
    Ue { value: int },
    /// `se(v)`: a signed Exp-Golomb code.
    Se { value: int },
    /// A structure that is not coded here.
    Unsupported,
    /// An element whose value is not there, or cannot be computed.
    Missing,
}

/// A flag, coded in one bit.
pub open spec fn flag(value: bool) -> SyntaxElement {
    SyntaxElement::U { bits: 1, value: if value { 1 } else { 0 } }
}

/// A fixed-length element.
pub open spec fn u(bits: int, value: int) -> SyntaxElement {
    SyntaxElement::U { bits, value }
}

/// An unsigned Exp-Golomb element.
pub open spec fn ue(value: int) -> SyntaxElement {
    SyntaxElement::Ue { value }
}

/// A signed Exp-Golomb element.
pub open spec fn se(value: int) -> SyntaxElement {
    SyntaxElement::Se { value }
}

impl SyntaxElement {
    /// The bits of the element.
    pub open spec fn code(self) -> Seq<bool> {
        match self {
            SyntaxElement::U { bits, value } => code_u(bits as nat, value as nat),
            SyntaxElement::Ue { value } => code_ue(value as nat),
            SyntaxElement::Se { value } => code_ue(signed_number(value)),
            SyntaxElement::Unsupported => Seq::empty(),
            SyntaxElement::Missing => Seq::empty(),
        }
    }

    /// Whether the code of the element holds its value in full.
    pub open spec fn fits(self) -> bool {
        match self {
            SyntaxElement::U { bits, value } => 0 <= bits <= 32 && 0 <= value < pow2(bits as nat),
            SyntaxElement::Ue { value } => 0 <= value < 0xffff_ffff,
            SyntaxElement::Se { value } => -0x7fff_ffff <= value <= 0x7fff_ffff,
            SyntaxElement::Unsupported => false,
            SyntaxElement::Missing => false,
        }
    }

    /// Whether the element can be written. A fixed-length value that is too large
    /// for its field is written by its low bits.
    pub open spec fn writes(self) -> bool {
        match self {
            SyntaxElement::U { bits, value } => bits <= 32,
            SyntaxElement::Ue { value } => value < 0xffff_ffff,
            SyntaxElement::Se { value } => true,
            SyntaxElement::Unsupported => false,
            SyntaxElement::Missing => false,
        }
    }

    /// The bits of the element, with `rest` behind them.
    #[verifier::opaque]
    pub open spec fn onto(self, rest: Seq<bool>) -> Seq<bool> {
        self.code() + rest
    }
}

/// A sequence of syntax elements.
#[verifier::ext_equal]
pub struct Syntax {
    pub elements: Seq<SyntaxElement>,
}

/// The empty table.
#[verifier::opaque]
pub open spec fn syntax() -> Syntax {
    Syntax { elements: Seq::empty() }
}

/// The bits of the elements, one behind the other.
pub open spec fn concat_codes(e: Seq<SyntaxElement>) -> Seq<bool>
    decreases e.len(),
{
    if e.len() == 0 {
        Seq::empty()
    } else {
        concat_codes(e.drop_last()) + e.last().code()
    }
}

/// The bits up to the first element that cannot be written, and that element.
pub open spec fn write_all(e: Seq<SyntaxElement>) -> (Seq<bool>, Option<SyntaxElement>)
    decreases e.len(),
{
    if e.len() == 0 {
        (Seq::empty(), None)
    } else {
        let (bits, failure) = write_all(e.drop_last());
        if failure is Some {
            (bits, failure)
        } else if e.last().writes() {
            (bits + e.last().code(), None)
        } else {
            (bits, Some(e.last()))
        }
    }
}

impl Syntax {
    /// Appends one element.
    #[verifier::opaque]
    pub open spec fn element(self, e: SyntaxElement) -> Syntax {
        Syntax { elements: self.elements.push(e) }
    }

    /// Appends a fixed-length element.
    pub open spec fn u(self, bits: int, value: int) -> Syntax {
        self.element(u(bits, value))
    }

    /// Appends a flag.
    pub open spec fn flag(self, value: bool) -> Syntax {
        self.element(flag(value))
    }

    /// Appends an unsigned Exp-Golomb element.
    pub open spec fn ue(self, value: int) -> Syntax {
        self.element(ue(value))
    }

    /// Appends a signed Exp-Golomb element.
    pub open spec fn se(self, value: int) -> Syntax {
        self.element(se(value))
    }

    /// Appends a structure that is not coded here.
    pub open spec fn unsupported(self) -> Syntax {
        self.element(SyntaxElement::Unsupported)
    }

    /// Appends an element whose value is not there, or cannot be computed.
    pub open spec fn missing(self) -> Syntax {
        self.element(SyntaxElement::Missing)
    }

    /// Whether the value of every element is there, up to the first that cannot be written.
    pub open spec fn complete(self) -> bool {
        self.failure() != Some(SyntaxElement::Missing)
    }

    /// Appends a table.
    #[verifier::opaque]
    pub open spec fn part(self, s: Syntax) -> Syntax {
        Syntax { elements: self.elements + s.elements }
    }

    /// Appends a table where `present` holds.
    pub open spec fn when(self, present: bool, s: Syntax) -> Syntax {
        if present {
            self.part(s)
        } else {
            self
        }
    }

    /// The bits of the table.
    #[verifier::opaque]
    pub open spec fn bits(self) -> Seq<bool> {
        concat_codes(self.elements)
    }

    /// The bits in front of the first element that cannot be written.
    #[verifier::opaque]
    pub open spec fn written(self) -> Seq<bool> {
        write_all(self.elements).0
    }

    /// The first element that cannot be written.
    #[verifier::opaque]
    pub open spec fn failure(self) -> Option<SyntaxElement> {
        write_all(self.elements).1
    }

    /// The bits of the table, with `rest` behind them.
    #[verifier::opaque]
    pub open spec fn onto(self, rest: Seq<bool>) -> Seq<bool> {
        self.bits() + rest
    }

    /// Whether the code of every element holds its value in full.
    #[verifier::opaque]
    pub open spec fn fits(self) -> bool {
        forall|i: int| 0 <= i < self.elements.len() ==> (#[trigger] self.elements[i]).fits()
    }
}

/// `n` reserved bits, all zero, in elements of at most 32 bits.
pub open spec fn reserved_zero(n: int) -> Syntax
    decreases n,
{
    if n <= 0 {
        syntax()
    } else if n <= 32 {
        syntax().u(n, 0)
    } else {
        syntax().u(32, 0).part(reserved_zero(n - 32))
    }
}

/// The bits of two sequences of elements, one behind the other.
pub proof fn lemma_concat_codes(a: Seq<SyntaxElement>, b: Seq<SyntaxElement>)
    ensures
        concat_codes(a + b) == concat_codes(a) + concat_codes(b),
    decreases b.len(),
{
    if b.len() == 0 {
        assert(a + b =~= a);
        assert(concat_codes(a) + concat_codes(b) =~= concat_codes(a));
    } else {
        lemma_concat_codes(a, b.drop_last());
        assert((a + b).drop_last() =~= a + b.drop_last());
        assert(concat_codes(a) + concat_codes(b) =~= concat_codes(a) + concat_codes(b.drop_last())
            + b.last().code());
    }
}

pub broadcast proof fn lemma_onto_none(rest: Seq<bool>)
    ensures
        #[trigger] syntax().onto(rest) == rest,
{
    reveal(syntax);
    reveal(Syntax::onto);
    reveal(Syntax::bits);
    assert(syntax().onto(rest) =~= rest);
}

pub broadcast proof fn lemma_onto_element(s: Syntax, e: SyntaxElement, rest: Seq<bool>)
    ensures
        #[trigger] s.element(e).onto(rest) == s.onto(e.onto(rest)),
{
    lemma_bits_element(s, e);
    reveal(Syntax::onto);
    reveal(SyntaxElement::onto);
    assert(s.element(e).onto(rest) =~= s.onto(e.onto(rest)));
}

pub broadcast proof fn lemma_onto_part(a: Syntax, b: Syntax, rest: Seq<bool>)
    ensures
        #[trigger] a.part(b).onto(rest) == a.onto(b.onto(rest)),
{
    reveal(Syntax::part);
    reveal(Syntax::onto);
    reveal(Syntax::bits);
    lemma_concat_codes(a.elements, b.elements);
    assert(a.part(b).onto(rest) =~= a.onto(b.onto(rest)));
}

/// Appending an element appends its code.
pub proof fn lemma_bits_element(s: Syntax, e: SyntaxElement)
    ensures
        s.element(e).bits() == s.bits() + e.code(),
{
    reveal(Syntax::element);
    reveal(Syntax::bits);
    assert(s.elements.push(e).drop_last() =~= s.elements);
}

/// Nothing is written of an empty table.
pub proof fn lemma_written_none()
    ensures
        syntax().written() == Seq::<bool>::empty(),
        syntax().failure() is None,
{
    reveal(syntax);
    reveal(Syntax::written);
    reveal(Syntax::failure);
}

/// What appending an element writes.
pub proof fn lemma_written_element(s: Syntax, e: SyntaxElement)
    ensures
        s.element(e).written() == if s.failure() is None && e.writes() {
            s.written() + e.code()
        } else {
            s.written()
        },
        s.element(e).failure() == if s.failure() is Some {
            s.failure()
        } else if e.writes() {
            None
        } else {
            Some(e)
        },
{
    reveal(Syntax::element);
    reveal(Syntax::written);
    reveal(Syntax::failure);
    assert(s.elements.push(e).drop_last() =~= s.elements);
}

/// Nothing is written behind an element that cannot be written.
pub proof fn lemma_written_after_failure(a: Syntax, b: Syntax)
    requires
        a.failure() is Some,
    ensures
        a.part(b).written() == a.written(),
        a.part(b).failure() == a.failure(),
    decreases b.elements.len(),
{
    reveal(Syntax::part);
    if b.elements.len() == 0 {
        assert(a.part(b) =~= a);
    } else {
        let front = Syntax { elements: b.elements.drop_last() };
        let e = b.elements.last();
        lemma_written_after_failure(a, front);
        lemma_written_element(a.part(front), e);
        reveal(Syntax::element);
        assert(a.part(b) =~= a.part(front).element(e));
    }
}

/// A table whose values all fit is written in full.
pub proof fn lemma_written_fits(s: Syntax)
    requires
        s.fits(),
    ensures
        s.failure() is None,
        s.written() == s.bits(),
    decreases s.elements.len(),
{
    reveal(Syntax::fits);
    reveal(Syntax::written);
    reveal(Syntax::failure);
    reveal(Syntax::bits);
    if s.elements.len() > 0 {
        let front = Syntax { elements: s.elements.drop_last() };
        assert forall|i: int| 0 <= i < front.elements.len()
            implies (#[trigger] front.elements[i]).fits() by {
            assert(front.elements[i] == s.elements[i]);
        }
        lemma_written_fits(front);
        assert(s.elements[s.elements.len() - 1].fits());
    }
}

pub broadcast proof fn lemma_fits_none()
    ensures
        #[trigger] syntax().fits(),
{
    reveal(syntax);
    reveal(Syntax::fits);
}

pub broadcast proof fn lemma_fits_element(s: Syntax, e: SyntaxElement)
    ensures
        #[trigger] s.element(e).fits() <==> s.fits() && e.fits(),
{
    reveal(Syntax::element);
    reveal(Syntax::fits);
    let t = s.element(e);
    if t.fits() {
        assert(t.elements[s.elements.len() as int] == e);
        assert forall|i: int| 0 <= i < s.elements.len()
            implies (#[trigger] s.elements[i]).fits() by {
            assert(t.elements[i] == s.elements[i]);
        }
    }
}

pub broadcast proof fn lemma_fits_part(a: Syntax, b: Syntax)
    ensures
        #[trigger] a.part(b).fits() <==> a.fits() && b.fits(),
{
    reveal(Syntax::part);
    reveal(Syntax::fits);
    let t = a.part(b);
    if t.fits() {
        assert forall|i: int| 0 <= i < a.elements.len()
            implies (#[trigger] a.elements[i]).fits() by {
            assert(t.elements[i] == a.elements[i]);
        }
        assert forall|i: int| 0 <= i < b.elements.len()
            implies (#[trigger] b.elements[i]).fits() by {
            assert(t.elements[i + a.elements.len()] == b.elements[i]);
        }
    }
}

/// The bits and the fitting of a table, element by element from the front.
pub broadcast group group_onto {
    lemma_onto_none,
    lemma_onto_element,
    lemma_onto_part,
    lemma_fits_none,
    lemma_fits_element,
    lemma_fits_part,
}

/// A table whose values all fit has at most 63 bits for each element.
pub proof fn lemma_bits_len(s: Syntax)
    requires
        s.fits(),
    ensures
        s.bits().len() <= 63 * s.elements.len(),
    decreases s.elements.len(),
{
    reveal(Syntax::fits);
    reveal(Syntax::bits);
    if s.elements.len() > 0 {
        let front = Syntax { elements: s.elements.drop_last() };
        let e = s.elements.last();
        assert forall|i: int| 0 <= i < front.elements.len()
            implies (#[trigger] front.elements[i]).fits() by {
            assert(front.elements[i] == s.elements[i]);
        }
        lemma_bits_len(front);
        assert(s.elements[s.elements.len() - 1].fits());
        lemma_pow2_values();
        match e {
            SyntaxElement::U { bits, value } => {
                lemma_code_u_len(bits as nat, value as nat);
            },
            SyntaxElement::Ue { value } => {
                lemma_code_ue(value as nat);
                lemma_bit_length_bound(value as nat + 1, 32);
            },
            SyntaxElement::Se { value } => {
                lemma_code_ue(signed_number(value));
                lemma_bit_length_bound(signed_number(value) + 1, 32);
            },
            SyntaxElement::Unsupported => {},
            SyntaxElement::Missing => {},
        }
    }
}

pub broadcast proof fn lemma_len_none()
    ensures
        #[trigger] syntax().elements.len() == 0,
{
    reveal(syntax);
}

pub broadcast proof fn lemma_len_element(s: Syntax, e: SyntaxElement)
    ensures
        #[trigger] s.element(e).elements.len() == s.elements.len() + 1,
{
    reveal(Syntax::element);
}

pub broadcast proof fn lemma_len_part(a: Syntax, b: Syntax)
    ensures
        #[trigger] a.part(b).elements.len() == a.elements.len() + b.elements.len(),
{
    reveal(Syntax::part);
}

/// The number of elements of a table.
pub broadcast group group_len {
    lemma_len_none,
    lemma_len_element,
    lemma_len_part,
}

pub broadcast proof fn lemma_bit_count_none()
    ensures
        #[trigger] syntax().bits().len() == 0,
{
    reveal(syntax);
    reveal(Syntax::bits);
}

pub broadcast proof fn lemma_bit_count_u(s: Syntax, bits: int, value: int)
    requires
        bits >= 0,
    ensures
        #[trigger] s.element(u(bits, value)).bits().len() == s.bits().len() + bits,
{
    lemma_bits_element(s, u(bits, value));
    lemma_code_u_len(bits as nat, value as nat);
}

pub broadcast proof fn lemma_bit_count_flag(s: Syntax, value: bool)
    ensures
        #[trigger] s.element(flag(value)).bits().len() == s.bits().len() + 1,
{
    lemma_bits_element(s, flag(value));
    lemma_code_u_len(1, if value { 1 } else { 0 });
}

pub broadcast proof fn lemma_bit_count_part(a: Syntax, b: Syntax)
    ensures
        #[trigger] a.part(b).bits().len() == a.bits().len() + b.bits().len(),
{
    reveal(Syntax::part);
    reveal(Syntax::bits);
    lemma_concat_codes(a.elements, b.elements);
}

/// The number of bits of a table of fixed-length elements.
pub broadcast group group_bit_count {
    lemma_bit_count_none,
    lemma_bit_count_u,
    lemma_bit_count_flag,
    lemma_bit_count_part,
}

pub broadcast proof fn lemma_part_none(t: Syntax)
    ensures
        #[trigger] t.part(syntax()) == t,
{
    reveal(Syntax::part);
    reveal(syntax);
    assert(t.part(syntax()) =~= t);
}

pub broadcast proof fn lemma_part_element(t: Syntax, s: Syntax, e: SyntaxElement)
    ensures
        #[trigger] t.part(s.element(e)) == t.part(s).element(e),
{
    reveal(Syntax::part);
    reveal(Syntax::element);
    assert(t.part(s.element(e)) =~= t.part(s).element(e));
}

pub broadcast proof fn lemma_part_part(t: Syntax, a: Syntax, b: Syntax)
    ensures
        #[trigger] t.part(a.part(b)) == t.part(a).part(b),
{
    reveal(Syntax::part);
    assert(t.part(a.part(b)) =~= t.part(a).part(b));
}

/// A table behind a table, element by element.
pub broadcast group group_append {
    lemma_part_none,
    lemma_part_element,
    lemma_part_part,
}

/// What is left to read: the bits behind the reading position, or `None` once a
/// read has failed.
pub type Input = Option<Seq<bool>>;

/// Reads `n` bits as a number.
#[verifier::opaque]
pub open spec fn read_u(input: Input, n: int) -> (int, Input) {
    match input {
        Some(s) if 0 <= n <= 32 && n <= s.len() => (value_of(s.take(n)) as int, Some(s.skip(n))),
        _ => (0, None),
    }
}

/// Reads one bit as a flag.
#[verifier::opaque]
pub open spec fn read_flag(input: Input) -> (bool, Input) {
    (read_u(input, 1).0 == 1, read_u(input, 1).1)
}

/// Reads an Exp-Golomb code whose number has at most 32 digits.
#[verifier::opaque]
pub open spec fn read_code_number(input: Input) -> (int, Input) {
    match input {
        Some(s) if leading_zeros(s) <= 31 && 2 * leading_zeros(s) + 1 <= s.len() => {
            let k = leading_zeros(s) as int;
            (value_of(s.subrange(k, 2 * k + 1)) - 1, Some(s.skip(2 * k + 1)))
        },
        _ => (0, None),
    }
}

/// Reads an unsigned Exp-Golomb code and refuses a value above `max`.
#[verifier::opaque]
pub open spec fn read_ue(input: Input, max: int) -> (int, Input) {
    let (v, rest) = read_code_number(input);
    if v <= max {
        (v, rest)
    } else {
        (0, None)
    }
}

/// Reads a signed Exp-Golomb code and refuses a value outside `min..=max`.
#[verifier::opaque]
pub open spec fn read_se(input: Input, min: int, max: int) -> (int, Input) {
    let (k, rest) = read_code_number(input);
    if min <= signed_value(k) <= max {
        (signed_value(k), rest)
    } else {
        (0, None)
    }
}

/// Reads on only where `condition` holds.
#[verifier::opaque]
pub open spec fn guard(input: Input, condition: bool) -> Input {
    if condition {
        input
    } else {
        None
    }
}

pub broadcast proof fn lemma_read_u_back(bits: int, value: int, rest: Seq<bool>)
    requires
        u(bits, value).fits(),
    ensures
        #[trigger] read_u(Some(u(bits, value).onto(rest)), bits) == (value, Some(rest)),
{
    reveal(read_u);
    reveal(SyntaxElement::onto);
    let n = bits as nat;
    let v = value as nat;
    lemma_code_u_len(n, v);
    lemma_value_of_code(n, v);
    let s = u(bits, value).onto(rest);
    assert(s.take(bits) =~= code_u(n, v));
    assert(s.skip(bits) =~= rest);
}

pub broadcast proof fn lemma_read_u(input: Input, n: int)
    ensures
        (#[trigger] read_u(input, n)).1 matches Some(rest) ==> u(n, read_u(input, n).0).fits()
            && input == Some(u(n, read_u(input, n).0).onto(rest)),
        0 <= read_u(input, n).0 < 0x1_0000_0000,
        0 <= n <= 32 ==> read_u(input, n).0 < pow2(n as nat),
{
    reveal(read_u);
    reveal(SyntaxElement::onto);
    lemma_pow2_values();
    if 0 <= n <= 32 {
        lemma_pow2_monotone(0, n as nat);
    }
    if let Some(s) = input {
        if 0 <= n <= 32 && n <= s.len() {
            lemma_code_of_value(s.take(n));
            lemma_pow2_monotone(n as nat, 32);
            assert(s =~= s.take(n) + s.skip(n));
        }
    }
}

pub broadcast proof fn lemma_read_flag_back(value: bool, rest: Seq<bool>)
    ensures
        #[trigger] read_flag(Some(flag(value).onto(rest))) == (value, Some(rest)),
{
    reveal(read_flag);
    lemma_pow2_values();
    lemma_read_u_back(1, if value { 1 } else { 0 }, rest);
}

pub broadcast proof fn lemma_read_flag(input: Input)
    ensures
        (#[trigger] read_flag(input)).1 matches Some(rest) ==> flag(read_flag(input).0).fits()
            && input == Some(flag(read_flag(input).0).onto(rest)),
{
    reveal(read_flag);
    lemma_pow2_values();
    lemma_read_u(input, 1);
}

pub proof fn lemma_flag_fits(value: bool)
    ensures
        flag(value).fits(),
{
    lemma_pow2_values();
}

proof fn lemma_code_number_back(v: nat, rest: Seq<bool>)
    requires
        v < 0xffff_ffff,
    ensures
        read_code_number(Some(code_ue(v) + rest)) == (v as int, Some(rest)),
{
    reveal(read_code_number);
    let s = code_ue(v) + rest;
    let n = bit_length(v + 1);
    let k = n - 1;
    lemma_code_ue(v);
    lemma_pow2_values();
    lemma_bit_length_bound(v + 1, 32);
    lemma_bit_length(v + 1);
    assert(leading_zeros(s) == k);
    assert(s.subrange(k, 2 * k + 1) =~= code_ue(v).skip(k));
    lemma_value_of_code(n, v + 1);
    assert(s.skip(2 * k + 1) =~= rest);
}

/// What reading the number of an Exp-Golomb code tells of the bits.
pub proof fn lemma_code_number(input: Input)
    ensures
        read_code_number(input).1 matches Some(rest)
            ==> 0 <= read_code_number(input).0 < 0xffff_ffff
            && input == Some(code_ue(read_code_number(input).0 as nat) + rest),
        0 <= read_code_number(input).0 < 0xffff_ffff,
{
    reveal(read_code_number);
    if let Some(s) = input {
        if leading_zeros(s) <= 31 && 2 * leading_zeros(s) + 1 <= s.len() {
            let k = leading_zeros(s) as int;
            let digits = s.subrange(k, 2 * k + 1);
            let v = value_of(digits);
            lemma_leading_zeros_are_zero(s);
            lemma_code_of_value(digits);
            lemma_code_u_first((k + 1) as nat, v);
            lemma_pow2_values();
            lemma_pow2_monotone((k + 1) as nat, 32);
            lemma_pow2_monotone(0, k as nat);
            assert(digits[0]);
            lemma_bit_length_unique(v, (k + 1) as nat);
            lemma_code_zeros(k as nat);
            assert(s =~= code_u(k as nat, 0) + digits + s.skip(2 * k + 1));
        }
    }
}

pub broadcast proof fn lemma_read_ue_back(value: int, rest: Seq<bool>, max: int)
    requires
        ue(value).fits(),
        value <= max,
    ensures
        #[trigger] read_ue(Some(ue(value).onto(rest)), max) == (value, Some(rest)),
{
    reveal(read_ue);
    reveal(SyntaxElement::onto);
    lemma_code_number_back(value as nat, rest);
}

pub broadcast proof fn lemma_read_ue(input: Input, max: int)
    ensures
        (#[trigger] read_ue(input, max)).1 matches Some(rest) ==> ue(read_ue(input, max).0).fits()
            && input == Some(ue(read_ue(input, max).0).onto(rest)),
        0 <= read_ue(input, max).0,
        max >= 0 ==> read_ue(input, max).0 <= max,
        read_ue(input, max).0 < 0xffff_ffff,
{
    reveal(read_ue);
    reveal(SyntaxElement::onto);
    lemma_code_number(input);
}

pub broadcast proof fn lemma_read_se_back(value: int, rest: Seq<bool>, min: int, max: int)
    requires
        se(value).fits(),
        min <= value <= max,
    ensures
        #[trigger] read_se(Some(se(value).onto(rest)), min, max) == (value, Some(rest)),
{
    reveal(read_se);
    reveal(SyntaxElement::onto);
    lemma_code_number_back(signed_number(value), rest);
    lemma_signed_inverse(value);
}

pub broadcast proof fn lemma_read_se(input: Input, min: int, max: int)
    ensures
        (#[trigger] read_se(input, min, max)).1 matches Some(rest)
            ==> se(read_se(input, min, max).0).fits()
            && input == Some(se(read_se(input, min, max).0).onto(rest)),
        min <= 0 <= max ==> min <= read_se(input, min, max).0 <= max,
{
    reveal(read_se);
    reveal(SyntaxElement::onto);
    lemma_code_number(input);
    let k = read_code_number(input).0;
    assert(signed_number(signed_value(k)) == k);
}

pub broadcast proof fn lemma_guard(input: Input, condition: bool)
    ensures
        (#[trigger] guard(input, condition)) is Some
            ==> condition && guard(input, condition) == input,
        condition ==> guard(input, condition) == input,
{
    reveal(guard);
}

/// What reading an element tells of the bits, and what the bits of an element
/// read as.
pub broadcast group group_read {
    lemma_read_u_back,
    lemma_read_u,
    lemma_read_flag_back,
    lemma_read_flag,
    lemma_read_ue_back,
    lemma_read_ue,
    lemma_read_se_back,
    lemma_read_se,
    lemma_guard,
}

} // verus!
