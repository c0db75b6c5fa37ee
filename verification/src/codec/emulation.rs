//! Emulation prevention: the byte `3` that keeps start codes out of a NAL unit.

use vstd::prelude::*;

verus! {

/// A byte sequence with emulation prevention bytes put in, and the number of zero
/// bytes at its end that count towards the next one.
pub open spec fn escape_state(bytes: Seq<u8>) -> (Seq<u8>, int)
    decreases bytes.len(),
{
    if bytes.len() == 0 {
        (Seq::empty(), 0)
    } else {
        let (out, zeros) = escape_state(bytes.drop_last());
        let b = bytes.last();
        if zeros >= 2 && b <= 3 {
            (out.push(3).push(b), if b == 0 { 1 } else { 0 })
        } else {
            (out.push(b), if b == 0 { zeros + 1 } else { 0 })
        }
    }
}

/// `bytes` with a byte `3` in front of each byte of at most `3` that follows two
/// zero bytes.
pub open spec fn escape(bytes: Seq<u8>) -> Seq<u8> {
    escape_state(bytes).0
}

/// A byte sequence with emulation prevention bytes taken out, and the number of zero
/// bytes at its end.
pub open spec fn unescape_state(bytes: Seq<u8>) -> (Seq<u8>, int)
    decreases bytes.len(),
{
    if bytes.len() == 0 {
        (Seq::empty(), 0)
    } else {
        let (out, zeros) = unescape_state(bytes.drop_last());
        let b = bytes.last();
        if zeros >= 2 && b == 3 {
            (out, 0)
        } else {
            (out.push(b), if b == 0 { zeros + 1 } else { 0 })
        }
    }
}

/// `bytes` without the bytes `3` that follow two zero bytes.
pub open spec fn unescape(bytes: Seq<u8>) -> Seq<u8> {
    unescape_state(bytes).0
}

/// Whether a start code, or three zero bytes, lies at position `i`.
pub open spec fn start_code_at(bytes: Seq<u8>, i: int) -> bool {
    0 <= i && i + 2 < bytes.len() && bytes[i] == 0 && bytes[i + 1] == 0 && bytes[i + 2] <= 1
}

/// Whether two zero bytes and a byte of at most `2` lie at position `i`: what must not occur
/// within a NAL unit.
pub open spec fn reserved_at(bytes: Seq<u8>, i: int) -> bool {
    0 <= i && i + 2 < bytes.len() && bytes[i] == 0 && bytes[i + 1] == 0 && bytes[i + 2] <= 2
}

pub proof fn lemma_escape_push(bytes: Seq<u8>, b: u8)
    ensures
        escape_state(bytes.push(b)) == {
            let (out, zeros) = escape_state(bytes);
            if zeros >= 2 && b <= 3 {
                (out.push(3).push(b), if b == 0 { 1int } else { 0int })
            } else {
                (out.push(b), if b == 0 { zeros + 1 } else { 0int })
            }
        },
{
    assert(bytes.push(b).drop_last() =~= bytes);
}

pub proof fn lemma_unescape_push(bytes: Seq<u8>, b: u8)
    ensures
        unescape_state(bytes.push(b)) == {
            let (out, zeros) = unescape_state(bytes);
            if zeros >= 2 && b == 3 {
                (out, 0int)
            } else {
                (out.push(b), if b == 0 { zeros + 1 } else { 0int })
            }
        },
{
    assert(bytes.push(b).drop_last() =~= bytes);
}

pub proof fn lemma_escape_zeros(bytes: Seq<u8>)
    ensures
        0 <= escape_state(bytes).1 <= 2,
        escape(bytes).len() >= bytes.len(),
        escape(bytes).len() >= escape_state(bytes).1,
    decreases bytes.len(),
{
    if bytes.len() > 0 {
        lemma_escape_zeros(bytes.drop_last());
    }
}

proof fn lemma_unescape_escape_state(bytes: Seq<u8>)
    ensures
        unescape_state(escape(bytes)) == (bytes, escape_state(bytes).1),
    decreases bytes.len(),
{
    if bytes.len() > 0 {
        let front = bytes.drop_last();
        let b = bytes.last();
        lemma_unescape_escape_state(front);
        lemma_escape_zeros(front);
        let (out, zeros) = escape_state(front);
        assert(front.push(b) =~= bytes);
        if zeros >= 2 && b <= 3 {
            lemma_unescape_push(out, 3);
            lemma_unescape_push(out.push(3), b);
        } else {
            lemma_unescape_push(out, b);
        }
    } else {
        assert(bytes =~= Seq::<u8>::empty());
    }
}

/// Taking the emulation prevention bytes out gives back what they were put into.
pub proof fn lemma_unescape_escape(bytes: Seq<u8>)
    ensures
        unescape(escape(bytes)) == bytes,
{
    lemma_unescape_escape_state(bytes);
}

proof fn lemma_escape_state_clean(bytes: Seq<u8>)
    ensures
        forall|i: int| !#[trigger] reserved_at(escape(bytes), i),
        escape_state(bytes).1 == 0 ==> escape(bytes).len() == 0 || escape(bytes).last() != 0,
        escape_state(bytes).1 >= 1 ==> escape(bytes).last() == 0,
        escape_state(bytes).1 == 1
            ==> escape(bytes).len() == 1 || escape(bytes)[escape(bytes).len() - 2] != 0,
    decreases bytes.len(),
{
    if bytes.len() > 0 {
        let front = bytes.drop_last();
        let b = bytes.last();
        lemma_escape_state_clean(front);
        lemma_escape_zeros(front);
        lemma_escape_zeros(bytes);
        let (out, zeros) = escape_state(front);
        let e = escape(bytes);
        assert forall|i: int| !#[trigger] reserved_at(e, i) by {
            if reserved_at(e, i) {
                assert(!reserved_at(out, i));
                if i + 2 < out.len() {
                    assert(e[i] == out[i] && e[i + 1] == out[i + 1] && e[i + 2] == out[i + 2]);
                } else if zeros >= 2 && b <= 3 {
                    assert(e[out.len() as int] == 3);
                } else {
                    assert(i + 2 == out.len());
                    assert(e[i] == out[i] && e[i + 1] == out[i + 1]);
                    if zeros == 1 {
                        assert(out[out.len() - 2] != 0);
                    }
                }
            }
        }
    }
}

/// What is appended for a byte: the byte, and in front of it a `3` where the byte is at most `3`
/// and what is there so far ends in two zero bytes.
pub proof fn law_escape_appends(bytes: Seq<u8>, b: u8)
    ensures
        escape(Seq::<u8>::empty()).len() == 0,
        ({
            let out = escape(bytes);
            let n = out.len();
            escape(bytes.push(b)) == if n >= 2 && out[n - 1] == 0 && out[n - 2] == 0 && b <= 3 {
                out + seq![3u8, b]
            } else {
                out + seq![b]
            }
        }),
{
    lemma_escape_push(bytes, b);
    lemma_escape_state_clean(bytes);
    lemma_escape_zeros(bytes);
    lemma_escape_state_ends(bytes);
    let out = escape(bytes);
    assert(out.push(3).push(b) =~= out + seq![3u8, b]);
    assert(out.push(b) =~= out + seq![b]);
}

proof fn lemma_escape_state_ends(bytes: Seq<u8>)
    ensures
        escape_state(bytes).1 >= 2 ==> escape(bytes).len() >= 2 && escape(bytes)[escape(bytes).len()
            - 2] == 0,
    decreases bytes.len(),
{
    if bytes.len() > 0 {
        let front = bytes.drop_last();
        lemma_escape_state_ends(front);
        lemma_escape_state_clean(front);
        lemma_escape_zeros(front);
    }
}

/// No start code, nor two zero bytes with a byte of at most `2` behind them, is left in an
/// escaped byte sequence.
pub proof fn lemma_escape_clean(bytes: Seq<u8>)
    ensures
        forall|i: int| !#[trigger] reserved_at(escape(bytes), i),
        forall|i: int| !#[trigger] start_code_at(escape(bytes), i),
{
    lemma_escape_state_clean(bytes);
    assert forall|i: int| !#[trigger] start_code_at(escape(bytes), i) by {
        assert(!reserved_at(escape(bytes), i));
    }
}

} // verus!
