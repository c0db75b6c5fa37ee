//! Readers of the parts that several structures share.

use crate::codec::bit_reader::BitReader;
use crate::codec::h265::tables::{flags_from, ues_from, us_from};
use crate::syntax::{group_onto, group_read, reserved_zero, syntax, u, Input, Syntax};
use vstd::prelude::*;

verus! {

broadcast use {group_onto, group_read};

/// The largest value of an unsigned Exp-Golomb code.
pub const MAX_UE: u32 = 0xffff_fffe;

/// Whether the bits between two reading positions are those of `table`. Holds of any
/// table once a read has failed.
pub open spec fn decodes(before: Input, table: Syntax, after: Input) -> bool {
    after matches Some(rest) ==> table.fits() && before == Some(table.onto(rest))
}

/// Whether two sequences agree in the positions `0..n`.
pub open spec fn agree<T>(a: Seq<T>, b: Seq<T>, n: int) -> bool {
    forall|k: int| #![trigger a[k]] #![trigger b[k]] 0 <= k < n ==> a[k] == b[k]
}

/// Whether the positions from `n` hold `d`.
pub open spec fn tail_is<T>(a: Seq<T>, n: int, d: T) -> bool {
    forall|k: int| n <= k < a.len() ==> #[trigger] a[k] == d
}

/// Reads `n` reserved bits, which must be zero.
pub(crate) fn parse_reserved_zero(r: &mut BitReader, n: usize)
    requires
        old(r).inv(),
    ensures
        final(r).inv(),
        decodes(old(r)@, reserved_zero(n as int), final(r)@),
        forall|rest: Seq<bool>|
            old(r)@ == Some(#[trigger] reserved_zero(n as int).onto(rest))
                && reserved_zero(n as int).fits()
                ==> final(r)@ == Some(rest),
{
    let mut left: usize = n;
    while left > 0
        invariant
            left <= n,
            r.inv(),
            forall|rest: Seq<bool>|
                r@ == Some(reserved_zero(left as int).onto(rest)) ==> old(r)@ == Some(
                    #[trigger] reserved_zero(n as int).onto(rest),
                ),
            r@ is Some && reserved_zero(left as int).fits() ==> reserved_zero(n as int).fits(),
            forall|rest: Seq<bool>|
                old(r)@ == Some(#[trigger] reserved_zero(n as int).onto(rest))
                    && reserved_zero(n as int).fits()
                    ==> r@ == Some(reserved_zero(left as int).onto(rest))
                        && reserved_zero(left as int).fits(),
        decreases left,
    {
        let k: usize = if left < 32 { left } else { 32 };
        let v: u32 = r.u(k);
        r.require(v == 0);
        proof {
            reveal_with_fuel(reserved_zero, 2);
        }
        left = left - k;
    }
}

/// Reads `n` flags into an array.
pub(crate) fn parse_flags<const N: usize>(r: &mut BitReader, n: usize) -> (a: [bool; N])
    requires
        old(r).inv(),
        n <= N,
    ensures
        final(r).inv(),
        forall|s: Seq<bool>|
            agree(a@, s, n as int)
                ==> decodes(old(r)@, #[trigger] flags_from(s, 0, n as int), final(r)@),
        forall|v: Seq<bool>, rest: Seq<bool>|
            old(r)@ == Some(#[trigger] flags_from(v, 0, n as int).onto(rest))
                && flags_from(v, 0, n as int).fits()
                ==> final(r)@ == Some(rest) && agree(a@, v, n as int),
        forall|k: int| n <= k < N ==> !#[trigger] a@[k],
{
    let mut a: [bool; N] = [false; N];
    let mut i: usize = 0;
    while i < n
        invariant
            i <= n <= N,
            r.inv(),
            forall|s: Seq<bool>, rest: Seq<bool>|
                agree(a@, s, i as int) && r@ == Some(flags_from(s, i as int, n as int).onto(rest))
                    ==> old(r)@
                    == Some(#[trigger] flags_from(s, 0, n as int).onto(rest)),
            forall|s: Seq<bool>|
                agree(a@, s, i as int) && r@ is Some && flags_from(s, i as int, n as int).fits()
                    ==> #[trigger] flags_from(s, 0, n as int).fits(),
            forall|v: Seq<bool>, rest: Seq<bool>|
                old(r)@ == Some(#[trigger] flags_from(v, 0, n as int).onto(rest))
                    && flags_from(v, 0, n as int).fits()
                    ==> r@ == Some(flags_from(v, i as int, n as int).onto(rest)) && flags_from(
                    v,
                    i as int,
                    n as int,
                ).fits() && agree(a@, v, i as int),
            forall|k: int| n <= k < N ==> !#[trigger] a@[k],
        decreases n - i,
    {
        let v: bool = r.flag();
        a[i] = v;
        i = i + 1;
    }
    a
}

/// Values that can all be written are there.
pub proof fn lemma_ues_bound(s: Seq<u32>, i: int, n: int)
    requires
        ues_from(s, i, n).fits(),
        i <= s.len(),
    ensures
        n <= s.len(),
    decreases n - i,
{
    if i < n {
        lemma_ues_bound(s, i + 1, n);
    }
}

/// Reads `n` values into an array, each an Exp-Golomb code.
pub(crate) fn parse_ues<const N: usize>(r: &mut BitReader, n: usize) -> (a: [u32; N])
    requires
        old(r).inv(),
        n <= N,
    ensures
        final(r).inv(),
        final(r)@ is Some ==> old(r)@ is Some,
        forall|s: Seq<u32>|
            s.len() == N && agree(a@, s, n as int)
                ==> decodes(old(r)@, #[trigger] ues_from(s, 0, n as int), final(r)@),
        forall|v: Seq<u32>, rest: Seq<bool>|
            old(r)@ == Some(#[trigger] ues_from(v, 0, n as int).onto(rest))
                && ues_from(v, 0, n as int).fits()
                ==> final(r)@ == Some(rest) && agree(a@, v, n as int),
        tail_is(a@, n as int, 0u32),
{
    let mut a: [u32; N] = [0; N];
    let mut i: usize = 0;
    while i < n
        invariant
            i <= n <= N,
            tail_is(a@, i as int, 0u32),
            r.inv(),
            r@ is Some ==> old(r)@ is Some,
            forall|s: Seq<u32>, rest: Seq<bool>|
                s.len() == N && agree(a@, s, i as int) && r@ == Some(ues_from(s, i as int, n as int).onto(rest))
                    ==> old(r)@
                    == Some(#[trigger] ues_from(s, 0, n as int).onto(rest)),
            forall|s: Seq<u32>|
                s.len() == N && agree(a@, s, i as int) && r@ is Some && ues_from(s, i as int, n as int).fits()
                    ==> #[trigger] ues_from(s, 0, n as int).fits(),
            forall|v: Seq<u32>, rest: Seq<bool>|
                old(r)@ == Some(#[trigger] ues_from(v, 0, n as int).onto(rest))
                    && ues_from(v, 0, n as int).fits()
                    ==> r@ == Some(ues_from(v, i as int, n as int).onto(rest))
                        && ues_from(v, i as int, n as int).fits() && agree(a@, v, i as int),
        decreases n - i,
    {
        let v: u32 = r.ue(MAX_UE);
        a[i] = v;
        i = i + 1;
    }
    a
}

/// Reads `n` values of `bits` bits each into an array.
pub(crate) fn parse_us<const N: usize>(r: &mut BitReader, bits: usize, n: usize) -> (a: [u32; N])
    requires
        old(r).inv(),
        n <= N,
    ensures
        final(r).inv(),
        final(r)@ is Some ==> old(r)@ is Some,
        forall|s: Seq<u32>|
            agree(a@, s, n as int)
                ==> decodes(old(r)@, #[trigger] us_from(bits as int, s, 0, n as int), final(r)@),
        forall|v: Seq<u32>, rest: Seq<bool>|
            old(r)@ == Some(#[trigger] us_from(bits as int, v, 0, n as int).onto(rest))
                && us_from(bits as int, v, 0, n as int).fits()
                ==> final(r)@ == Some(rest) && agree(a@, v, n as int),
        tail_is(a@, n as int, 0u32),
{
    let mut a: [u32; N] = [0; N];
    let mut i: usize = 0;
    while i < n
        invariant
            i <= n <= N,
            tail_is(a@, i as int, 0u32),
            r.inv(),
            r@ is Some ==> old(r)@ is Some,
            forall|s: Seq<u32>, rest: Seq<bool>|
                agree(a@, s, i as int)
                    && r@ == Some(us_from(bits as int, s, i as int, n as int).onto(rest))
                    ==> old(r)@
                    == Some(#[trigger] us_from(bits as int, s, 0, n as int).onto(rest)),
            forall|s: Seq<u32>|
                agree(a@, s, i as int) && r@ is Some
                    && us_from(bits as int, s, i as int, n as int).fits()
                    ==> #[trigger] us_from(bits as int, s, 0, n as int).fits(),
            forall|v: Seq<u32>, rest: Seq<bool>|
                old(r)@ == Some(#[trigger] us_from(bits as int, v, 0, n as int).onto(rest))
                    && us_from(bits as int, v, 0, n as int).fits()
                    ==> r@ == Some(us_from(bits as int, v, i as int, n as int).onto(rest))
                        && us_from(bits as int, v, i as int, n as int).fits()
                        && agree(a@, v, i as int),
        decreases n - i,
    {
        let v: u32 = r.u(bits);
        a[i] = v;
        i = i + 1;
    }
    a
}

/// Reads `n` bits as a number and refuses one above `max`.
pub(crate) fn parse_u_max(r: &mut BitReader, n: usize, max: u32) -> (v: u32)
    requires
        old(r).inv(),
    ensures
        final(r).inv(),
        v <= max,
        decodes(old(r)@, syntax().u(n as int, v as int), final(r)@),
        forall|value: int, rest: Seq<bool>|
            old(r)@ == Some(#[trigger] u(n as int, value).onto(rest)) && u(n as int, value).fits()
                && value <= max
                ==> final(r)@ == Some(rest) && v == value,
{
    let v: u32 = r.u(n);
    r.require(v <= max);
    if v <= max {
        v
    } else {
        0
    }
}

/// Whether two sequences agree in the positions `first..n`.
pub open spec fn agree_from<T>(a: Seq<T>, b: Seq<T>, first: int, n: int) -> bool {
    forall|k: int| #![trigger a[k]] #![trigger b[k]] first <= k < n ==> a[k] == b[k]
}

/// Whether the positions outside `first..n` hold `d`.
pub open spec fn outside_is<T>(a: Seq<T>, first: int, n: int, d: T) -> bool {
    forall|k: int| 0 <= k < a.len() && !(first <= k < n) ==> #[trigger] a[k] == d
}

} // verus!
