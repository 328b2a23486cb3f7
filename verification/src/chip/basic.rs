//! Combinational gates. Each is composed from NAND alone and works on any
//! signal: on a bus it acts wire by wire.

use crate::signal::{Signal, Word};
use vstd::prelude::*;

verus! {

/// NOT, as NAND makes it.
pub open spec fn not_of<S: Signal>(x: S) -> S {
    x.nand_of(x)
}

/// AND, as NAND makes it.
pub open spec fn and_of<S: Signal>(a: S, b: S) -> S {
    not_of(a.nand_of(b))
}

/// OR, as NAND makes it.
pub open spec fn or_of<S: Signal>(a: S, b: S) -> S {
    not_of(a).nand_of(not_of(b))
}

/// Exclusive OR, as NAND makes it.
pub open spec fn xor_of<S: Signal>(a: S, b: S) -> S {
    a.nand_of(a.nand_of(b)).nand_of(a.nand_of(b).nand_of(b))
}

/// NOT inverts every wire.
pub proof fn lemma_not_wires<S: Signal>(x: S)
    ensures
        forall|i: int| 0 <= i < S::width() ==> #[trigger] not_of(x).bit(i) == !x.bit(i),
{
    x.lemma_nand_wires(x);
}

/// AND acts wire by wire.
pub proof fn lemma_and_wires<S: Signal>(a: S, b: S)
    ensures
        forall|i: int|
            0 <= i < S::width() ==> #[trigger] and_of(a, b).bit(i) == (a.bit(i) && b.bit(i)),
{
    a.lemma_nand_wires(b);
    lemma_not_wires(a.nand_of(b));
}

/// OR acts wire by wire.
pub proof fn lemma_or_wires<S: Signal>(a: S, b: S)
    ensures
        forall|i: int|
            0 <= i < S::width() ==> #[trigger] or_of(a, b).bit(i) == (a.bit(i) || b.bit(i)),
{
    lemma_not_wires(a);
    lemma_not_wires(b);
    not_of(a).lemma_nand_wires(not_of(b));
}

/// Exclusive OR acts wire by wire.
pub proof fn lemma_xor_wires<S: Signal>(a: S, b: S)
    ensures
        forall|i: int|
            0 <= i < S::width() ==> #[trigger] xor_of(a, b).bit(i) == (a.bit(i) != b.bit(i)),
{
    let t = a.nand_of(b);
    a.lemma_nand_wires(b);
    a.lemma_nand_wires(t);
    t.lemma_nand_wires(b);
    a.nand_of(t).lemma_nand_wires(t.nand_of(b));
}

/// Inverting twice changes nothing.
pub proof fn lemma_not_not<S: Signal>(x: S)
    ensures
        not_of(not_of(x)) == x,
{
    lemma_not_wires(x);
    lemma_not_wires(not_of(x));
    not_of(not_of(x)).lemma_same_wires(x);
}

/// AND does not depend on the order of its inputs.
pub proof fn lemma_and_commutes<S: Signal>(x: S, y: S)
    ensures
        and_of(x, y) == and_of(y, x),
{
    lemma_and_wires(x, y);
    lemma_and_wires(y, x);
    and_of(x, y).lemma_same_wires(and_of(y, x));
}

/// OR with zero changes nothing.
pub proof fn lemma_or_zero<S: Signal>(x: S)
    ensures
        or_of(x, S::fill(false)) == x,
{
    S::lemma_fill_wires(false);
    lemma_or_wires(x, S::fill(false));
    or_of(x, S::fill(false)).lemma_same_wires(x);
}

/// Exclusive OR of a signal with itself is zero.
pub proof fn lemma_xor_self<S: Signal>(x: S)
    ensures
        xor_of(x, x) == S::fill(false),
{
    S::lemma_fill_wires(false);
    lemma_xor_wires(x, x);
    xor_of(x, x).lemma_same_wires(S::fill(false));
}

/// On a word the gates are the bitwise operations of the machine.
pub proof fn lemma_word_gates(a: Word, b: Word)
    ensures
        not_of(a) == Word(!a.0),
        and_of(a, b) == Word(a.0 & b.0),
        or_of(a, b) == Word(a.0 | b.0),
        xor_of(a, b) == Word(a.0 ^ b.0),
{
    let x = a.0;
    let y = b.0;
    assert(!(x & x) == !x) by (bit_vector);
    assert(!(!(x & y) & !(x & y)) == x & y) by (bit_vector);
    assert(!(!(x & x) & !(y & y)) == x | y) by (bit_vector);
    assert(!(!(x & !(x & y)) & !(!(x & y) & y)) == x ^ y) by (bit_vector);
}

/// NAND of two signals.
#[inline]
pub fn nand<S: Signal>(a: S, b: S) -> (r: S)
    ensures
        r == a.nand_of(b),
{
    a.nand(b)
}

/// Inverts every wire.
#[inline]
pub fn not<S: Signal>(input: S) -> (r: S)
    ensures
        r == not_of(input),
{
    nand(input, input)
}

/// AND, wire by wire.
#[inline]
pub fn and<S: Signal>(a: S, b: S) -> (r: S)
    ensures
        r == and_of(a, b),
{
    not(nand(a, b))
}

/// OR, wire by wire.
#[inline]
pub fn or<S: Signal>(a: S, b: S) -> (r: S)
    ensures
        r == or_of(a, b),
{
    nand(not(a), not(b))
}

/// Exclusive OR, wire by wire.
#[inline]
pub fn xor<S: Signal>(a: S, b: S) -> (r: S)
    ensures
        r == xor_of(a, b),
{
    let tmp = nand(a, b);
    nand(nand(a, tmp), nand(tmp, b))
}

/// Selects `a` when `selector` is low and `b` when it is high.
#[inline]
pub fn mux<S: Signal>(a: S, b: S, selector: bool) -> (r: S)
    ensures
        r == if selector { b } else { a },
{
    let r = nand(nand(S::broadcast(not(selector)), a), nand(S::broadcast(selector), b));
    proof {
        let want = if selector { b } else { a };
        lemma_select_wires(a, !selector, b, selector);
        r.lemma_same_wires(want);
    }
    r
}

/// What two NANDs of gated inputs, fed to a third NAND, carry on each wire.
proof fn lemma_select_wires<S: Signal>(a: S, on_a: bool, b: S, on_b: bool)
    ensures
        forall|i: int|
            0 <= i < S::width() ==> #[trigger] S::fill(on_a).nand_of(a).nand_of(
                S::fill(on_b).nand_of(b),
            ).bit(i) == ((on_a && a.bit(i)) || (on_b && b.bit(i))),
{
    S::lemma_fill_wires(on_a);
    S::lemma_fill_wires(on_b);
    S::fill(on_a).lemma_nand_wires(a);
    S::fill(on_b).lemma_nand_wires(b);
    S::fill(on_a).nand_of(a).lemma_nand_wires(S::fill(on_b).nand_of(b));
}

/// The input that a two-bit selector picks out of four, `s1` being the high bit.
pub open spec fn pick4<S>(a: S, b: S, c: S, d: S, s1: bool, s0: bool) -> S {
    if s1 {
        if s0 {
            d
        } else {
            c
        }
    } else {
        if s0 {
            b
        } else {
            a
        }
    }
}

/// Selects one of four inputs by the two-bit number `s1 s0`.
#[inline]
pub fn mux4way<S: Signal>(a: S, b: S, c: S, d: S, s1: bool, s0: bool) -> (r: S)
    ensures
        r == pick4(a, b, c, d, s1, s0),
{
    let r = or(
        nand(
            nand(S::broadcast(and(not(s1), not(s0))), a),
            nand(S::broadcast(and(not(s1), s0)), b),
        ),
        nand(
            nand(S::broadcast(and(s1, not(s0))), c),
            nand(S::broadcast(and(s1, s0)), d),
        ),
    );
    proof {
        let want = pick4(a, b, c, d, s1, s0);
        let lo = S::fill(!s1 && !s0).nand_of(a).nand_of(S::fill(!s1 && s0).nand_of(b));
        let hi = S::fill(s1 && !s0).nand_of(c).nand_of(S::fill(s1 && s0).nand_of(d));
        lemma_select_wires(a, !s1 && !s0, b, !s1 && s0);
        lemma_select_wires(c, s1 && !s0, d, s1 && s0);
        lemma_or_wires(lo, hi);
        r.lemma_same_wires(want);
    }
    r
}

/// Selects one of eight inputs by the three-bit number `s2 s1 s0`.
#[inline]
pub fn mux8way<S: Signal>(
    a: S,
    b: S,
    c: S,
    d: S,
    e: S,
    f: S,
    g: S,
    h: S,
    s2: bool,
    s1: bool,
    s0: bool,
) -> (r: S)
    ensures
        r == if s2 {
            pick4(e, f, g, h, s1, s0)
        } else {
            pick4(a, b, c, d, s1, s0)
        },
{
    let r = or(
        or(
            nand(
                nand(S::broadcast(and(not(s2), and(not(s1), not(s0)))), a),
                nand(S::broadcast(and(not(s2), and(not(s1), s0))), b),
            ),
            nand(
                nand(S::broadcast(and(not(s2), and(s1, not(s0)))), c),
                nand(S::broadcast(and(not(s2), and(s1, s0))), d),
            ),
        ),
        or(
            nand(
                nand(S::broadcast(and(s2, and(not(s1), not(s0)))), e),
                nand(S::broadcast(and(s2, and(not(s1), s0))), f),
            ),
            nand(
                nand(S::broadcast(and(s2, and(s1, not(s0)))), g),
                nand(S::broadcast(and(s2, and(s1, s0))), h),
            ),
        ),
    );
    proof {
        let want = if s2 {
            pick4(e, f, g, h, s1, s0)
        } else {
            pick4(a, b, c, d, s1, s0)
        };
        let t0 = S::fill(!s2 && !s1 && !s0).nand_of(a).nand_of(
            S::fill(!s2 && !s1 && s0).nand_of(b),
        );
        let t1 = S::fill(!s2 && s1 && !s0).nand_of(c).nand_of(
            S::fill(!s2 && s1 && s0).nand_of(d),
        );
        let t2 = S::fill(s2 && !s1 && !s0).nand_of(e).nand_of(
            S::fill(s2 && !s1 && s0).nand_of(f),
        );
        let t3 = S::fill(s2 && s1 && !s0).nand_of(g).nand_of(
            S::fill(s2 && s1 && s0).nand_of(h),
        );
        lemma_select_wires(a, !s2 && !s1 && !s0, b, !s2 && !s1 && s0);
        lemma_select_wires(c, !s2 && s1 && !s0, d, !s2 && s1 && s0);
        lemma_select_wires(e, s2 && !s1 && !s0, f, s2 && !s1 && s0);
        lemma_select_wires(g, s2 && s1 && !s0, h, s2 && s1 && s0);
        lemma_or_wires(t0, t1);
        lemma_or_wires(t2, t3);
        lemma_or_wires(or_of(t0, t1), or_of(t2, t3));
        r.lemma_same_wires(want);
    }
    r
}

/// The input where `on` holds, and the signal with every wire low elsewhere.
pub open spec fn gated<S: Signal>(input: S, on: bool) -> S {
    if on {
        input
    } else {
        S::fill(false)
    }
}

proof fn lemma_gated<S: Signal>(input: S, on: bool)
    ensures
        and_of(input, S::fill(on)) == gated(input, on),
{
    S::lemma_fill_wires(on);
    S::lemma_fill_wires(false);
    lemma_and_wires(input, S::fill(on));
    and_of(input, S::fill(on)).lemma_same_wires(gated(input, on));
}

/// Routes the input to the first output when `selector` is low and to the
/// second when it is high; the other output is low.
#[inline]
pub fn dmux<S: Signal>(input: S, selector: bool) -> (r: (S, S))
    ensures
        r.0 == gated(input, !selector),
        r.1 == gated(input, selector),
{
    let r = (and(input, S::broadcast(not(selector))), and(input, S::broadcast(selector)));
    proof {
        lemma_gated(input, !selector);
        lemma_gated(input, selector);
    }
    r
}

/// Routes the input to the output numbered `s1 s0`; the others are low.
#[inline]
pub fn dmux4way<S: Signal>(input: S, s1: bool, s0: bool) -> (r: (S, S, S, S))
    ensures
        r.0 == gated(input, !s1 && !s0),
        r.1 == gated(input, !s1 && s0),
        r.2 == gated(input, s1 && !s0),
        r.3 == gated(input, s1 && s0),
{
    let r = (
        and(input, S::broadcast(and(not(s1), not(s0)))),
        and(input, S::broadcast(and(not(s1), s0))),
        and(input, S::broadcast(and(s1, not(s0)))),
        and(input, S::broadcast(and(s1, s0))),
    );
    proof {
        lemma_gated(input, !s1 && !s0);
        lemma_gated(input, !s1 && s0);
        lemma_gated(input, s1 && !s0);
        lemma_gated(input, s1 && s0);
    }
    r
}

/// Routes the input to the output numbered `s2 s1 s0`; the others are low.
#[inline]
pub fn dmux8way<S: Signal>(input: S, s2: bool, s1: bool, s0: bool) -> (r: (S, S, S, S, S, S, S, S))
    ensures
        r.0 == gated(input, !s2 && !s1 && !s0),
        r.1 == gated(input, !s2 && !s1 && s0),
        r.2 == gated(input, !s2 && s1 && !s0),
        r.3 == gated(input, !s2 && s1 && s0),
        r.4 == gated(input, s2 && !s1 && !s0),
        r.5 == gated(input, s2 && !s1 && s0),
        r.6 == gated(input, s2 && s1 && !s0),
        r.7 == gated(input, s2 && s1 && s0),
{
    let r = (
        and(input, S::broadcast(and(not(s2), and(not(s1), not(s0))))),
        and(input, S::broadcast(and(not(s2), and(not(s1), s0)))),
        and(input, S::broadcast(and(not(s2), and(s1, not(s0))))),
        and(input, S::broadcast(and(not(s2), and(s1, s0)))),
        and(input, S::broadcast(and(s2, and(not(s1), not(s0))))),
        and(input, S::broadcast(and(s2, and(not(s1), s0)))),
        and(input, S::broadcast(and(s2, and(s1, not(s0))))),
        and(input, S::broadcast(and(s2, and(s1, s0)))),
    );
    proof {
        lemma_gated(input, !s2 && !s1 && !s0);
        lemma_gated(input, !s2 && !s1 && s0);
        lemma_gated(input, !s2 && s1 && !s0);
        lemma_gated(input, !s2 && s1 && s0);
        lemma_gated(input, s2 && !s1 && !s0);
        lemma_gated(input, s2 && !s1 && s0);
        lemma_gated(input, s2 && s1 && !s0);
        lemma_gated(input, s2 && s1 && s0);
    }
    r
}

} // verus!
