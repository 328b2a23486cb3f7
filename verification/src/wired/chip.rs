//! Gates on single wires, composed from NAND, and their sixteen-wire forms.

use crate::chip::basic::lemma_word_gates;
use crate::signal::{lemma_pack_of_wires, lemma_pack_wires, pack, wire, Signal, Word};
use vstd::prelude::*;

pub mod arith;
pub mod mem;

verus! {

pub fn nand(a: bool, b: bool) -> (r: bool)
    ensures
        r == !(a && b),
{
    !(a && b)
}

pub fn not(input: bool) -> (r: bool)
    ensures
        r == !input,
{
    nand(input, input)
}

pub fn and(a: bool, b: bool) -> (r: bool)
    ensures
        r == (a && b),
{
    not(nand(a, b))
}

pub fn or(a: bool, b: bool) -> (r: bool)
    ensures
        r == (a || b),
{
    nand(not(a), not(b))
}

/// Whether any of eight wires is high.
pub fn or8way(input: &[bool; 8]) -> (r: bool)
    ensures
        r == exists|i: int| 0 <= i < 8 && input[i],
{
    or(
        or(
            or(or(or(or(or(input[0], input[1]), input[2]), input[3]), input[4]), input[5]),
            input[6],
        ),
        input[7],
    )
}

pub fn xor(a: bool, b: bool) -> (r: bool)
    ensures
        r == (a != b),
{
    nand(nand(a, not(b)), nand(not(a), b))
}

/// Selects `a` when `selector` is low and `b` when it is high.
pub fn mux(a: bool, b: bool, selector: bool) -> (r: bool)
    ensures
        r == if selector { b } else { a },
{
    or(and(not(selector), a), and(selector, b))
}

/// Routes the input to the first output when `selector` is low and to the
/// second when it is high.
pub fn dmux(input: bool, selector: bool) -> (r: (bool, bool))
    ensures
        r == ((input && !selector), (input && selector)),
{
    (and(input, not(selector)), and(input, selector))
}

/// Routes the input to the output numbered `s1 s0`.
pub fn dmux4way(input: bool, s1: bool, s0: bool) -> (r: (bool, bool, bool, bool))
    ensures
        r == (
            (input && !s1 && !s0),
            (input && !s1 && s0),
            (input && s1 && !s0),
            (input && s1 && s0),
        ),
{
    (
        and(input, and(not(s1), not(s0))),
        and(input, and(not(s1), s0)),
        and(input, and(s1, not(s0))),
        and(input, and(s1, s0)),
    )
}

/// The number of the output that three selector wires pick.
pub open spec fn selected(s2: bool, s1: bool, s0: bool) -> int {
    (if s2 { 4int } else { 0 }) + (if s1 { 2int } else { 0 }) + (if s0 { 1int } else { 0 })
}

/// Routes the input to the output numbered `s2 s1 s0`.
pub fn dmux8way(input: bool, s2: bool, s1: bool, s0: bool) -> (r: [bool; 8])
    ensures
        forall|i: int| 0 <= i < 8 ==> #[trigger] r[i] == (input && i == selected(s2, s1, s0)),
{
    [
        and(input, and(not(s2), and(not(s1), not(s0)))),
        and(input, and(not(s2), and(not(s1), s0))),
        and(input, and(not(s2), and(s1, not(s0)))),
        and(input, and(not(s2), and(s1, s0))),
        and(input, and(s2, and(not(s1), not(s0)))),
        and(input, and(s2, and(not(s1), s0))),
        and(input, and(s2, and(s1, not(s0)))),
        and(input, and(s2, and(s1, s0))),
    ]
}

/// Inverts each of sixteen wires.
pub fn not16(input: &[bool; 16]) -> (r: [bool; 16])
    ensures
        forall|i: int| 0 <= i < 16 ==> #[trigger] r[i] == !input[i],
        pack(r@) == !pack(input@),
{
    let mut r = [false; 16];
    let mut i: usize = 0;
    while i < 16
        invariant
            i <= 16,
            forall|j: int| 0 <= j < i ==> #[trigger] r[j] == !input[j],
        decreases 16 - i,
    {
        r[i] = not(input[i]);
        i += 1;
    }
    proof {
        let x = Word(pack(input@));
        lemma_pack_wires(input@);
        lemma_word_gates(x, x);
        crate::chip::basic::lemma_not_wires(x);
        assert forall|i: int| 0 <= i < 16 implies r@[i] == #[trigger] wire(!x.0, i) by {
            assert(crate::chip::basic::not_of(x).bit(i) == !x.bit(i));
        }
        lemma_pack_of_wires(!x.0, r@);
    }
    r
}

/// AND of sixteen pairs of wires.
pub fn and16(a: &[bool; 16], b: &[bool; 16]) -> (r: [bool; 16])
    ensures
        forall|i: int| 0 <= i < 16 ==> #[trigger] r[i] == (a[i] && b[i]),
        pack(r@) == pack(a@) & pack(b@),
{
    let mut r = [false; 16];
    let mut i: usize = 0;
    while i < 16
        invariant
            i <= 16,
            forall|j: int| 0 <= j < i ==> #[trigger] r[j] == (a[j] && b[j]),
        decreases 16 - i,
    {
        r[i] = and(a[i], b[i]);
        i += 1;
    }
    proof {
        let x = Word(pack(a@));
        let y = Word(pack(b@));
        lemma_pack_wires(a@);
        lemma_pack_wires(b@);
        lemma_word_gates(x, y);
        crate::chip::basic::lemma_and_wires(x, y);
        assert forall|i: int| 0 <= i < 16 implies r@[i] == #[trigger] wire(x.0 & y.0, i) by {
            assert(crate::chip::basic::and_of(x, y).bit(i) == (x.bit(i) && y.bit(i)));
        }
        lemma_pack_of_wires(x.0 & y.0, r@);
    }
    r
}

/// OR of sixteen pairs of wires.
pub fn or16(a: &[bool; 16], b: &[bool; 16]) -> (r: [bool; 16])
    ensures
        forall|i: int| 0 <= i < 16 ==> #[trigger] r[i] == (a[i] || b[i]),
        pack(r@) == pack(a@) | pack(b@),
{
    let mut r = [false; 16];
    let mut i: usize = 0;
    while i < 16
        invariant
            i <= 16,
            forall|j: int| 0 <= j < i ==> #[trigger] r[j] == (a[j] || b[j]),
        decreases 16 - i,
    {
        r[i] = or(a[i], b[i]);
        i += 1;
    }
    proof {
        let x = Word(pack(a@));
        let y = Word(pack(b@));
        lemma_pack_wires(a@);
        lemma_pack_wires(b@);
        lemma_word_gates(x, y);
        crate::chip::basic::lemma_or_wires(x, y);
        assert forall|i: int| 0 <= i < 16 implies r@[i] == #[trigger] wire(x.0 | y.0, i) by {
            assert(crate::chip::basic::or_of(x, y).bit(i) == (x.bit(i) || y.bit(i)));
        }
        lemma_pack_of_wires(x.0 | y.0, r@);
    }
    r
}

/// Selects the sixteen wires of `a` when `selector` is low and those of `b`
/// when it is high.
pub fn mux16(a: &[bool; 16], b: &[bool; 16], selector: bool) -> (r: [bool; 16])
    ensures
        r@ == if selector { b@ } else { a@ },
{
    let mut r = [false; 16];
    let mut i: usize = 0;
    while i < 16
        invariant
            i <= 16,
            forall|j: int| 0 <= j < i ==> #[trigger] r[j] == if selector { b[j] } else { a[j] },
        decreases 16 - i,
    {
        r[i] = mux(a[i], b[i], selector);
        i += 1;
    }
    assert(r@ =~= if selector { b@ } else { a@ });
    r
}

} // verus!
