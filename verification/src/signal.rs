//! Signals: a single wire (`bool`) and a bus of sixteen wires (`Word`).
//!
//! Wires of a bus are numbered from the most significant one: wire 0 of a
//! `Word` is its sign bit, wire 15 its least significant bit.

use vstd::arithmetic::power2::{
    lemma2_to64, lemma_pow2_strictly_increases, lemma_pow2_unfold, pow2,
};
use vstd::prelude::*;
use vstd::std_specs::convert::FromSpecImpl;

verus! {

/// Bit `k` of `v`, counted from the least significant one.
pub open spec fn bit_at(v: u16, k: u16) -> bool {
    (v >> k) & 1 == 1
}

/// Wire `i` of the bus that carries `v`, counted from the most significant
/// one: wire `i` is bit `15 - i`.
pub open spec fn wire(v: u16, i: int) -> bool {
    if i == 0 {
        bit_at(v, 15)
    } else if i == 1 {
        bit_at(v, 14)
    } else if i == 2 {
        bit_at(v, 13)
    } else if i == 3 {
        bit_at(v, 12)
    } else if i == 4 {
        bit_at(v, 11)
    } else if i == 5 {
        bit_at(v, 10)
    } else if i == 6 {
        bit_at(v, 9)
    } else if i == 7 {
        bit_at(v, 8)
    } else if i == 8 {
        bit_at(v, 7)
    } else if i == 9 {
        bit_at(v, 6)
    } else if i == 10 {
        bit_at(v, 5)
    } else if i == 11 {
        bit_at(v, 4)
    } else if i == 12 {
        bit_at(v, 3)
    } else if i == 13 {
        bit_at(v, 2)
    } else if i == 14 {
        bit_at(v, 1)
    } else {
        bit_at(v, 0)
    }
}

/// The sixteen wires of the bus that carries `v`.
pub open spec fn wires_of(v: u16) -> Seq<bool> {
    Seq::new(16, |i: int| wire(v, i))
}

/// The value of one binary digit.
pub open spec fn digit(b: bool) -> int {
    if b {
        1
    } else {
        0
    }
}

/// The number read off the first `n` wires, as a number of `n` bits.
pub open spec fn prefix_value(w: Seq<bool>, n: int) -> int
    decreases n,
{
    if n <= 0 {
        0
    } else {
        2 * prefix_value(w, n - 1) + digit(w[n - 1])
    }
}

/// The number carried by sixteen wires, wire 0 being the most significant.
pub open spec fn pack(w: Seq<bool>) -> u16 {
    prefix_value(w, 16) as u16
}

/// The binary digits of a number are its bits.
proof fn lemma_bits_of_sum(
    v: u16, d0: u16, d1: u16, d2: u16, d3: u16, d4: u16, d5: u16, d6: u16, d7: u16, d8: u16,
    d9: u16, d10: u16, d11: u16, d12: u16, d13: u16, d14: u16, d15: u16,
)
    by (bit_vector)
    requires
        d0 <= 1,
        d1 <= 1,
        d2 <= 1,
        d3 <= 1,
        d4 <= 1,
        d5 <= 1,
        d6 <= 1,
        d7 <= 1,
        d8 <= 1,
        d9 <= 1,
        d10 <= 1,
        d11 <= 1,
        d12 <= 1,
        d13 <= 1,
        d14 <= 1,
        d15 <= 1,
        v ==
            0x8000 * d0 + 0x4000 * d1 + 0x2000 * d2 + 0x1000 * d3 + 0x0800 * d4 + 0x0400 * d5 +
            0x0200 * d6 + 0x0100 * d7 + 0x0080 * d8 + 0x0040 * d9 + 0x0020 * d10 +
            0x0010 * d11 + 0x0008 * d12 + 0x0004 * d13 + 0x0002 * d14 + 0x0001 * d15,
    ensures
        ((v >> 15u16) & 1 == 1) == (d0 == 1),
        ((v >> 14u16) & 1 == 1) == (d1 == 1),
        ((v >> 13u16) & 1 == 1) == (d2 == 1),
        ((v >> 12u16) & 1 == 1) == (d3 == 1),
        ((v >> 11u16) & 1 == 1) == (d4 == 1),
        ((v >> 10u16) & 1 == 1) == (d5 == 1),
        ((v >> 9u16) & 1 == 1) == (d6 == 1),
        ((v >> 8u16) & 1 == 1) == (d7 == 1),
        ((v >> 7u16) & 1 == 1) == (d8 == 1),
        ((v >> 6u16) & 1 == 1) == (d9 == 1),
        ((v >> 5u16) & 1 == 1) == (d10 == 1),
        ((v >> 4u16) & 1 == 1) == (d11 == 1),
        ((v >> 3u16) & 1 == 1) == (d12 == 1),
        ((v >> 2u16) & 1 == 1) == (d13 == 1),
        ((v >> 1u16) & 1 == 1) == (d14 == 1),
        ((v >> 0u16) & 1 == 1) == (d15 == 1),
{
}

/// A number is the sum of its bits, each at its weight.
proof fn lemma_sum_of_bits(v: u16)
    by (bit_vector)
    ensures
        v ==
            0x8000 * (if (v >> 15u16) & 1 == 1 { 1int } else { 0int }) +
            0x4000 * (if (v >> 14u16) & 1 == 1 { 1int } else { 0int }) +
            0x2000 * (if (v >> 13u16) & 1 == 1 { 1int } else { 0int }) +
            0x1000 * (if (v >> 12u16) & 1 == 1 { 1int } else { 0int }) +
            0x0800 * (if (v >> 11u16) & 1 == 1 { 1int } else { 0int }) +
            0x0400 * (if (v >> 10u16) & 1 == 1 { 1int } else { 0int }) +
            0x0200 * (if (v >> 9u16) & 1 == 1 { 1int } else { 0int }) +
            0x0100 * (if (v >> 8u16) & 1 == 1 { 1int } else { 0int }) +
            0x0080 * (if (v >> 7u16) & 1 == 1 { 1int } else { 0int }) +
            0x0040 * (if (v >> 6u16) & 1 == 1 { 1int } else { 0int }) +
            0x0020 * (if (v >> 5u16) & 1 == 1 { 1int } else { 0int }) +
            0x0010 * (if (v >> 4u16) & 1 == 1 { 1int } else { 0int }) +
            0x0008 * (if (v >> 3u16) & 1 == 1 { 1int } else { 0int }) +
            0x0004 * (if (v >> 2u16) & 1 == 1 { 1int } else { 0int }) +
            0x0002 * (if (v >> 1u16) & 1 == 1 { 1int } else { 0int }) +
            0x0001 * (if (v >> 0u16) & 1 == 1 { 1int } else { 0int }),
{
}

/// Two numbers with the same bits are the same number.
proof fn lemma_equal_bits(x: u16, y: u16)
    by (bit_vector)
    requires
        ((x >> 0u16) & 1 == 1) == ((y >> 0u16) & 1 == 1),
        ((x >> 1u16) & 1 == 1) == ((y >> 1u16) & 1 == 1),
        ((x >> 2u16) & 1 == 1) == ((y >> 2u16) & 1 == 1),
        ((x >> 3u16) & 1 == 1) == ((y >> 3u16) & 1 == 1),
        ((x >> 4u16) & 1 == 1) == ((y >> 4u16) & 1 == 1),
        ((x >> 5u16) & 1 == 1) == ((y >> 5u16) & 1 == 1),
        ((x >> 6u16) & 1 == 1) == ((y >> 6u16) & 1 == 1),
        ((x >> 7u16) & 1 == 1) == ((y >> 7u16) & 1 == 1),
        ((x >> 8u16) & 1 == 1) == ((y >> 8u16) & 1 == 1),
        ((x >> 9u16) & 1 == 1) == ((y >> 9u16) & 1 == 1),
        ((x >> 10u16) & 1 == 1) == ((y >> 10u16) & 1 == 1),
        ((x >> 11u16) & 1 == 1) == ((y >> 11u16) & 1 == 1),
        ((x >> 12u16) & 1 == 1) == ((y >> 12u16) & 1 == 1),
        ((x >> 13u16) & 1 == 1) == ((y >> 13u16) & 1 == 1),
        ((x >> 14u16) & 1 == 1) == ((y >> 14u16) & 1 == 1),
        ((x >> 15u16) & 1 == 1) == ((y >> 15u16) & 1 == 1),
    ensures
        x == y,
{
}

/// One more wire doubles the number and adds the wire.
proof fn lemma_prefix_value_step(w: Seq<bool>, n: int)
    requires
        0 < n,
    ensures
        prefix_value(w, n) == 2 * prefix_value(w, n - 1) + digit(w[n - 1]),
{
}

/// A number of `n` bits is below two to the `n`.
proof fn lemma_prefix_value_bound(w: Seq<bool>, n: int)
    requires
        0 <= n <= 16,
    ensures
        0 <= prefix_value(w, n) < pow2(n as nat),
        prefix_value(w, n) < 0x10000,
        n <= 15 ==> prefix_value(w, n) < 0x8000,
    decreases n,
{
    lemma2_to64();
    if n > 0 {
        lemma_prefix_value_bound(w, n - 1);
        lemma_prefix_value_step(w, n);
        lemma_pow2_unfold(n as nat);
    }
    if n < 15 {
        lemma_pow2_strictly_increases(n as nat, 15);
    }
    if n < 16 {
        lemma_pow2_strictly_increases(n as nat, 16);
    }
}

/// The sixteen wires weigh 32768, 16384, ..., 2, 1.
pub proof fn lemma_pack_is_weighted_sum(w: Seq<bool>)
    ensures
        pack(w) as int ==
            0x8000 * digit(w[0]) + 0x4000 * digit(w[1]) + 0x2000 * digit(w[2]) +
            0x1000 * digit(w[3]) + 0x0800 * digit(w[4]) + 0x0400 * digit(w[5]) +
            0x0200 * digit(w[6]) + 0x0100 * digit(w[7]) + 0x0080 * digit(w[8]) +
            0x0040 * digit(w[9]) + 0x0020 * digit(w[10]) + 0x0010 * digit(w[11]) +
            0x0008 * digit(w[12]) + 0x0004 * digit(w[13]) + 0x0002 * digit(w[14]) +
            0x0001 * digit(w[15]),
{
    assert(prefix_value(w, 0) == 0);
    lemma_prefix_value_step(w, 1);
    lemma_prefix_value_step(w, 2);
    lemma_prefix_value_step(w, 3);
    lemma_prefix_value_step(w, 4);
    lemma_prefix_value_step(w, 5);
    lemma_prefix_value_step(w, 6);
    lemma_prefix_value_step(w, 7);
    lemma_prefix_value_step(w, 8);
    lemma_prefix_value_step(w, 9);
    lemma_prefix_value_step(w, 10);
    lemma_prefix_value_step(w, 11);
    lemma_prefix_value_step(w, 12);
    lemma_prefix_value_step(w, 13);
    lemma_prefix_value_step(w, 14);
    lemma_prefix_value_step(w, 15);
    lemma_prefix_value_step(w, 16);
    lemma_prefix_value_bound(w, 16);
}

/// Sixteen wires carry the number that they spell in binary.
pub proof fn lemma_pack_is_prefix_value(w: Seq<bool>)
    ensures
        pack(w) as int == prefix_value(w, 16),
{
    lemma_prefix_value_bound(w, 16);
}

/// Every wire of zero is low.
pub proof fn lemma_zero_wires()
    ensures
        forall|i: int| 0 <= i < 16 ==> !#[trigger] wire(0u16, i),
{
    assert(forall|k: u16| k < 16 ==> !bit_at(0u16, k)) by (bit_vector);
}

/// A number is determined by its sixteen wires.
pub proof fn lemma_bits_determine(x: u16, y: u16)
    requires
        forall|i: int| 0 <= i < 16 ==> #[trigger] wire(x, i) == wire(y, i),
    ensures
        x == y,
{
    assert(wire(x, 0) == wire(y, 0));
    assert(wire(x, 1) == wire(y, 1));
    assert(wire(x, 2) == wire(y, 2));
    assert(wire(x, 3) == wire(y, 3));
    assert(wire(x, 4) == wire(y, 4));
    assert(wire(x, 5) == wire(y, 5));
    assert(wire(x, 6) == wire(y, 6));
    assert(wire(x, 7) == wire(y, 7));
    assert(wire(x, 8) == wire(y, 8));
    assert(wire(x, 9) == wire(y, 9));
    assert(wire(x, 10) == wire(y, 10));
    assert(wire(x, 11) == wire(y, 11));
    assert(wire(x, 12) == wire(y, 12));
    assert(wire(x, 13) == wire(y, 13));
    assert(wire(x, 14) == wire(y, 14));
    assert(wire(x, 15) == wire(y, 15));
    lemma_equal_bits(x, y);
}

/// Packing sixteen wires gives the number whose wires they are.
pub proof fn lemma_pack_wires(w: Seq<bool>)
    ensures
        forall|i: int| 0 <= i < 16 ==> #[trigger] wire(pack(w), i) == w[i],
{
    let v = pack(w);
    lemma_pack_is_weighted_sum(w);
    lemma_bits_of_sum(
        v, digit(w[0]) as u16, digit(w[1]) as u16, digit(w[2]) as u16, digit(w[3]) as u16,
        digit(w[4]) as u16, digit(w[5]) as u16, digit(w[6]) as u16, digit(w[7]) as u16,
        digit(w[8]) as u16, digit(w[9]) as u16, digit(w[10]) as u16, digit(w[11]) as u16,
        digit(w[12]) as u16, digit(w[13]) as u16, digit(w[14]) as u16, digit(w[15]) as u16,
    );
}

/// Sixteen wires are the wires of the number that they carry.
pub proof fn lemma_wires_of_pack(w: Seq<bool>)
    requires
        w.len() == 16,
    ensures
        wires_of(pack(w)) == w,
{
    lemma_pack_wires(w);
    assert(wires_of(pack(w)) =~= w);
}

/// Splitting a number into wires and packing them gives the number back.
pub proof fn lemma_pack_of_wires(v: u16, w: Seq<bool>)
    requires
        forall|i: int| 0 <= i < 16 ==> w[i] == #[trigger] wire(v, i),
    ensures
        pack(w) == v,
{
    lemma_pack_is_weighted_sum(w);
    lemma_sum_of_bits(v);
    assert(w[0] == wire(v, 0));
    assert(w[1] == wire(v, 1));
    assert(w[2] == wire(v, 2));
    assert(w[3] == wire(v, 3));
    assert(w[4] == wire(v, 4));
    assert(w[5] == wire(v, 5));
    assert(w[6] == wire(v, 6));
    assert(w[7] == wire(v, 7));
    assert(w[8] == wire(v, 8));
    assert(w[9] == wire(v, 9));
    assert(w[10] == wire(v, 10));
    assert(w[11] == wire(v, 11));
    assert(w[12] == wire(v, 12));
    assert(w[13] == wire(v, 13));
    assert(w[14] == wire(v, 14));
    assert(w[15] == wire(v, 15));
}

/// What every signal offers: a fixed number of wires, a constant signal, and NAND.
pub trait Signal: Copy {
    /// How many wires the signal has.
    spec fn width() -> nat;

    /// Wire `i` of the signal, for `0 <= i < width()`.
    spec fn bit(self, i: int) -> bool;

    /// The signal with every wire at `level`.
    spec fn fill(level: bool) -> Self;

    /// NAND of two signals.
    spec fn nand_of(self, other: Self) -> Self;

    /// Two signals whose wires agree are the same signal.
    proof fn lemma_same_wires(self, other: Self)
        requires
            forall|i: int| 0 <= i < Self::width() ==> #[trigger] self.bit(i) == other.bit(i),
        ensures
            self == other,
    ;

    /// Every wire of `fill(level)` is at `level`.
    proof fn lemma_fill_wires(level: bool)
        ensures
            forall|i: int| 0 <= i < Self::width() ==> #[trigger] Self::fill(level).bit(i) == level,
    ;

    /// NAND acts wire by wire.
    proof fn lemma_nand_wires(self, other: Self)
        ensures
            forall|i: int|
                0 <= i < Self::width() ==> #[trigger] self.nand_of(other).bit(i) == !(self.bit(i)
                    && other.bit(i)),
    ;

    /// The signal with every wire low.
    fn zero() -> (r: Self)
        ensures
            r == Self::fill(false),
    ;

    /// The signal with every wire at `level`.
    fn broadcast(level: bool) -> (r: Self)
        ensures
            r == Self::fill(level),
    ;

    /// NAND, wire by wire.
    fn nand(&self, other: Self) -> (r: Self)
        ensures
            r == self.nand_of(other),
    ;
}

impl Signal for bool {
    open spec fn width() -> nat {
        1
    }

    open spec fn bit(self, i: int) -> bool {
        self
    }

    open spec fn fill(level: bool) -> Self {
        level
    }

    open spec fn nand_of(self, other: Self) -> Self {
        !(self && other)
    }

    proof fn lemma_same_wires(self, other: Self) {
        assert(self.bit(0) == other.bit(0));
    }

    proof fn lemma_fill_wires(level: bool) {
    }

    proof fn lemma_nand_wires(self, other: Self) {
    }

    fn zero() -> (r: Self) {
        false
    }

    fn broadcast(level: bool) -> (r: Self) {
        level
    }

    fn nand(&self, other: Self) -> (r: Self) {
        !(*self && other)
    }
}

/// Sixteen wires, read as a two's-complement number.
#[derive(Clone, Copy, Debug, PartialEq, Eq, Structural)]
pub struct Word(pub u16);

impl Word {
    /// The sixteen wires, most significant first.
    pub fn split(self) -> (r: [bool; 16])
        ensures
            r@ == wires_of(self.0),
            forall|i: int| 0 <= i < 16 ==> r[i] == #[trigger] self.bit(i),
            pack(r@) == self.0,
    {
        let v = self.0;
        let mut r = [false; 16];
        let mut i: usize = 0;
        while i < 16
            invariant
                i <= 16,
                forall|j: int| 0 <= j < i ==> r@[j] == #[trigger] wire(v, j),
            decreases 16 - i,
        {
            let k: u16 = (15 - i) as u16;
            r[i] = (v >> k) & 1 == 1;
            i += 1;
        }
        proof {
            lemma_pack_of_wires(v, r@);
            assert(r@ =~= wires_of(v));
        }
        r
    }

    /// The number that the wires carry.
    pub fn as_raw(&self) -> (r: u16)
        ensures
            r == self.0,
    {
        self.0
    }
}

impl Signal for Word {
    open spec fn width() -> nat {
        16
    }

    open spec fn bit(self, i: int) -> bool {
        wire(self.0, i)
    }

    open spec fn fill(level: bool) -> Self {
        Word(if level { 0xffffu16 } else { 0u16 })
    }

    open spec fn nand_of(self, other: Self) -> Self {
        Word(!(self.0 & other.0))
    }

    proof fn lemma_same_wires(self, other: Self) {
        assert forall|i: int| 0 <= i < 16 implies #[trigger] wire(self.0, i) == wire(
            other.0,
            i,
        ) by {
            assert(self.bit(i) == other.bit(i));
        }
        lemma_bits_determine(self.0, other.0);
    }

    proof fn lemma_fill_wires(level: bool) {
        assert(forall|k: u16| k < 16 ==> !bit_at(0u16, k)) by (bit_vector);
        assert(forall|k: u16| k < 16 ==> bit_at(0xffffu16, k)) by (bit_vector);
    }

    proof fn lemma_nand_wires(self, other: Self) {
        let a = self.0;
        let b = other.0;
        assert(forall|k: u16| k < 16 ==> bit_at(!(a & b), k) == !(bit_at(a, k) && bit_at(b, k)))
            by (bit_vector);
    }

    fn zero() -> (r: Self) {
        Word(0)
    }

    fn broadcast(level: bool) -> (r: Self) {
        if level {
            Word(0xffff)
        } else {
            Word(0)
        }
    }

    fn nand(&self, other: Self) -> (r: Self) {
        Word(!(self.0 & other.0))
    }
}

impl From<u16> for Word {
    fn from(value: u16) -> (r: Self) {
        Word(value)
    }
}

impl FromSpecImpl<u16> for Word {
    open spec fn obeys_from_spec() -> bool {
        true
    }

    open spec fn from_spec(value: u16) -> Self {
        Word(value)
    }
}

impl From<[bool; 16]> for Word {
    fn from(value: [bool; 16]) -> (r: Self) {
        let mut acc: u16 = 0;
        let mut i: usize = 0;
        while i < 16
            invariant
                i <= 16,
                acc as int == prefix_value(value@, i as int),
                acc as int <= 0xffff,
            decreases 16 - i,
        {
            let b: u16 = if value[i] { 1 } else { 0 };
            proof {
                lemma_prefix_value_bound(value@, i as int);
                lemma_prefix_value_step(value@, i as int + 1);
                let a = acc;
                assert((a << 1u16) | b == 2 * a + b) by (bit_vector)
                    requires
                        a < 0x8000,
                        b <= 1,
                ;
            }
            acc = (acc << 1) | b;
            i += 1;
        }
        Word(acc)
    }
}

impl FromSpecImpl<[bool; 16]> for Word {
    open spec fn obeys_from_spec() -> bool {
        true
    }

    open spec fn from_spec(value: [bool; 16]) -> Self {
        Word(pack(value@))
    }
}

impl From<bool> for Word {
    fn from(value: bool) -> (r: Self) {
        let r = if value {
            Word(0xffff)
        } else {
            Word(0)
        };
        r
    }
}

impl FromSpecImpl<bool> for Word {
    open spec fn obeys_from_spec() -> bool {
        true
    }

    open spec fn from_spec(value: bool) -> Self {
        Word(if value { 0xffffu16 } else { 0u16 })
    }
}

} // verus!
