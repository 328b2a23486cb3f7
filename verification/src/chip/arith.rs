//! Arithmetic chips: adders, the incrementer and the ALU.

use crate::chip::basic::{and, lemma_word_gates, mux, nand, not, or};
use crate::signal::{
    digit, lemma_bits_determine, lemma_pack_is_weighted_sum, lemma_zero_wires, pack, wire, Signal,
    Word,
};
use vstd::prelude::*;

verus! {

/// Adds two bits: the carry and the sum.
pub fn half_adder(a: bool, b: bool) -> (r: (bool, bool))
    ensures
        r == ((a && b), (a != b)),
        2 * digit(r.0) + digit(r.1) == digit(a) + digit(b),
{
    let tmp = nand(a, b);
    (not(tmp), nand(nand(a, tmp), nand(tmp, b)))
}

/// Adds three bits: the carry and the sum.
pub fn full_adder(a: bool, b: bool, c: bool) -> (r: (bool, bool))
    ensures
        r == (((a && b) || (c && (a != b))), ((a != b) != c)),
        2 * digit(r.0) + digit(r.1) == digit(a) + digit(b) + digit(c),
{
    let nab = nand(a, b);
    let xor_ab = nand(nand(a, nab), nand(nab, b));
    let tmp = nand(xor_ab, c);
    (nand(nab, tmp), nand(nand(xor_ab, tmp), nand(tmp, c)))
}

/// The weight of bit `k`, counted from the least significant one: two to the `k`.
pub open spec fn weight(k: int) -> int
    decreases k,
{
    if k <= 0 {
        1
    } else {
        2 * weight(k - 1)
    }
}

/// The number read off the last `k` of sixteen wires.
pub open spec fn suffix_value(w: Seq<bool>, k: int) -> int
    decreases k,
{
    if k <= 0 {
        0
    } else {
        suffix_value(w, k - 1) + weight(k - 1) * digit(w[16 - k])
    }
}

/// The weights of the seventeen lowest positions.
pub proof fn lemma_weight_values()
    ensures
        weight(0) == 1,
        weight(1) == 2,
        weight(2) == 4,
        weight(3) == 8,
        weight(4) == 0x10,
        weight(5) == 0x20,
        weight(6) == 0x40,
        weight(7) == 0x80,
        weight(8) == 0x100,
        weight(9) == 0x200,
        weight(10) == 0x400,
        weight(11) == 0x800,
        weight(12) == 0x1000,
        weight(13) == 0x2000,
        weight(14) == 0x4000,
        weight(15) == 0x8000,
        weight(16) == 0x10000,
{
    reveal_with_fuel(weight, 18);
}

/// All sixteen wires, read from the last one up, give the number they carry.
pub proof fn lemma_suffix_value_is_pack(w: Seq<bool>)
    ensures
        suffix_value(w, 16) == pack(w) as int,
{
    assert(suffix_value(w, 0) == 0);
    assert(suffix_value(w, 1) == suffix_value(w, 0) + 0x0001 * digit(w[15])) by {
        lemma_weight_values();
    }
    assert(suffix_value(w, 2) == suffix_value(w, 1) + 0x0002 * digit(w[14])) by {
        lemma_weight_values();
    }
    assert(suffix_value(w, 3) == suffix_value(w, 2) + 0x0004 * digit(w[13])) by {
        lemma_weight_values();
    }
    assert(suffix_value(w, 4) == suffix_value(w, 3) + 0x0008 * digit(w[12])) by {
        lemma_weight_values();
    }
    assert(suffix_value(w, 5) == suffix_value(w, 4) + 0x0010 * digit(w[11])) by {
        lemma_weight_values();
    }
    assert(suffix_value(w, 6) == suffix_value(w, 5) + 0x0020 * digit(w[10])) by {
        lemma_weight_values();
    }
    assert(suffix_value(w, 7) == suffix_value(w, 6) + 0x0040 * digit(w[9])) by {
        lemma_weight_values();
    }
    assert(suffix_value(w, 8) == suffix_value(w, 7) + 0x0080 * digit(w[8])) by {
        lemma_weight_values();
    }
    assert(suffix_value(w, 9) == suffix_value(w, 8) + 0x0100 * digit(w[7])) by {
        lemma_weight_values();
    }
    assert(suffix_value(w, 10) == suffix_value(w, 9) + 0x0200 * digit(w[6])) by {
        lemma_weight_values();
    }
    assert(suffix_value(w, 11) == suffix_value(w, 10) + 0x0400 * digit(w[5])) by {
        lemma_weight_values();
    }
    assert(suffix_value(w, 12) == suffix_value(w, 11) + 0x0800 * digit(w[4])) by {
        lemma_weight_values();
    }
    assert(suffix_value(w, 13) == suffix_value(w, 12) + 0x1000 * digit(w[3])) by {
        lemma_weight_values();
    }
    assert(suffix_value(w, 14) == suffix_value(w, 13) + 0x2000 * digit(w[2])) by {
        lemma_weight_values();
    }
    assert(suffix_value(w, 15) == suffix_value(w, 14) + 0x4000 * digit(w[1])) by {
        lemma_weight_values();
    }
    assert(suffix_value(w, 16) == suffix_value(w, 15) + 0x8000 * digit(w[0])) by {
        lemma_weight_values();
    }
    lemma_pack_is_weighted_sum(w);
}

/// Wires before the last `k` have no part in the number read off the last `k`.
pub proof fn lemma_suffix_value_update(w: Seq<bool>, k: int, at: int, b: bool)
    requires
        w.len() == 16,
        0 <= k <= 16,
        0 <= at < 16 - k,
    ensures
        suffix_value(w.update(at, b), k) == suffix_value(w, k),
    decreases k,
{
    if k > 0 {
        lemma_suffix_value_update(w, k - 1, at, b);
    }
}

/// The sum of two sixteen-bit numbers, cut to sixteen bits.
pub open spec fn wrapping_sum(x: u16, y: u16) -> u16 {
    ((x + y) % 0x10000) as u16
}

/// Adds two words with a ripple of full adders; the carry out of the top bit is dropped.
pub fn add(a: Word, b: Word) -> (r: Word)
    ensures
        r.0 == wrapping_sum(a.0, b.0),
{
    let x = a.split();
    let y = b.split();
    let mut output = [false; 16];
    let (c, s) = half_adder(x[15], y[15]);
    let mut carry = c;
    output[15] = s;
    proof {
        assert(suffix_value(output@, 0) == 0);
        assert(suffix_value(x@, 0) == 0);
        assert(suffix_value(y@, 0) == 0);
        assert(weight(0) == 1);
        assert(weight(1) == 2 * weight(0));
    }
    let mut i: usize = 1;
    while i < 16
        invariant
            1 <= i <= 16,
            suffix_value(output@, i as int) + weight(i as int) * digit(carry) == suffix_value(
                x@,
                i as int,
            ) + suffix_value(y@, i as int),
        decreases 16 - i,
    {
        let (c, s) = full_adder(x[15 - i], y[15 - i], carry);
        proof {
            let p = weight(i as int);
            assert(weight(i as int + 1) == 2 * p);
            lemma_suffix_value_update(output@, i as int, 15 - i as int, s);
            let after = output@.update(15 - i as int, s);
            assert(suffix_value(after, i as int + 1) == suffix_value(after, i as int) + p * digit(
                s,
            ));
            assert(suffix_value(x@, i as int + 1) == suffix_value(x@, i as int) + p * digit(
                x@[15 - i as int],
            ));
            assert(suffix_value(y@, i as int + 1) == suffix_value(y@, i as int) + p * digit(
                y@[15 - i as int],
            ));
            lemma_adder_step(p, x@[15 - i as int], y@[15 - i as int], carry, c, s);
        }
        carry = c;
        output[15 - i] = s;
        i += 1;
    }
    let r = Word::from(output);
    proof {
        lemma_suffix_value_is_pack(output@);
        lemma_suffix_value_is_pack(x@);
        lemma_suffix_value_is_pack(y@);
        lemma_weight_values();
        assert(r.0 as int + 0x10000 * digit(carry) == a.0 + b.0);
    }
    r
}

/// One full adder keeps the sums in step: what it puts out, weighed, is what it took in.
pub proof fn lemma_adder_step(p: int, x: bool, y: bool, cin: bool, cout: bool, s: bool)
    requires
        2 * digit(cout) + digit(s) == digit(x) + digit(y) + digit(cin),
    ensures
        p * digit(s) + (2 * p) * digit(cout) == p * digit(x) + p * digit(y) + p * digit(cin),
{
    assert(p * digit(s) + (2 * p) * digit(cout) == p * (2 * digit(cout) + digit(s)))
        by (nonlinear_arith);
    assert(p * digit(x) + p * digit(y) + p * digit(cin) == p * (digit(x) + digit(y) + digit(cin)))
        by (nonlinear_arith);
}

/// Adds one, wrapping from 0xffff to 0.
pub fn inc(input: Word) -> (r: Word)
    ensures
        r.0 == wrapping_sum(input.0, 1),
{
    self::add(input, Word::from(1u16))
}

/// What the ALU computes from `x` and `y` under its six control bits, applied
/// in this order: zero `x`, invert `x`, zero `y`, invert `y`, add (else AND),
/// invert the output.
pub open spec fn alu_out(
    x: u16,
    y: u16,
    zx: bool,
    nx: bool,
    zy: bool,
    ny: bool,
    f: bool,
    no: bool,
) -> u16 {
    let x1 = if zx { 0u16 } else { x };
    let x2 = if nx { !x1 } else { x1 };
    let y1 = if zy { 0u16 } else { y };
    let y2 = if ny { !y1 } else { y1 };
    let out = if f { wrapping_sum(x2, y2) } else { x2 & y2 };
    if no {
        !out
    } else {
        out
    }
}

/// Whether `v` is negative as a two's-complement number.
pub open spec fn is_negative(v: u16) -> bool {
    v >= 0x8000
}

/// AND with all ones changes nothing, and AND with zero gives zero.
pub proof fn lemma_masks(v: u16)
    by (bit_vector)
    ensures
        0xffffu16 & v == v,
        0u16 & v == 0,
{
}

/// The first wire is the sign.
pub proof fn lemma_sign_wire(v: u16)
    ensures
        wire(v, 0) == is_negative(v),
{
    assert(((v >> 15u16) & 1 == 1) == (v >= 0x8000)) by (bit_vector);
}

/// The arithmetic logic unit: the output word, whether it is zero, and whether
/// it is negative.
pub fn alu(
    a: Word,
    b: Word,
    zero_a: bool,
    negate_a: bool,
    zero_b: bool,
    negate_b: bool,
    f: bool,
    negate_output: bool,
) -> (r: (Word, bool, bool))
    ensures
        r.0.0 == alu_out(a.0, b.0, zero_a, negate_a, zero_b, negate_b, f, negate_output),
        r.1 == (r.0.0 == 0),
        r.2 == is_negative(r.0.0),
{
    let ghost a0 = a;
    let ghost b0 = b;
    let mask_a = Word::from(not(zero_a));
    let a = and(mask_a, a);
    proof {
        lemma_word_gates(mask_a, a0);
        lemma_masks(a0.0);
    }
    let ghost a1 = a;
    let a = mux(a, not(a), negate_a);
    proof {
        lemma_word_gates(a1, a1);
    }
    let mask_b = Word::from(not(zero_b));
    let b = and(mask_b, b);
    proof {
        lemma_word_gates(mask_b, b0);
        lemma_masks(b0.0);
    }
    let ghost b1 = b;
    let b = mux(b, not(b), negate_b);
    proof {
        lemma_word_gates(b1, b1);
    }
    let and_ab = and(a, b);
    let add_ab = self::add(a, b);
    let output = mux(and_ab, add_ab, f);
    proof {
        lemma_word_gates(a, b);
    }
    let ghost o1 = output;
    let output = mux(output, not(output), negate_output);
    proof {
        lemma_word_gates(o1, o1);
    }
    let bits = output.split();
    let zero = not(
        or(
            or(
                or(or(bits[0], bits[1]), or(bits[2], bits[3])),
                or(or(bits[4], bits[5]), or(bits[6], bits[7])),
            ),
            or(
                or(or(bits[8], bits[9]), or(bits[10], bits[11])),
                or(or(bits[12], bits[13]), or(bits[14], bits[15])),
            ),
        ),
    );
    let negate = bits[0];
    proof {
        lemma_sign_wire(output.0);
        assert(bits[0] == output.bit(0));
        if output.0 == 0 {
            assert forall|i: int| 0 <= i < 16 implies !#[trigger] bits[i] by {
                lemma_zero_wires();
                assert(bits[i] == output.bit(i));
            }
        }
        if zero {
            assert forall|i: int| 0 <= i < 16 implies #[trigger] wire(output.0, i) == wire(
                0u16,
                i,
            ) by {
                lemma_zero_wires();
                assert(bits[i] == output.bit(i));
            }
            lemma_bits_determine(output.0, 0u16);
        }
    }
    (output, zero, negate)
}

} // verus!
