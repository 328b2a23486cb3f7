//! Arithmetic on arrays of sixteen wires.

use crate::chip::arith::{
    alu_out, is_negative, lemma_adder_step, lemma_masks, lemma_sign_wire,
    lemma_suffix_value_is_pack, lemma_suffix_value_update, lemma_weight_values, suffix_value,
    weight, wrapping_sum,
};
use crate::signal::{
    digit, lemma_bits_determine, lemma_pack_of_wires, lemma_pack_wires, lemma_zero_wires, pack,
    wire,
};
use crate::wired::chip::{and16, nand, not, not16, or, or16};
use vstd::prelude::*;

verus! {

/// Adds two bits: the carry and the sum.
pub fn half_adder(a: bool, b: bool) -> (r: (bool, bool))
    ensures
        r == ((a && b), (a != b)),
        2 * digit(r.0) + digit(r.1) == digit(a) + digit(b),
{
    let tmp = nand(a, b);
    (not(tmp), nand(nand(a, tmp), nand(tmp, b)))
}

/// Adds three bits: the carry and the sum.
pub fn full_adder(a: bool, b: bool, c: bool) -> (r: (bool, bool))
    ensures
        r == (((a && b) || (c && (a != b))), ((a != b) != c)),
        2 * digit(r.0) + digit(r.1) == digit(a) + digit(b) + digit(c),
{
    let nab = nand(a, b);
    let xor_ab = nand(nand(a, nab), nand(nab, b));
    let tmp = nand(xor_ab, c);
    (nand(nab, tmp), nand(nand(xor_ab, tmp), nand(tmp, c)))
}

/// Adds two numbers with a ripple of full adders; the carry out of the top
/// bit is dropped.
pub fn add16(a: &[bool; 16], b: &[bool; 16]) -> (r: [bool; 16])
    ensures
        pack(r@) == wrapping_sum(pack(a@), pack(b@)),
{
    let mut output = [false; 16];
    let (c, s) = half_adder(a[15], b[15]);
    let mut carry = c;
    output[15] = s;
    proof {
        assert(suffix_value(output@, 0) == 0);
        assert(suffix_value(a@, 0) == 0);
        assert(suffix_value(b@, 0) == 0);
        assert(weight(0) == 1);
        assert(weight(1) == 2 * weight(0));
    }
    let mut i: usize = 0;
    while i < 15
        invariant
            i <= 15,
            suffix_value(output@, i as int + 1) + weight(i as int + 1) * digit(carry)
                == suffix_value(a@, i as int + 1) + suffix_value(b@, i as int + 1),
        decreases 15 - i,
    {
        let (c, s) = full_adder(a[14 - i], b[14 - i], carry);
        proof {
            let k = i as int + 1;
            let p = weight(k);
            assert(weight(k + 1) == 2 * p);
            lemma_suffix_value_update(output@, k, 15 - k, s);
            let after = output@.update(15 - k, s);
            assert(suffix_value(after, k + 1) == suffix_value(after, k) + p * digit(s));
            assert(suffix_value(a@, k + 1) == suffix_value(a@, k) + p * digit(a@[15 - k]));
            assert(suffix_value(b@, k + 1) == suffix_value(b@, k) + p * digit(b@[15 - k]));
            lemma_adder_step(p, a@[15 - k], b@[15 - k], carry, c, s);
        }
        carry = c;
        output[14 - i] = s;
        i += 1;
    }
    proof {
        lemma_suffix_value_is_pack(output@);
        lemma_suffix_value_is_pack(a@);
        lemma_suffix_value_is_pack(b@);
        lemma_weight_values();
        assert(pack(output@) as int + 0x10000 * digit(carry) == pack(a@) + pack(b@));
    }
    output
}

/// Adds one, wrapping from all ones to zero.
pub fn inc16(input: &[bool; 16]) -> (r: [bool; 16])
    ensures
        pack(r@) == wrapping_sum(pack(input@), 1),
{
    let mut one = [false; 16];
    one[15] = true;
    proof {
        assert(forall|k: u16| k < 16 ==> ((1u16 >> k) & 1 == 1) == (k == 0)) by (bit_vector);
        lemma_pack_of_wires(1u16, one@);
    }
    add16(input, &one)
}

/// The arithmetic logic unit: the output, whether it is zero, and whether it
/// is negative.
pub fn alu(
    a: &[bool; 16],
    b: &[bool; 16],
    zero_a: bool,
    negate_a: bool,
    zero_b: bool,
    negate_b: bool,
    f: bool,
    negate_output: bool,
) -> (r: ([bool; 16], bool, bool))
    ensures
        pack(r.0@) == alu_out(
            pack(a@),
            pack(b@),
            zero_a,
            negate_a,
            zero_b,
            negate_b,
            f,
            negate_output,
        ),
        r.1 == (pack(r.0@) == 0),
        r.2 == is_negative(pack(r.0@)),
{
    proof {
        lemma_masks(pack(a@));
        lemma_masks(pack(b@));
    }
    let a = &and16(&fill(not(zero_a)), a);
    proof {
        lemma_select(pack(a@), !pack(a@));
    }
    let a = &or16(&and16(&fill(not(negate_a)), a), &and16(&fill(negate_a), &not16(a)));
    let b = &and16(&fill(not(zero_b)), b);
    proof {
        lemma_select(pack(b@), !pack(b@));
    }
    let b = &or16(&and16(&fill(not(negate_b)), b), &and16(&fill(negate_b), &not16(b)));
    let and_ab = &and16(a, b);
    let add_ab = &add16(a, b);
    proof {
        lemma_select(pack(and_ab@), pack(add_ab@));
    }
    let output = &or16(&and16(&fill(not(f)), and_ab), &and16(&fill(f), add_ab));
    proof {
        lemma_select(pack(output@), !pack(output@));
    }
    let output = or16(
        &and16(&fill(not(negate_output)), output),
        &and16(&fill(negate_output), &not16(output)),
    );
    let zero = not(
        or(
            or(
                or(or(output[0], output[1]), or(output[2], output[3])),
                or(or(output[4], output[5]), or(output[6], output[7])),
            ),
            or(
                or(or(output[8], output[9]), or(output[10], output[11])),
                or(or(output[12], output[13]), or(output[14], output[15])),
            ),
        ),
    );
    let negate = output[0];
    proof {
        let out = pack(output@);
        lemma_pack_wires(output@);
        lemma_sign_wire(out);
        lemma_zero_wires();
        if zero {
            assert forall|i: int| 0 <= i < 16 implies #[trigger] wire(out, i) == wire(0u16, i) by {
                assert(wire(out, i) == output@[i]);
            }
            lemma_bits_determine(out, 0u16);
        }
        if out == 0 {
            assert forall|i: int| 0 <= i < 16 implies !#[trigger] output@[i] by {
                assert(wire(out, i) == output@[i]);
            }
        }
    }
    (output, zero, negate)
}

/// Two masked numbers, one of them masked out, make the other.
proof fn lemma_select(x: u16, y: u16)
    by (bit_vector)
    ensures
        (0xffffu16 & x) | (0u16 & y) == x,
        (0u16 & x) | (0xffffu16 & y) == y,
{
}

/// Sixteen wires at one level.
fn fill(level: bool) -> (r: [bool; 16])
    ensures
        pack(r@) == if level { 0xffffu16 } else { 0u16 },
        forall|i: int| 0 <= i < 16 ==> #[trigger] r[i] == level,
{
    let r = [level; 16];
    proof {
        let v = if level { 0xffffu16 } else { 0u16 };
        assert(forall|k: u16| k < 16 ==> ((0xffffu16 >> k) & 1 == 1)) by (bit_vector);
        lemma_zero_wires();
        lemma_pack_of_wires(v, r@);
    }
    r
}

} // verus!
