use nand2tetris::chip::arith::{alu, full_adder, half_adder, inc};
use nand2tetris::signal::Word;

#[test]
fn half_adder_simply_adds_two_bits() {
    let inputs = [(false, false), (false, true), (true, false), (true, true)];
    let expected = [(false, false), (false, true), (false, true), (true, false)];

    inputs
        .iter()
        .zip(expected.iter())
        .for_each(|(&(a, b), &expected)| assert_eq!(half_adder(a, b), expected));
}

#[test]
fn full_adder_adds_two_bits_and_the_carried_bit() {
    let inputs = [
        (false, false, false),
        (false, true, false),
        (true, false, false),
        (true, true, false),
        (false, false, true),
        (false, true, true),
        (true, false, true),
        (true, true, true),
    ];
    let expected = [
        (false, false),
        (false, true),
        (false, true),
        (true, false),
        (false, true),
        (true, false),
        (true, false),
        (true, true),
    ];

    inputs
        .iter()
        .zip(expected.iter())
        .for_each(|(&(a, b, c), &expected)| assert_eq!(full_adder(a, b, c), expected));
}

#[test]
fn add16_adds_two_16bit_integers() {
    let inputs = [
        ([false; 16], [false; 16]),
        ([false; 16], [true; 16]),
        ([true; 16], [false; 16]),
        ([true; 16], [true; 16]),
        (
            [
                false, true, false, true, false, true, false, true, false, true, false, true,
                false, true, false, true,
            ],
            [
                true, false, true, false, true, false, true, false, true, false, true, false,
                true, false, true, false,
            ],
        ),
        (
            [
                false, false, false, true, false, false, true, false, false, false, true, true,
                false, true, false, false,
            ],
            [
                true, false, false, true, true, false, false, false, false, true, true, true,
                false, true, true, false,
            ],
        ),
    ];
    let expected = [
        [false; 16],
        [true; 16],
        [true; 16],
        [
            true, true, true, true, true, true, true, true, true, true, true, true, true, true,
            true, false,
        ],
        [true; 16],
        [
            true, false, true, false, true, false, true, false, true, false, true, false, true,
            false, true, false,
        ],
    ];

    inputs
        .iter()
        .zip(expected.iter())
        .for_each(|(&(a, b), &out)| {
            assert_eq!(
                nand2tetris::chip::arith::add(Word::from(a), Word::from(b)),
                Word::from(out),
                "{:?} + {:?} = {:?}",
                Word::from(a),
                Word::from(b),
                Word::from(out)
            )
        });
}

#[test]
fn inc16_increments_an_input() {
    let inputs = [
        [false; 16],
        [true; 16],
        [
            false, false, false, false, false, false, false, false, false, false, false, false,
            false, false, false, true,
        ],
        [
            false, false, false, false, false, false, false, false, false, false, true, false,
            false, false, false, false,
        ],
    ];
    let expected = [
        [
            false, false, false, false, false, false, false, false, false, false, false, false,
            false, false, false, true,
        ],
        [false; 16],
        [
            false, false, false, false, false, false, false, false, false, false, false, false,
            false, false, true, false,
        ],
        [
            false, false, false, false, false, false, false, false, false, false, true, false,
            false, false, false, true,
        ],
    ];

    inputs
        .iter()
        .zip(expected.iter())
        .for_each(|(&input, &out)| assert_eq!(inc(Word::from(input)), Word::from(out)));
}

#[test]
fn alu_without_any_flags_outputs_and_of_both_inputs() {
    let inputs = [
        ([false; 16], [false; 16]),
        ([false; 16], [true; 16]),
        ([true; 16], [false; 16]),
        ([true; 16], [true; 16]),
        (
            [
                false, false, false, false, false, false, false, false, false, false, false,
                false, false, false, false, false,
            ],
            [
                true, false, false, false, false, false, false, false, false, false, false,
                false, false, false, false, false,
            ],
        ),
        (
            [
                true, false, false, false, false, false, false, false, false, false, false,
                false, false, false, false, false,
            ],
            [
                false, false, false, false, false, false, false, false, false, false, false,
                false, false, false, false, false,
            ],
        ),
        (
            [
                true, false, false, false, false, false, false, false, false, false, false,
                false, false, false, false, false,
            ],
            [
                true, false, false, false, false, false, false, false, false, false, false,
                false, false, false, false, false,
            ],
        ),
    ];
    let expected = [
        (Word::from([false; 16]), true, false),
        (Word::from([false; 16]), true, false),
        (Word::from([false; 16]), true, false),
        (Word::from([true; 16]), false, true),
        (Word::from([false; 16]), true, false),
        (Word::from([false; 16]), true, false),
        (
            Word::from([
                true, false, false, false, false, false, false, false, false, false, false,
                false, false, false, false, false,
            ]),
            false,
            true,
        ),
    ];

    inputs
        .iter()
        .zip(expected.iter())
        .for_each(|(&(a, b), &out)| {
            assert_eq!(
                alu(
                    Word::from(a),
                    Word::from(b),
                    false,
                    false,
                    false,
                    false,
                    false,
                    false
                ),
                out
            )
        });
}

#[test]
fn alu_with_f_outputs_sum_of_both_inputs() {
    let inputs = [
        ([false; 16], [false; 16]),
        ([false; 16], [true; 16]),
        ([true; 16], [false; 16]),
        ([true; 16], [true; 16]),
        (
            [
                false, true, false, true, false, true, false, true, false, true, false, true,
                false, true, false, true,
            ],
            [
                true, false, true, false, true, false, true, false, true, false, true, false,
                true, false, true, false,
            ],
        ),
        (
            [
                false, false, false, true, false, false, true, false, false, false, true, true,
                false, true, false, false,
            ],
            [
                true, false, false, true, true, false, false, false, false, true, true, true,
                false, true, true, false,
            ],
        ),
    ];
    let expected = [
        (Word::from([false; 16]), true, false),
        (Word::from([true; 16]), false, true),
        (Word::from([true; 16]), false, true),
        (
            Word::from([
                true, true, true, true, true, true, true, true, true, true, true, true, true,
                true, true, false,
            ]),
            false,
            true,
        ),
        (Word::from([true; 16]), false, true),
        (
            Word::from([
                true, false, true, false, true, false, true, false, true, false, true, false,
                true, false, true, false,
            ]),
            false,
            true,
        ),
    ];

    inputs
        .iter()
        .zip(expected.iter())
        .for_each(|(&(a, b), &out)| {
            assert_eq!(
                alu(
                    Word::from(a),
                    Word::from(b),
                    false,
                    false,
                    false,
                    false,
                    true,
                    false
                ),
                out
            )
        });
}

#[test]
fn alu_with_negate_output_inverts_the_output() {
    let inputs = [
        (
            [false; 16],
            [false; 16],
            false,
            false,
            false,
            false,
            false,
            true,
        ),
        (
            [false; 16],
            [true; 16],
            false,
            false,
            false,
            false,
            false,
            true,
        ),
        (
            [true; 16],
            [false; 16],
            false,
            false,
            false,
            false,
            false,
            true,
        ),
        (
            [true; 16], [true; 16], false, false, false, false, false, true,
        ),
        (
            [false; 16],
            [false; 16],
            false,
            false,
            false,
            false,
            true,
            true,
        ),
        (
            [false; 16],
            [true; 16],
            false,
            false,
            false,
            false,
            true,
            true,
        ),
        (
            [true; 16],
            [false; 16],
            false,
            false,
            false,
            false,
            true,
            true,
        ),
        (
            [true; 16], [true; 16], false, false, false, false, true, true,
        ),
    ];
    let expected = [
        (Word::from([true; 16]), false, true),
        (Word::from([true; 16]), false, true),
        (Word::from([true; 16]), false, true),
        (Word::from([false; 16]), true, false),
        (Word::from([true; 16]), false, true),
        (Word::from([false; 16]), true, false),
        (Word::from([false; 16]), true, false),
        (
            Word::from([
                false, false, false, false, false, false, false, false, false, false, false,
                false, false, false, false, true,
            ]),
            false,
            false,
        ),
    ];

    inputs
        .iter()
        .zip(expected.iter())
        .for_each(|(&(a, b, za, na, zb, nb, f, no), &out)| {
            assert_eq!(
                alu(Word::from(a), Word::from(b), za, na, zb, nb, f, no),
                out
            )
        });
}

#[test]
fn alu_with_zero_flag_forces_the_input_zero() {
    let inputs = [
        ([false; 16], [false; 16], false, false),
        ([false; 16], [false; 16], true, true),
        ([false; 16], [true; 16], false, true),
        ([false; 16], [true; 16], true, false),
        ([true; 16], [false; 16], false, true),
        ([true; 16], [false; 16], true, false),
        ([true; 16], [true; 16], true, true),
    ];
    let expected = [
        (Word::from([false; 16]), true, false),
        (Word::from([false; 16]), true, false),
        (Word::from([false; 16]), true, false),
        (Word::from([true; 16]), false, true),
        (Word::from([true; 16]), false, true),
        (Word::from([false; 16]), true, false),
        (Word::from([false; 16]), true, false),
    ];

    inputs
        .iter()
        .zip(expected.iter())
        .for_each(|(&(a, b, za, zb), &out)| {
            assert_eq!(
                alu(
                    Word::from(a),
                    Word::from(b),
                    za,
                    false,
                    zb,
                    false,
                    true,
                    false
                ),
                out
            )
        });
}

#[test]
fn alu_with_negate_flag_inverts_the_input() {
    let inputs = [
        ([false; 16], [false; 16], false, false),
        ([false; 16], [false; 16], true, true),
        ([false; 16], [true; 16], false, true),
        ([false; 16], [true; 16], true, false),
        ([true; 16], [false; 16], false, true),
        ([true; 16], [false; 16], true, false),
        ([true; 16], [true; 16], false, false),
        ([true; 16], [true; 16], true, true),
    ];
    let expected = [
        (Word::from([false; 16]), true, false),
        (
            Word::from([
                true, true, true, true, true, true, true, true, true, true, true, true, true,
                true, true, false,
            ]),
            false,
            true,
        ),
        (Word::from([false; 16]), true, false),
        (
            Word::from([
                true, true, true, true, true, true, true, true, true, true, true, true, true,
                true, true, false,
            ]),
            false,
            true,
        ),
        (
            Word::from([
                true, true, true, true, true, true, true, true, true, true, true, true, true,
                true, true, false,
            ]),
            false,
            true,
        ),
        (Word::from([false; 16]), true, false),
        (
            Word::from([
                true, true, true, true, true, true, true, true, true, true, true, true, true,
                true, true, false,
            ]),
            false,
            true,
        ),
        (Word::from([false; 16]), true, false),
    ];

    inputs
        .iter()
        .zip(expected.iter())
        .for_each(|(&(a, b, na, nb), &out)| {
            assert_eq!(
                alu(
                    Word::from(a),
                    Word::from(b),
                    false,
                    na,
                    false,
                    nb,
                    true,
                    false
                ),
                out
            )
        });
}
