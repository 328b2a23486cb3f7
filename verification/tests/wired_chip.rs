use nand2tetris::wired::chip::{
    and, dmux, dmux4way, dmux8way, mux, nand, not, or, or8way, xor,
};

#[test]
fn chip_nand_returns_true_except_both_inputs_are_true() {
    let inputs = [(false, false), (false, true), (true, false), (true, true)];
    let expected = [true, true, true, false];

    inputs
        .iter()
        .zip(expected.iter())
        .for_each(|(&(a, b), &out)| assert_eq!(nand(a, b), out));
}

#[test]
fn chip_not_inverts_a_input() {
    let inputs = [false, true];
    let expected = [true, false];

    inputs
        .iter()
        .zip(expected.iter())
        .for_each(|(&input, &output)| assert_eq!(not(input), output));
}

#[test]
fn chip_and_returns_false_except_both_inputs_are_true() {
    let inputs = [(false, false), (false, true), (true, false), (true, true)];
    let expected = [false, false, false, true];

    inputs
        .iter()
        .zip(expected.iter())
        .for_each(|(&(a, b), &out)| assert_eq!(and(a, b), out));
}

#[test]
fn chip_or_returns_true_except_both_inputs_are_false() {
    let inputs = [(false, false), (false, true), (true, false), (true, true)];
    let expected = [false, true, true, true];

    inputs
        .iter()
        .zip(expected.iter())
        .for_each(|(&(a, b), &out)| assert_eq!(or(a, b), out));
}

#[test]
fn or8way_returns_true_except_all_inputs_are_false() {
    let inputs = [
        [false; 8],
        [false, false, false, false, false, false, false, true],
        [false, false, false, false, false, false, true, false],
        [false, false, false, false, false, true, false, false],
        [false, false, false, false, true, false, false, false],
        [false, false, false, true, false, false, false, false],
        [false, false, true, false, false, false, false, false],
        [false, true, false, false, false, false, false, false],
        [true, false, false, false, false, false, false, false],
    ];
    let expected = [false, true, true, true, true, true, true, true, true];

    inputs
        .iter()
        .zip(expected.iter())
        .for_each(|(input, &output)| assert_eq!(or8way(input), output));
}

#[test]
fn chip_xor_returns_false_if_both_inputs_are_the_same() {
    let inputs = [(false, false), (false, true), (true, false), (true, true)];
    let expected = [false, true, true, false];

    inputs
        .iter()
        .zip(expected.iter())
        .for_each(|(&(a, b), &out)| assert_eq!(xor(a, b), out));
}

#[test]
fn chip_mux_selects_the_input() {
    let inputs = [
        (false, false, false),
        (false, true, false),
        (true, false, false),
        (true, true, false),
        (false, false, true),
        (false, true, true),
        (true, false, true),
        (true, true, true),
    ];
    let expected = [false, false, true, true, false, true, false, true];

    inputs
        .iter()
        .zip(expected.iter())
        .for_each(|(&(a, b, s), &out)| assert_eq!(mux(a, b, s), out));
}

#[test]
fn chip_dmux_divides_the_input() {
    let inputs = [(false, false), (false, true), (true, false), (true, true)];
    let expected = [(false, false), (false, false), (true, false), (false, true)];

    inputs
        .iter()
        .zip(expected.iter())
        .for_each(|(&(input, s), &(x, y))| {
            let (xx, yy) = dmux(input, s);
            assert_eq!(xx, x);
            assert_eq!(yy, y);
        });
}

#[test]
fn chip_dmux4way_divides_the_input() {
    let inputs = [
        (false, false, false),
        (true, false, false),
        (true, false, true),
        (true, true, false),
        (true, true, true),
    ];
    let expected = [
        (false, false, false, false),
        (true, false, false, false),
        (false, true, false, false),
        (false, false, true, false),
        (false, false, false, true),
    ];

    inputs
        .iter()
        .zip(expected.iter())
        .for_each(|(&(input, s1, s0), &(w, x, y, z))| {
            let (ww, xx, yy, zz) = dmux4way(input, s1, s0);
            assert_eq!(ww, w);
            assert_eq!(xx, x);
            assert_eq!(yy, y);
            assert_eq!(zz, z);
        });
}

#[test]
fn chip_dmux8way_divides_the_input() {
    let inputs = [
        (false, false, false, false),
        (true, false, false, false),
        (true, false, false, true),
        (true, false, true, false),
        (true, false, true, true),
        (true, true, false, false),
        (true, true, false, true),
        (true, true, true, false),
        (true, true, true, true),
    ];
    let expected = [
        [false; 8],
        [true, false, false, false, false, false, false, false],
        [false, true, false, false, false, false, false, false],
        [false, false, true, false, false, false, false, false],
        [false, false, false, true, false, false, false, false],
        [false, false, false, false, true, false, false, false],
        [false, false, false, false, false, true, false, false],
        [false, false, false, false, false, false, true, false],
        [false, false, false, false, false, false, false, true],
    ];

    inputs
        .iter()
        .zip(expected.iter())
        .for_each(|(&(input, s2, s1, s0), &expected)| {
            let output = dmux8way(input, s2, s1, s0);
            assert_eq!(output, expected);
        });
}
