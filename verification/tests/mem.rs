use nand2tetris::chip::mem::{
    Dff, Pc, Ram16k, Ram4k, Ram512, Ram64, Ram8, Ram8k, Register,
};
use nand2tetris::signal::Word;

#[test]
fn dff_outputs_the_previous_input() {
    let inputs = [false, false, true, true, false];
    let expected = [
        (false, false),
        (false, false),
        (false, true),
        (true, true),
        (true, false),
    ];
    let mut dff = Dff::new();

    inputs
        .iter()
        .zip(expected.iter())
        .for_each(|(&input, &(now, next))| {
            assert_eq!(dff.get_output(), now);
            dff.tick(input);
            assert_eq!(dff.get_output(), next);
        });
}

#[test]
fn dff16_outputs_the_previous_input() {
    let inputs = [
        [false; 16],
        [true; 16],
        [true; 16],
        [
            false, false, false, false, false, false, false, false, false, false, false, false,
            false, false, false, true,
        ],
        [false; 16],
    ];
    let expected = [
        ([false; 16], [false; 16]),
        ([false; 16], [true; 16]),
        ([true; 16], [true; 16]),
        (
            [true; 16],
            [
                false, false, false, false, false, false, false, false, false, false, false,
                false, false, false, false, true,
            ],
        ),
        (
            [
                false, false, false, false, false, false, false, false, false, false, false,
                false, false, false, false, true,
            ],
            [false; 16],
        ),
    ];
    let mut dff = Dff::new();

    inputs
        .iter()
        .zip(expected.iter())
        .for_each(|(&input, &(now, next))| {
            assert_eq!(dff.get_output(), Word::from(now));
            dff.tick(Word::from(input));
            assert_eq!(dff.get_output(), Word::from(next));
        });
}

#[test]
fn register_changes_the_output_when_load_flag_is_on() {
    let inputs = [
        (false, [false; 16]),
        (true, [false; 16]),
        (false, [true; 16]),
        (true, [true; 16]),
        (false, [false; 16]),
        (true, [false; 16]),
    ];
    let expected = [
        [false; 16],
        [false; 16],
        [false; 16],
        [true; 16],
        [true; 16],
        [false; 16],
    ];
    let mut register = Register::new();

    inputs
        .iter()
        .zip(expected.iter())
        .for_each(|(&(load, input), &output)| {
            register.tick(load, Word::from(input));
            assert_eq!(register.get_output(), Word::from(output));
        });
}

#[test]
fn ram8_has_8_registers() {
    let inputs = [
        ([false, false, false], false, [false; 16]),
        ([false, true, false], false, [false; 16]),
        ([true, false, true], false, [false; 16]),
        ([true, true, true], false, [false; 16]),
        ([false, false, false], true, [true; 16]),
        ([false, false, false], true, [false; 16]),
        ([false, true, false], true, [true; 16]),
        ([false, false, false], false, [true; 16]),
        ([true, true, true], true, [true; 16]),
    ];
    let expected = [
        [false; 16],
        [false; 16],
        [false; 16],
        [false; 16],
        [true; 16],
        [false; 16],
        [true; 16],
        [false; 16],
        [true; 16],
    ];
    let mut ram = Ram8::new();

    inputs
        .iter()
        .zip(expected.iter())
        .for_each(|(&(address, load, input), &output)| {
            ram.tick(&address, load, Word::from(input));
            assert_eq!(ram.get_output(), Word::from(output));
        });
}

#[test]
fn ram64_has_64_registers() {
    let inputs = [
        ([false; 6], false, [false; 16]),
        ([true; 6], false, [false; 16]),
        ([false; 6], true, [true; 16]),
        ([false; 6], true, [false; 16]),
        ([true; 6], true, [true; 16]),
        ([false; 6], false, [true; 16]),
    ];
    let expected = [
        [false; 16],
        [false; 16],
        [true; 16],
        [false; 16],
        [true; 16],
        [false; 16],
    ];
    let mut ram = Ram64::new();

    inputs
        .iter()
        .zip(expected.iter())
        .for_each(|(&(address, load, input), &output)| {
            ram.tick(&address, load, Word::from(input));
            assert_eq!(ram.get_output(), Word::from(output));
        });
}

#[test]
fn ram512_has_512_registers() {
    let inputs = [
        ([false; 9], false, [false; 16]),
        ([true; 9], false, [false; 16]),
        ([false; 9], true, [true; 16]),
        ([false; 9], true, [false; 16]),
        ([true; 9], true, [true; 16]),
        ([false; 9], false, [true; 16]),
    ];
    let expected = [
        [false; 16],
        [false; 16],
        [true; 16],
        [false; 16],
        [true; 16],
        [false; 16],
    ];
    let mut ram = Ram512::new();

    inputs
        .iter()
        .zip(expected.iter())
        .for_each(|(&(address, load, input), &output)| {
            ram.tick(&address, load, Word::from(input));
            assert_eq!(ram.get_output(), Word::from(output));
        });
}

#[test]
fn ram4k_has_4096_registers() {
    let inputs = [
        ([false; 12], false, [false; 16]),
        ([true; 12], false, [false; 16]),
        ([false; 12], true, [true; 16]),
        ([false; 12], true, [false; 16]),
        ([true; 12], true, [true; 16]),
        ([false; 12], false, [true; 16]),
    ];
    let expected = [
        [false; 16],
        [false; 16],
        [true; 16],
        [false; 16],
        [true; 16],
        [false; 16],
    ];
    let mut ram = Ram4k::new();

    inputs
        .iter()
        .zip(expected.iter())
        .for_each(|(&(address, load, input), &output)| {
            ram.tick(&address, load, Word::from(input));
            assert_eq!(ram.get_output(), Word::from(output));
        });
}

#[test]
fn ram8k_has_4096_registers() {
    let inputs = [
        ([false; 13], false, [false; 16]),
        ([true; 13], false, [false; 16]),
        ([false; 13], true, [true; 16]),
        ([false; 13], true, [false; 16]),
        ([true; 13], true, [true; 16]),
        ([false; 13], false, [true; 16]),
    ];
    let expected = [
        [false; 16],
        [false; 16],
        [true; 16],
        [false; 16],
        [true; 16],
        [false; 16],
    ];
    let mut ram = Ram8k::new();

    inputs
        .iter()
        .zip(expected.iter())
        .for_each(|(&(address, load, input), &output)| {
            ram.tick(&address, load, Word::from(input));
            assert_eq!(ram.get_output(), Word::from(output));
        });
}

#[test]
fn ram16k_has_16384_registers() {
    let inputs = [
        ([false; 14], false, [false; 16]),
        ([true; 14], false, [false; 16]),
        ([false; 14], true, [true; 16]),
        ([false; 14], true, [false; 16]),
        ([true; 14], true, [true; 16]),
        ([false; 14], false, [true; 16]),
    ];
    let expected = [
        [false; 16],
        [false; 16],
        [true; 16],
        [false; 16],
        [true; 16],
        [false; 16],
    ];
    let mut ram = Ram16k::new();

    inputs
        .iter()
        .zip(expected.iter())
        .for_each(|(&(address, load, input), &output)| {
            ram.tick(&address, load, Word::from(input));
            assert_eq!(ram.get_output(), Word::from(output));
        });
}

#[test]
fn pc_increments_the_output() {
    let inputs = [
        (true, false, false, [false; 16]),
        (false, false, true, [false; 16]),
        (false, false, true, [false; 16]),
        (false, false, true, [false; 16]),
    ];
    let expected = [
        [false; 16],
        [
            false, false, false, false, false, false, false, false, false, false, false, false,
            false, false, false, true,
        ],
        [
            false, false, false, false, false, false, false, false, false, false, false, false,
            false, false, true, false,
        ],
        [
            false, false, false, false, false, false, false, false, false, false, false, false,
            false, false, true, true,
        ],
    ];
    let mut pc = Pc::new();

    inputs.iter().zip(expected.iter()).for_each(
        |(&(reset, load, increment, input), &output)| {
            pc.tick(reset, load, increment, Word::from(input));
            assert_eq!(pc.get_output(), Word::from(output));
        },
    );
}

#[test]
fn pc_resets_the_output_with_reset_flag() {
    let inputs = [
        (true, false, false, [false; 16]),
        (false, false, true, [false; 16]),
        (true, false, true, [false; 16]),
    ];
    let expected = [
        [false; 16],
        [
            false, false, false, false, false, false, false, false, false, false, false, false,
            false, false, false, true,
        ],
        [false; 16],
    ];
    let mut pc = Pc::new();

    inputs.iter().zip(expected.iter()).for_each(
        |(&(reset, load, increment, input), &output)| {
            pc.tick(reset, load, increment, Word::from(input));
            assert_eq!(pc.get_output(), Word::from(output));
        },
    );
}

#[test]
fn pc_loads_the_input_with_load_flag() {
    let inputs = [
        (true, false, false, [false; 16]),
        (false, false, true, [false; 16]),
        (
            false,
            true,
            false,
            [
                false, false, false, false, false, false, false, false, false, false, false,
                false, true, false, false, false,
            ],
        ),
        (false, false, false, [false; 16]),
        (false, false, true, [false; 16]),
        (true, true, true, [true; 16]),
    ];
    let expected = [
        [false; 16],
        [
            false, false, false, false, false, false, false, false, false, false, false, false,
            false, false, false, true,
        ],
        [
            false, false, false, false, false, false, false, false, false, false, false, false,
            true, false, false, false,
        ],
        [
            false, false, false, false, false, false, false, false, false, false, false, false,
            true, false, false, false,
        ],
        [
            false, false, false, false, false, false, false, false, false, false, false, false,
            true, false, false, true,
        ],
        [false; 16],
    ];
    let mut pc = Pc::new();

    inputs.iter().zip(expected.iter()).for_each(
        |(&(reset, load, increment, input), &output)| {
            pc.tick(reset, load, increment, Word::from(input));
            assert_eq!(pc.get_output(), Word::from(output));
        },
    );
}
