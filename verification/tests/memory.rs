use nand2tetris::keyboard::DummyKeyboard;
use nand2tetris::memory::Memory;
use nand2tetris::screen::DummyScreen;
use nand2tetris::signal::Word;

#[test]
fn memorys_can_read_and_write_data_with_clock() {
    let inputs = [
        ([false; 16], [false; 15]),
        (
            [false; 16],
            [
                false, true, false, false, false, false, false, false, false, false, false,
                false, false, false, false,
            ],
        ),
        (
            [false; 16],
            [
                true, true, false, false, false, false, false, false, false, false, false,
                false, false, false, false,
            ],
        ),
        ([true; 16], [false; 15]),
        (
            [true; 16],
            [
                false, true, false, false, false, false, false, false, false, false, false,
                false, false, false, false,
            ],
        ),
        (
            [true; 16],
            [
                true, false, true, false, false, false, false, false, false, false, false,
                false, false, false, false,
            ],
        ),
        ([false; 16], [false; 15]),
        (
            [false; 16],
            [
                false, true, false, false, false, false, false, false, false, false, false,
                false, false, false, false,
            ],
        ),
        (
            [false; 16],
            [
                true, true, false, false, false, false, false, false, false, false, false,
                false, false, false, false,
            ],
        ),
    ];
    let expected = [
        [false; 16],
        [false; 16],
        [false; 16],
        [true; 16],
        [true; 16],
        [true; 16],
        [false; 16],
        [false; 16],
        [false; 16],
    ];
    let mut mem = Memory::<DummyScreen, DummyKeyboard>::new();

    inputs
        .iter()
        .zip(expected.iter())
        .for_each(|(&(input, address), &output)| {
            mem.tick(&address, true, Word::from(input));
            assert_eq!(mem.get_output(), Word::from(output));
        });
}
