use nand2tetris::wired::chip::arith::{add16, alu, inc16};
use nand2tetris::wired::chip::mem::{Bit, Dff, Pc, Ram64, Register};
use nand2tetris::wired::chip::{and16, mux16, not16, or16};
use nand2tetris::wired::memory::Memory;
use nand2tetris::wired::rom::Rom;

const SAMPLES: [u16; 10] = [0, 1, 2, 0x00ff, 0x1234, 0x7fff, 0x8000, 0x8001, 0xfffe, 0xffff];

fn word(value: u16) -> [bool; 16] {
    wires::<16>(value as usize)
}

fn number(word: &[bool; 16]) -> u16 {
    word.iter().fold(0, |acc, &b| (acc << 1) | b as u16)
}

fn wires<const N: usize>(value: usize) -> [bool; N] {
    let mut address = [false; N];
    for i in 0..N {
        address[i] = (value >> (N - 1 - i)) & 1 == 1;
    }
    address
}

#[test]
fn gates_on_sixteen_wires() {
    for &x in SAMPLES.iter() {
        assert_eq!(number(&not16(&word(x))), !x);
        for &y in SAMPLES.iter() {
            assert_eq!(number(&and16(&word(x), &word(y))), x & y);
            assert_eq!(number(&or16(&word(x), &word(y))), x | y);
            assert_eq!(mux16(&word(x), &word(y), false), word(x));
            assert_eq!(mux16(&word(x), &word(y), true), word(y));
        }
    }
}

#[test]
fn the_wired_adder_adds_modulo_65536() {
    for &x in SAMPLES.iter() {
        assert_eq!(number(&inc16(&word(x))), x.wrapping_add(1));
        for &y in SAMPLES.iter() {
            assert_eq!(number(&add16(&word(x), &word(y))), x.wrapping_add(y));
        }
    }
}

#[test]
fn the_wired_alu_subtracts() {
    // x - y is !( !x + y )
    let (out, zero, negative) = alu(&word(5), &word(7), false, true, false, false, true, true);
    assert_eq!(number(&out), 5u16.wrapping_sub(7));
    assert!(!zero);
    assert!(negative);
    let (out, zero, negative) = alu(&word(7), &word(7), false, true, false, false, true, true);
    assert_eq!(number(&out), 0);
    assert!(zero);
    assert!(!negative);
}

#[test]
fn a_flip_flop_stores_on_the_rising_edge_only() {
    let mut dff = Dff::new();
    dff.set_input(true);
    assert_eq!(dff.get_output(), false);
    dff.set_clock(true);
    assert_eq!(dff.get_output(), true);
    dff.set_input(false);
    dff.set_clock(true);
    assert_eq!(dff.get_output(), true);
    dff.set_clock(false);
    assert_eq!(dff.get_output(), true);
    dff.set_clock(true);
    assert_eq!(dff.get_output(), false);
}

#[test]
fn a_bit_keeps_what_was_pending_when_its_input_was_set() {
    let mut bit = Bit::new();
    bit.set_load(true);
    bit.set_input(true);
    bit.set_load(false);
    bit.tick();
    assert_eq!(bit.get_output(), true);
    bit.set_input(false);
    bit.tick();
    assert_eq!(bit.get_output(), true);
}

#[test]
fn a_wired_register_takes_its_input_only_on_load() {
    let mut register = Register::new();
    register.set_load(true);
    register.set_input(&word(0xbeef));
    register.tick();
    assert_eq!(register.get_output(), word(0xbeef));
    register.set_load(false);
    register.set_input(&word(0x1234));
    register.tick();
    assert_eq!(register.get_output(), word(0xbeef));
}

#[test]
fn writing_one_wired_cell_leaves_the_others() {
    let mut ram = Ram64::new();
    ram.set_load(true);
    for i in 0..64 {
        ram.set_input(&word(1000 + i as u16), &wires::<6>(i));
        ram.tick();
    }
    ram.set_input(&word(5), &wires::<6>(37));
    ram.tick();
    ram.set_load(false);
    for i in 0..64 {
        ram.set_input(&word(0xffff), &wires::<6>(i));
        ram.tick();
        let expected = if i == 37 { 5 } else { 1000 + i as u16 };
        assert_eq!(ram.get_output(), word(expected));
    }
}

#[test]
fn inputs_that_are_pending_are_stored_together() {
    let mut ram = Ram64::new();
    ram.set_load(true);
    ram.set_input(&word(11), &wires::<6>(1));
    ram.set_input(&word(22), &wires::<6>(2));
    ram.tick();
    assert_eq!(ram.get_output(), word(22));
    ram.set_load(false);
    ram.set_input(&word(0), &wires::<6>(1));
    assert_eq!(ram.get_output(), word(11));
}

#[test]
fn the_wired_program_counter_puts_reset_before_load_before_increment() {
    for case in 0..8 {
        let (reset, load, increment) = (case & 4 != 0, case & 2 != 0, case & 1 != 0);
        let mut pc = Pc::new();
        pc.set_load(true);
        pc.set_input(&word(100));
        pc.tick();
        pc.set_reset(reset);
        pc.set_load(load);
        pc.set_increment(increment);
        pc.set_input(&word(500));
        pc.tick();
        let expected = if reset {
            0
        } else if load {
            500
        } else if increment {
            101
        } else {
            100
        };
        assert_eq!(pc.get_output(), word(expected));
    }
}

#[test]
fn the_wired_memory_maps_ram_screen_and_keyboard() {
    let mut memory = Memory::new();
    memory.tick(&wires::<15>(0x0000), true, &word(1));
    memory.tick(&wires::<15>(0x3fff), true, &word(2));
    memory.tick(&wires::<15>(0x4000), true, &word(3));
    memory.tick(&wires::<15>(0x4fff), true, &word(4));
    memory.tick(&wires::<15>(0x5000), true, &word(5));
    memory.tick(&wires::<15>(0x5fff), true, &word(6));
    memory.tick(&wires::<15>(0x6000), true, &word(7));
    for &(address, expected) in [
        (0x0000, 1),
        (0x3fff, 2),
        (0x4000, 3),
        (0x4fff, 4),
        (0x5000, 5),
        (0x5fff, 6),
        (0x6000, 0),
        (0x0001, 0),
        (0x4001, 0),
    ]
    .iter()
    {
        memory.tick(&wires::<15>(address), false, &word(0xffff));
        assert_eq!(memory.get_output(), word(expected), "at {:#x}", address);
    }
}

#[test]
fn the_wired_keyboard_takes_no_writes() {
    let mut memory = Memory::new();
    memory.tick(&wires::<15>(0x6000), true, &word(0xffff));
    assert_eq!(memory.get_output(), word(0));
    memory.tick(&wires::<15>(0x6000), false, &word(0xffff));
    assert_eq!(memory.get_output(), word(0));
}

#[test]
fn a_wired_rom_is_empty() {
    let mut rom = Rom::new();
    rom.set_address(&wires::<15>(0x7fff));
    assert_eq!(rom.get_output(), [false; 16]);
    rom.set_address(&wires::<15>(0));
    assert_eq!(rom.get_output(), [false; 16]);
}
