use nand2tetris::assembler::assemble;
use nand2tetris::assembler::instruction::{Comp, Instruction};
use nand2tetris::chip::arith::{alu, inc};
use nand2tetris::chip::basic::{and, dmux, mux, mux4way, mux8way, nand, not, or, xor};
use nand2tetris::chip::mem::{Dff, Pc, Ram64, Ram8, Register};
use nand2tetris::cpu::Cpu;
use nand2tetris::keyboard::winit::{
    code_to_word, ElementState, KeyboardInput, VirtualKeyCode, WinitKeyboard,
};
use nand2tetris::keyboard::{DummyKeyboard, Keyboard};
use nand2tetris::memory::Memory;
use nand2tetris::rom::{Rom, RomError};
use nand2tetris::screen::wgpu::WgpuScreen;
use nand2tetris::screen::{DummyScreen, Screen};
use nand2tetris::signal::{Signal, Word};
use nand2tetris::Computer;

const SAMPLES: [u16; 12] =
    [0, 1, 2, 3, 0x00ff, 0x0100, 0x1234, 0x7fff, 0x8000, 0x8001, 0xfffe, 0xffff];

fn wires<const N: usize>(value: usize) -> [bool; N] {
    let mut address = [false; N];
    for i in 0..N {
        address[i] = (value >> (N - 1 - i)) & 1 == 1;
    }
    address
}

fn load(lines: &[&str]) -> Computer<DummyScreen, DummyKeyboard> {
    let text = assemble(lines).unwrap();
    let words: Vec<&str> = text.lines().collect();
    let mut computer = Computer::new();
    computer.set_rom(Rom::from_binary(&words).unwrap());
    computer
}

fn run(computer: &mut Computer<DummyScreen, DummyKeyboard>, cycles: usize) {
    for _ in 0..cycles {
        assert!(!computer.will_fault());
        computer.tick(false);
    }
}

#[test]
fn a_word_has_sixteen_wires_the_sign_first() {
    assert_eq!(Word(0x8000).split()[0], true);
    assert_eq!(Word(0x8000).split()[1..], [false; 15]);
    assert_eq!(Word(1).split()[15], true);
    assert_eq!(Word(1).split()[..15], [false; 15]);
    assert_eq!(Word::from(true), Word(0xffff));
    assert_eq!(Word::from(false), Word(0));
    assert_eq!(Word::from(0x1234u16).as_raw(), 0x1234);
    assert_eq!(Word::zero(), Word(0));
    assert_eq!(Word::broadcast(true), Word(0xffff));
    assert_eq!(bool::zero(), false);
    assert_eq!(bool::broadcast(true), true);
}

#[test]
fn splitting_and_packing_a_word_gives_it_back() {
    for &x in SAMPLES.iter() {
        assert_eq!(Word::from(Word(x).split()), Word(x));
    }
}

#[test]
fn nand_of_words_is_the_complement_of_their_and() {
    for &x in SAMPLES.iter() {
        for &y in SAMPLES.iter() {
            assert_eq!(Word(x).nand(Word(y)), Word(!(x & y)));
            assert_eq!(nand(Word(x), Word(y)), Word(!(x & y)));
        }
    }
}

#[test]
fn the_gates_are_the_bitwise_operations() {
    for &x in SAMPLES.iter() {
        assert_eq!(not(Word(x)), Word(!x));
        for &y in SAMPLES.iter() {
            assert_eq!(and(Word(x), Word(y)), Word(x & y));
            assert_eq!(or(Word(x), Word(y)), Word(x | y));
            assert_eq!(xor(Word(x), Word(y)), Word(x ^ y));
        }
    }
}

#[test]
fn gate_identities() {
    for &x in SAMPLES.iter() {
        assert_eq!(not(not(Word(x))), Word(x));
        assert_eq!(or(Word(x), Word(0)), Word(x));
        assert_eq!(xor(Word(x), Word(x)), Word(0));
        for &y in SAMPLES.iter() {
            assert_eq!(and(Word(x), Word(y)), and(Word(y), Word(x)));
            assert_eq!(mux(Word(x), Word(y), false), Word(x));
            assert_eq!(mux(Word(x), Word(y), true), Word(y));
        }
    }
    for &x in [false, true].iter() {
        assert_eq!(not(not(x)), x);
        assert_eq!(or(x, false), x);
        assert_eq!(xor(x, x), false);
        for &y in [false, true].iter() {
            assert_eq!(and(x, y), and(y, x));
            assert_eq!(mux(x, y, false), x);
            assert_eq!(mux(x, y, true), y);
        }
    }
}

#[test]
fn a_multiplexer_picks_the_input_that_its_selector_numbers() {
    let w: Vec<Word> = (10..18).map(Word).collect();
    for s in 0..4 {
        let picked = mux4way(w[0], w[1], w[2], w[3], s & 2 != 0, s & 1 != 0);
        assert_eq!(picked, w[s]);
    }
    for s in 0..8 {
        let picked = mux8way(
            w[0],
            w[1],
            w[2],
            w[3],
            w[4],
            w[5],
            w[6],
            w[7],
            s & 4 != 0,
            s & 2 != 0,
            s & 1 != 0,
        );
        assert_eq!(picked, w[s]);
    }
}

#[test]
fn a_demultiplexer_routes_a_word() {
    assert_eq!(dmux(Word(0x1234), false), (Word(0x1234), Word(0)));
    assert_eq!(dmux(Word(0x1234), true), (Word(0), Word(0x1234)));
}

#[test]
fn the_adder_adds_modulo_65536() {
    for &x in SAMPLES.iter() {
        assert_eq!(inc(Word(x)), Word(x.wrapping_add(1)));
        for &y in SAMPLES.iter() {
            assert_eq!(nand2tetris::chip::arith::add(Word(x), Word(y)), Word(x.wrapping_add(y)));
        }
    }
    assert_eq!(nand2tetris::chip::arith::add(Word(0xffff), Word(1)), Word(0));
    assert_eq!(nand2tetris::chip::arith::add(Word(40000), Word(30000)), Word(4464));
}

fn meaning(comp: Comp, d: u16, a: u16, m: u16) -> u16 {
    match comp {
        Comp::Zero => 0,
        Comp::One => 1,
        Comp::MinusOne => 0xffff,
        Comp::D => d,
        Comp::A => a,
        Comp::M => m,
        Comp::NotD => !d,
        Comp::NotA => !a,
        Comp::NotM => !m,
        Comp::MinusD => d.wrapping_neg(),
        Comp::MinusA => a.wrapping_neg(),
        Comp::MinusM => m.wrapping_neg(),
        Comp::DPlusOne => d.wrapping_add(1),
        Comp::APlusOne => a.wrapping_add(1),
        Comp::MPlusOne => m.wrapping_add(1),
        Comp::DMinusOne => d.wrapping_sub(1),
        Comp::AMinusOne => a.wrapping_sub(1),
        Comp::MMinusOne => m.wrapping_sub(1),
        Comp::DPlusA => d.wrapping_add(a),
        Comp::DPlusM => d.wrapping_add(m),
        Comp::DMinusA => d.wrapping_sub(a),
        Comp::AMinusD => a.wrapping_sub(d),
        Comp::DMinusM => d.wrapping_sub(m),
        Comp::MMinusD => m.wrapping_sub(d),
        Comp::DAndA => d & a,
        Comp::DAndM => d & m,
        Comp::DOrA => d | a,
        Comp::DOrM => d | m,
    }
}

const ALL_COMPS: [Comp; 28] = [
    Comp::Zero,
    Comp::One,
    Comp::MinusOne,
    Comp::D,
    Comp::A,
    Comp::M,
    Comp::NotD,
    Comp::NotA,
    Comp::NotM,
    Comp::MinusD,
    Comp::MinusA,
    Comp::MinusM,
    Comp::DPlusOne,
    Comp::APlusOne,
    Comp::MPlusOne,
    Comp::DMinusOne,
    Comp::AMinusOne,
    Comp::MMinusOne,
    Comp::DPlusA,
    Comp::DPlusM,
    Comp::DMinusA,
    Comp::AMinusD,
    Comp::DMinusM,
    Comp::MMinusD,
    Comp::DAndA,
    Comp::DAndM,
    Comp::DOrA,
    Comp::DOrM,
];

#[test]
fn the_alu_computes_what_each_computation_means() {
    for &comp in ALL_COMPS.iter() {
        let w = Instruction::C { comp, dest: None, jump: None }.as_binary();
        for &d in SAMPLES.iter() {
            for &a in SAMPLES.iter() {
                let m = a ^ 0x5a5a;
                let y = if w[3] { m } else { a };
                let (out, zr, ng) = alu(Word(d), Word(y), w[4], w[5], w[6], w[7], w[8], w[9]);
                let expected = meaning(comp, d, a, m);
                assert_eq!(out, Word(expected), "{:?} on {} and {}", comp, d, a);
                assert_eq!(zr, expected == 0);
                assert_eq!(ng, expected & 0x8000 != 0);
            }
        }
    }
}

#[test]
fn the_cpu_computes_what_each_computation_means() {
    for &comp in ALL_COMPS.iter() {
        for &d in SAMPLES.iter() {
            for &a in [0u16, 1, 0x1234, 0x7fff].iter() {
                let m = a ^ 0x5a5a;
                let mut cpu = Cpu::new();
                // A = d, D = A, A = a, D = comp
                cpu.tick(false, &[false; 16], &Instruction::A { value: d & 0x7fff }.as_binary());
                let load_d = if d & 0x8000 != 0 { Comp::NotA } else { Comp::A };
                if d & 0x8000 != 0 {
                    cpu.tick(
                        false,
                        &[false; 16],
                        &Instruction::A { value: !d & 0x7fff }.as_binary(),
                    );
                }
                let to_d = Some(nand2tetris::assembler::instruction::Dest::D);
                cpu.tick(
                    false,
                    &[false; 16],
                    &Instruction::C { comp: load_d, dest: to_d, jump: None }.as_binary(),
                );
                assert_eq!(Word::from(cpu.d()), Word(d));
                cpu.tick(false, &[false; 16], &Instruction::A { value: a }.as_binary());
                cpu.tick(
                    false,
                    &Word(m).split(),
                    &Instruction::C { comp, dest: to_d, jump: None }.as_binary(),
                );
                assert_eq!(Word::from(cpu.d()), Word(meaning(comp, d, a, m)), "{:?}", comp);
                assert_eq!(Word::from(cpu.a()), Word(a));
            }
        }
    }
}

#[test]
fn a_flip_flop_holds_the_last_input() {
    let mut dff: Dff<Word> = Dff::new();
    assert_eq!(dff.get_output(), Word(0));
    dff.tick(Word(7));
    assert_eq!(dff.get_output(), Word(7));
    assert_eq!(dff.get_output(), Word(7));
}

#[test]
fn a_register_takes_its_input_only_on_load() {
    let mut register: Register<Word> = Register::new();
    assert_eq!(register.get_output(), Word(0));
    register.tick(true, Word(0xbeef));
    assert_eq!(register.get_output(), Word(0xbeef));
    register.tick(false, Word(0x1234));
    assert_eq!(register.get_output(), Word(0xbeef));
    register.tick(true, Word(0x1234));
    assert_eq!(register.get_output(), Word(0x1234));
}

#[test]
fn writing_one_cell_leaves_the_others() {
    let mut ram: Ram64<Word> = Ram64::new();
    for i in 0..64 {
        ram.tick(&wires::<6>(i), true, Word(1000 + i as u16));
    }
    ram.tick(&wires::<6>(37), true, Word(5));
    for i in 0..64 {
        ram.tick(&wires::<6>(i), false, Word(0xffff));
        let expected = if i == 37 { 5 } else { 1000 + i as u16 };
        assert_eq!(ram.get_output(), Word(expected));
    }
}

#[test]
fn a_ram_reads_at_the_address_of_its_last_tick() {
    let mut ram: Ram8<Word> = Ram8::new();
    ram.tick(&wires::<3>(5), true, Word(55));
    ram.tick(&wires::<3>(2), true, Word(22));
    assert_eq!(ram.get_output(), Word(22));
    ram.tick(&wires::<3>(5), false, Word(0));
    assert_eq!(ram.get_output(), Word(55));
    ram.tick(&wires::<3>(0), false, Word(0));
    assert_eq!(ram.get_output(), Word(0));
}

#[test]
fn the_program_counter_puts_reset_before_load_before_increment() {
    for case in 0..8 {
        let (reset, load, increment) = (case & 4 != 0, case & 2 != 0, case & 1 != 0);
        let mut pc = Pc::new();
        pc.tick(false, true, false, Word(100));
        pc.tick(reset, load, increment, Word(500));
        let expected = if reset {
            0
        } else if load {
            500
        } else if increment {
            101
        } else {
            100
        };
        assert_eq!(pc.get_output(), Word(expected));
    }
}

#[test]
fn the_program_counter_wraps() {
    let mut pc = Pc::new();
    pc.tick(false, true, false, Word(0xffff));
    pc.tick(false, false, true, Word(0));
    assert_eq!(pc.get_output(), Word(0));
}

#[test]
fn the_memory_maps_ram_screen_and_keyboard() {
    let mut memory: Memory<DummyScreen, DummyKeyboard> = Memory::new();
    memory.tick(&wires::<15>(0x0000), true, Word(1));
    memory.tick(&wires::<15>(0x3fff), true, Word(2));
    memory.tick(&wires::<15>(0x4000), true, Word(3));
    memory.tick(&wires::<15>(0x5fff), true, Word(4));
    memory.tick(&wires::<15>(0x6000), true, Word(5));
    for &(address, expected) in
        [(0x0000, 1), (0x3fff, 2), (0x4000, 3), (0x5fff, 4), (0x6000, 0), (0x0001, 0)].iter()
    {
        memory.tick(&wires::<15>(address), false, Word(0xffff));
        assert_eq!(memory.get_output(), Word(expected), "at {:#x}", address);
    }
    assert_eq!(memory.screen().get_output(), Word(0));
}

#[test]
fn a_screen_shows_the_bits_of_a_word_from_the_left() {
    let mut screen = WgpuScreen::new();
    assert_eq!(screen.colors().len(), 512 * 256);
    assert!(screen.colors().iter().all(|&lit| !lit));
    screen.tick(&wires::<13>(33), true, Word(0x8001));
    assert_eq!(screen.get_output(), Word(0x8001));
    for (pixel, &lit) in screen.colors().iter().enumerate() {
        assert_eq!(lit, pixel == 33 * 16 || pixel == 33 * 16 + 15, "pixel {}", pixel);
    }
    screen.tick(&wires::<13>(34), false, Word(0xffff));
    assert!(!screen.colors()[34 * 16]);
    screen.tick(&wires::<13>(33), true, Word(0));
    assert!(screen.colors().iter().all(|&lit| !lit));
}

#[test]
fn keys_have_their_codes() {
    assert_eq!(code_to_word(VirtualKeyCode::Space), Some(Word(32)));
    assert_eq!(code_to_word(VirtualKeyCode::Key0), Some(Word(48)));
    assert_eq!(code_to_word(VirtualKeyCode::Numpad9), Some(Word(57)));
    assert_eq!(code_to_word(VirtualKeyCode::A), Some(Word(97)));
    assert_eq!(code_to_word(VirtualKeyCode::Z), Some(Word(122)));
    assert_eq!(code_to_word(VirtualKeyCode::Return), Some(Word(128)));
    assert_eq!(code_to_word(VirtualKeyCode::Back), Some(Word(129)));
    assert_eq!(code_to_word(VirtualKeyCode::Left), Some(Word(130)));
    assert_eq!(code_to_word(VirtualKeyCode::Up), Some(Word(131)));
    assert_eq!(code_to_word(VirtualKeyCode::Right), Some(Word(132)));
    assert_eq!(code_to_word(VirtualKeyCode::Down), Some(Word(133)));
    assert_eq!(code_to_word(VirtualKeyCode::Escape), Some(Word(140)));
    assert_eq!(code_to_word(VirtualKeyCode::F1), Some(Word(141)));
    assert_eq!(code_to_word(VirtualKeyCode::F12), Some(Word(152)));
    assert_eq!(code_to_word(VirtualKeyCode::Other(7)), None);
}

fn press(key: VirtualKeyCode) -> KeyboardInput {
    KeyboardInput { state: ElementState::Pressed, virtual_keycode: Some(key) }
}

fn release(key: VirtualKeyCode) -> KeyboardInput {
    KeyboardInput { state: ElementState::Released, virtual_keycode: Some(key) }
}

#[test]
fn the_keyboard_shows_the_key_pressed_last() {
    let mut keyboard = WinitKeyboard::new();
    assert_eq!(keyboard.get_output(), Word(0));
    keyboard.set_state(press(VirtualKeyCode::A));
    assert_eq!(keyboard.get_output(), Word(97));
    keyboard.set_state(press(VirtualKeyCode::B));
    assert_eq!(keyboard.get_output(), Word(98));
    keyboard.set_state(release(VirtualKeyCode::B));
    assert_eq!(keyboard.get_output(), Word(97));
}

#[test]
fn a_key_without_a_code_leaves_the_code() {
    let mut keyboard = WinitKeyboard::new();
    keyboard.set_state(press(VirtualKeyCode::C));
    keyboard.set_state(press(VirtualKeyCode::Other(42)));
    assert_eq!(keyboard.get_output(), Word(99));
    keyboard.set_state(KeyboardInput { state: ElementState::Pressed, virtual_keycode: None });
    assert_eq!(keyboard.get_output(), Word(99));
    keyboard.set_state(release(VirtualKeyCode::Z));
    assert_eq!(keyboard.get_output(), Word(99));
}

#[test]
fn releasing_an_earlier_key_leaves_the_code() {
    let mut keyboard = WinitKeyboard::new();
    keyboard.set_state(press(VirtualKeyCode::A));
    keyboard.set_state(press(VirtualKeyCode::B));
    keyboard.set_state(release(VirtualKeyCode::A));
    assert_eq!(keyboard.get_output(), Word(98));
    keyboard.set_state(release(VirtualKeyCode::B));
    assert_eq!(keyboard.get_output(), Word(98));
}

#[test]
fn a_dummy_keyboard_shows_nothing() {
    let mut keyboard = DummyKeyboard::new();
    keyboard.set_state(());
    assert_eq!(keyboard.get_output(), Word(0));
}

#[test]
fn a_program_is_loaded_from_its_lines() {
    let mut rom =
        Rom::from_binary(&["0000000000000101", "1110110000010000", "1111111111111111"]).unwrap();
    for &(address, expected) in [(0, 5), (1, 0xec10), (2, 0xffff), (3, 0), (32767, 0)].iter() {
        rom.set_address(&wires::<15>(address));
        assert_eq!(rom.get_output(), Word(expected));
    }
    let mut empty = Rom::new();
    empty.set_address(&wires::<15>(12345));
    assert_eq!(empty.get_output(), Word(0));
}

#[test]
fn a_line_with_white_space_is_malformed() {
    let padded =
        Rom::from_binary(&["0000000000000101", "  1110110000010000\r", "1111111111111111"]);
    assert!(matches!(padded, Err(RomError::MalformedLine(1))));
    let leading = Rom::from_binary(&[" 0000000000000000"]);
    assert!(matches!(leading, Err(RomError::MalformedLine(0))));
    let trailing = Rom::from_binary(&["0000000000000000 "]);
    assert!(matches!(trailing, Err(RomError::MalformedLine(0))));
}

#[test]
fn a_malformed_line_loads_nothing() {
    let short = Rom::from_binary(&["0000000000000101", "101", "x"]);
    assert!(matches!(short, Err(RomError::MalformedLine(1))));
    let long = Rom::from_binary(&["00000000000001010"]);
    assert!(matches!(long, Err(RomError::MalformedLine(0))));
    let letter = Rom::from_binary(&["0000000000000101", "0000000000000101", "000000000000010a"]);
    assert!(matches!(letter, Err(RomError::MalformedLine(2))));
    let blank = Rom::from_binary(&[""]);
    assert!(matches!(blank, Err(RomError::MalformedLine(0))));
}

#[test]
fn a_program_of_more_than_32768_words_does_not_fit() {
    let full = vec!["0000000000000001"; 32768];
    assert!(Rom::from_binary(&full).is_ok());
    let more = vec!["0000000000000001"; 32769];
    assert!(matches!(Rom::from_binary(&more), Err(RomError::TooManyLines)));
}

#[test]
fn two_plus_three_on_the_computer() {
    let mut computer = load(&["@2", "D=A", "@3", "D=D+A"]);
    computer.tick(true);
    run(&mut computer, 4);
    assert_eq!(computer.d().as_raw(), 5);
    assert_eq!(computer.a().as_raw(), 3);
    assert_eq!(computer.pc().as_raw(), 4);
}

#[test]
fn the_larger_of_one_and_two_on_the_computer() {
    let mut computer = load(&[
        "@1", "D=A", "@0", "M=D", "@2", "D=A", "@1", "M=D", // M[0] = 1, M[1] = 2
        "@0", "D=M", "@1", "D=D-M", "@FIRST", "D;JGT", "@1", "D=M", "@END", "0;JMP", "(FIRST)",
        "@0", "D=M", "(END)", "@END", "0;JMP",
    ]);
    computer.tick(true);
    run(&mut computer, 18);
    assert_eq!(computer.d().as_raw(), 2);
    assert_eq!(computer.pc().as_raw(), computer.a().as_raw());
    assert_eq!(computer.pc().as_raw(), 20);
}

#[test]
fn a_write_shows_in_the_cycle_after() {
    let mut computer = load(&["@21", "D=A", "@100", "M=D", "D=M"]);
    computer.tick(true);
    run(&mut computer, 4);
    // `M=D` has run: the memory takes the word in the next cycle.
    assert_eq!(computer.m().as_raw(), 0);
    run(&mut computer, 1);
    assert_eq!(computer.m().as_raw(), 21);
    assert_eq!(computer.d().as_raw(), 21);
}

#[test]
fn reset_puts_the_program_counter_to_zero() {
    let mut computer = load(&["@7", "0;JMP"]);
    computer.tick(true);
    run(&mut computer, 2);
    assert_eq!(computer.pc().as_raw(), 7);
    computer.tick(true);
    assert_eq!(computer.pc().as_raw(), 0);
}

#[test]
fn a_write_above_the_keyboard_is_a_fault() {
    let mut computer = load(&["@24577", "M=D", "@24576", "M=D"]);
    computer.tick(true);
    run(&mut computer, 2);
    assert!(computer.will_fault());
    let mut computer = load(&["@24576", "M=D", "@0", "M=D"]);
    computer.tick(true);
    run(&mut computer, 4);
    assert!(!computer.will_fault());
}

#[test]
fn a_key_event_goes_to_the_keyboard() {
    let mut computer: Computer<DummyScreen, WinitKeyboard> = Computer::new();
    let text = assemble(&["@KBD", "D=M", "D=M"]).unwrap();
    let words: Vec<&str> = text.lines().collect();
    computer.set_rom(Rom::from_binary(&words).unwrap());
    computer.tick(true);
    computer.set_keystate(press(VirtualKeyCode::K));
    computer.tick(false);
    computer.tick(false);
    computer.tick(false);
    assert_eq!(computer.d().as_raw(), 107);
    assert_eq!(computer.screen().get_output(), Word(0));
}
