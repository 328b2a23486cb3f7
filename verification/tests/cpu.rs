use nand2tetris::cpu::Cpu;

#[test]
fn tick_increments_pc_if_not_reset_and_not_jump() {
    let mut cpu = Cpu::new();
    cpu.tick(true, &[false; 16], &[false; 16]);
    assert_eq!(cpu.get_output().1, [false; 16]);
    cpu.tick(false, &[false; 16], &[false; 16]);
    assert_eq!(
        cpu.get_output().1,
        [
            false, false, false, false, false, false, false, false, false, false, false, false,
            false, false, false, true
        ]
    );
}

#[test]
fn two_plus_three_equals_five() {
    let mut cpu = Cpu::new();
    cpu.tick(true, &[false; 16], &[false; 16]); // Reset
    cpu.tick(
        false,
        &[false; 16],
        &[
            false, false, false, false, false, false, false, false, false, false, false, false,
            false, false, true, false,
        ],
    ); // A = 2
    cpu.tick(
        false,
        &[false; 16],
        &[
            true, true, true, false, true, true, false, false, false, false, false, true,
            false, false, false, false,
        ],
    ); // D = A & 1
    cpu.tick(
        false,
        &[false; 16],
        &[
            false, false, false, false, false, false, false, false, false, false, false, false,
            false, false, true, true,
        ],
    ); // A = 3
    cpu.tick(
        false,
        &[false; 16],
        &[
            true, true, true, false, false, false, false, false, true, false, false, true,
            false, false, false, false,
        ],
    ); // D = A + D

    assert_eq!(cpu.get_output().0.2, [false, false, false, false, false, false, false, false, false, false, false, false, false, true, false, true]);
}

#[test]
fn max_one_two_equals_two() {
    let mut cpu = Cpu::new();
    cpu.tick(true, &[false; 16], &[false; 16]); // Reset
    cpu.tick(false, &[false; 16], &[false; 16]); // A = 0
    cpu.tick(
        false,
        &[
            false, false, false, false, false, false, false, false, false, false, false, false,
            false, false, false, true,
        ],
        &[
            true, true, true, true, true, true, false, false, false, false, false, true, false,
            false, false, false,
        ],
    ); // D = M[A] = 1
    cpu.tick(
        false,
        &[false; 16],
        &[
            false, false, false, false, false, false, false, false, false, false, false, false,
            false, false, false, true,
        ],
    ); // A = 1
    cpu.tick(
        false,
        &[
            false, false, false, false, false, false, false, false, false, false, false, false,
            false, false, true, false,
        ],
        &[
            true, true, true, true, false, true, false, false, true, true, false, true, false,
            false, false, false,
        ],
    ); // D = -(-(D + 1) + M[A] + 1) = D - M[A] = D - 2
    cpu.tick(
        false,
        &[false; 16],
        &[
            false, false, false, false, false, false, false, false, false, false, false, false,
            true, false, true, false,
        ],
    ); // A = 10
    cpu.tick(
        false,
        &[false; 16],
        &[
            true, true, true, false, false, false, true, true, false, false, false, false,
            false, false, false, true,
        ],
    ); // JMP to A if D > 0
    assert_ne!(cpu.get_output().1, cpu.a());
    cpu.tick(
        false,
        &[false; 16],
        &[
            false, false, false, false, false, false, false, false, false, false, false, false,
            false, false, false, true,
        ],
    ); // A = 1
    cpu.tick(
        false,
        &[
            false, false, false, false, false, false, false, false, false, false, false, false,
            false, false, true, false,
        ],
        &[
            true, true, true, true, true, true, false, false, false, false, false, true, false,
            false, false, false,
        ],
    ); // D = M[A] = 2
    cpu.tick(
        false,
        &[false; 16],
        &[
            false, false, false, false, false, false, false, false, false, false, false, false,
            true, true, false, false,
        ],
    ); // A = 12
    cpu.tick(
        false,
        &[false; 16],
        &[
            true, true, true, false, true, false, true, false, true, false, false, false,
            false, true, true, true,
        ],
    ); // JMP to A
    assert_eq!(cpu.get_output().1, cpu.a());
    assert_eq!(
        cpu.d(),
        [
            false, false, false, false, false, false, false, false, false, false, false, false,
            false, false, true, false
        ]
    );
}
