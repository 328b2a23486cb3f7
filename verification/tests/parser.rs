use nand2tetris::assembler::instruction::{Comp, Dest, Jump};
use nand2tetris::assembler::parser::parse;
use nand2tetris::assembler::symbol::{SymbolInstruction, SymbolTable};

#[test]
fn parser_accepts_non_negative_immediate_after_a_instruction() {
    let lines = ["    @13 // A = 13\n"];
    let mut symbols = SymbolTable::new();
    let result = parse(&lines, &mut symbols);
    assert!(result.is_ok());
    assert_eq!(
        result.unwrap(),
        [SymbolInstruction::AImmediate { value: 13 }]
    );
}

#[test]
fn parser_denies_negative_immediate_after_a_instruction() {
    let lines = [" @-1\n"];
    let mut symbols = SymbolTable::new();
    let result = parse(&lines, &mut symbols);
    assert!(result.is_err());
}

#[test]
fn parser_accepts_minus_one() {
    let lines = ["   -1 // Just negative"];
    let mut symbols = SymbolTable::new();
    let result = parse(&lines, &mut symbols);
    assert!(result.is_ok());
    assert_eq!(
        result.unwrap(),
        [SymbolInstruction::C {
            comp: Comp::MinusOne,
            dest: None,
            jump: None
        }]
    );
}

#[test]
fn parser_accepts_c_instruction_without_dest_and_jump() {
    let lines = ["     0"];
    let mut symbols = SymbolTable::new();
    let result = parse(&lines, &mut symbols);
    assert!(result.is_ok());
    assert_eq!(
        result.unwrap(),
        [SymbolInstruction::C {
            comp: Comp::Zero,
            dest: None,
            jump: None
        }]
    );
}

#[test]
fn parser_accepts_c_instruction_with_dest() {
    let lines = ["  D =     1 // ; D=4 \n"];
    let mut symbols = SymbolTable::new();
    let result = parse(&lines, &mut symbols);
    assert!(result.is_ok());
    assert_eq!(
        result.unwrap(),
        [SymbolInstruction::C {
            comp: Comp::One,
            dest: Some(Dest::D),
            jump: None
        }]
    );
}

#[test]
fn parser_accepts_c_instruction_with_jump() {
    let lines = ["1; JMP\n"];
    let mut symbols = SymbolTable::new();
    let result = parse(&lines, &mut symbols);
    assert!(result.is_ok());
    assert_eq!(
        result.unwrap(),
        [SymbolInstruction::C {
            comp: Comp::One,
            dest: None,
            jump: Some(Jump::JMP)
        }]
    );
}

#[test]
fn parser_accepts_c_instruction_with_dest_and_jump() {
    let lines = ["M=1;JMP"];
    let mut symbols = SymbolTable::new();
    let result = parse(&lines, &mut symbols);
    assert!(result.is_ok());
    assert_eq!(
        result.unwrap(),
        [SymbolInstruction::C {
            comp: Comp::One,
            dest: Some(Dest::M),
            jump: Some(Jump::JMP)
        }]
    );
}

#[test]
fn parser_accepts_a_instruction_with_symbol() {
    let lines = ["@i"];
    let mut symbols = SymbolTable::new();
    let result = parse(&lines, &mut symbols);
    assert!(result.is_ok());
    assert_eq!(
        result.unwrap(),
        [SymbolInstruction::ASymbol {
            symbol: "i".to_string(),
        }]
    );
}

#[test]
fn parser_accepts_a_label_and_jump_to_there() {
    let lines = ["0", "  (LABEL) ", "@LABEL", "0; JMP"];
    let mut symbols = SymbolTable::new();
    let result = parse(&lines, &mut symbols);
    assert!(result.is_ok(), "{:?}", result);
    assert_eq!(
        result.unwrap(),
        [
            SymbolInstruction::C {
                comp: Comp::Zero,
                dest: None,
                jump: None
            },
            SymbolInstruction::ASymbol {
                symbol: "LABEL".to_string()
            },
            SymbolInstruction::C {
                comp: Comp::Zero,
                dest: None,
                jump: Some(Jump::JMP)
            }
        ]
    );
}
