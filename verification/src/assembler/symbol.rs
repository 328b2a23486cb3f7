//! The symbol table, and the instructions that still name symbols.
//!
//! A name is bound in one of three ways. The predefined names are bound from
//! the start. A label is bound to the address of the instruction that
//! follows it; a predefined name or a label is fixed: binding it again as a
//! label changes nothing. A name that is used before anything binds it is
//! taken for a variable and gets the next free address from 16 on; a label
//! of that name, defined later, takes the name over.

use crate::assembler::instruction::{Comp, Dest, Instruction, Jump};
use vstd::hash_map::StringHashMap;
use vstd::prelude::*;

verus! {

/// An instruction as the parser leaves it: an A-instruction may still name a symbol.
#[derive(Debug, PartialEq, Eq)]
pub enum SymbolInstruction {
    AImmediate { value: u16 },
    ASymbol { symbol: String },
    C { comp: Comp, dest: Option<Dest>, jump: Option<Jump> },
}

/// A `SymbolInstruction`, with the name as a sequence of characters.
pub enum Statement {
    AImmediate { value: u16 },
    ASymbol { symbol: Seq<char> },
    C { comp: Comp, dest: Option<Dest>, jump: Option<Jump> },
}

impl View for SymbolInstruction {
    type V = Statement;

    open spec fn view(&self) -> Statement {
        match self {
            SymbolInstruction::AImmediate { value } => Statement::AImmediate { value: *value },
            SymbolInstruction::ASymbol { symbol } => Statement::ASymbol { symbol: symbol@ },
            SymbolInstruction::C { comp, dest, jump } => Statement::C {
                comp: *comp,
                dest: *dest,
                jump: *jump,
            },
        }
    }
}

/// What can go wrong with a symbol.
#[derive(Debug)]
pub enum SymbolError {
    /// An instruction names a symbol that nothing binds.
    UnknownSymbol(String),
    /// A label is defined, but its name is predefined or a label already.
    Redefined(String),
}

pub type Result<T> = std::result::Result<T, SymbolError>;

/// The first address that is given to a variable.
pub const FIRST_VARIABLE: u16 = 0x0010;

/// What a symbol table holds.
pub struct Bindings {
    /// The address of each name that is bound.
    pub addresses: Map<Seq<char>, u16>,
    /// The names that are predefined or bound as labels.
    pub fixed: Set<Seq<char>>,
    /// The address that the next variable gets.
    pub next_address: u16,
}

/// The predefined names and their addresses.
pub open spec fn predefined() -> Map<Seq<char>, u16> {
    Map::<Seq<char>, u16>::empty()
        .insert("SP"@, 0)
        .insert("LCL"@, 1)
        .insert("ARG"@, 2)
        .insert("THIS"@, 3)
        .insert("THAT"@, 4)
        .insert("R0"@, 0)
        .insert("R1"@, 1)
        .insert("R2"@, 2)
        .insert("R3"@, 3)
        .insert("R4"@, 4)
        .insert("R5"@, 5)
        .insert("R6"@, 6)
        .insert("R7"@, 7)
        .insert("R8"@, 8)
        .insert("R9"@, 9)
        .insert("R10"@, 10)
        .insert("R11"@, 11)
        .insert("R12"@, 12)
        .insert("R13"@, 13)
        .insert("R14"@, 14)
        .insert("R15"@, 15)
        .insert("SCREEN"@, 0x4000)
        .insert("KBD"@, 0x6000)
}

/// Each predefined name has its address.
pub proof fn lemma_predefined_addresses()
    ensures
        predefined()["SP"@] == 0,
        predefined()["LCL"@] == 1,
        predefined()["ARG"@] == 2,
        predefined()["THIS"@] == 3,
        predefined()["THAT"@] == 4,
        predefined()["R0"@] == 0,
        predefined()["R1"@] == 1,
        predefined()["R2"@] == 2,
        predefined()["R3"@] == 3,
        predefined()["R4"@] == 4,
        predefined()["R5"@] == 5,
        predefined()["R6"@] == 6,
        predefined()["R7"@] == 7,
        predefined()["R8"@] == 8,
        predefined()["R9"@] == 9,
        predefined()["R10"@] == 10,
        predefined()["R11"@] == 11,
        predefined()["R12"@] == 12,
        predefined()["R13"@] == 13,
        predefined()["R14"@] == 14,
        predefined()["R15"@] == 15,
        predefined()["SCREEN"@] == 0x4000,
        predefined()["KBD"@] == 0x6000,
{
    reveal_strlit("SP");
    assert("SP"@.len() == 2);
    assert("SP"@[0] == 'S' && "SP"@[1] == 'P');
    reveal_strlit("LCL");
    assert("LCL"@.len() == 3);
    assert("LCL"@[0] == 'L' && "LCL"@[1] == 'C' && "LCL"@[2] == 'L');
    reveal_strlit("ARG");
    assert("ARG"@.len() == 3);
    assert("ARG"@[0] == 'A' && "ARG"@[1] == 'R' && "ARG"@[2] == 'G');
    reveal_strlit("THIS");
    assert("THIS"@.len() == 4);
    assert("THIS"@[0] == 'T' && "THIS"@[1] == 'H' && "THIS"@[2] == 'I' && "THIS"@[3] == 'S');
    reveal_strlit("THAT");
    assert("THAT"@.len() == 4);
    assert("THAT"@[0] == 'T' && "THAT"@[1] == 'H' && "THAT"@[2] == 'A' && "THAT"@[3] == 'T');
    reveal_strlit("R0");
    assert("R0"@.len() == 2);
    assert("R0"@[0] == 'R' && "R0"@[1] == '0');
    reveal_strlit("R1");
    assert("R1"@.len() == 2);
    assert("R1"@[0] == 'R' && "R1"@[1] == '1');
    reveal_strlit("R2");
    assert("R2"@.len() == 2);
    assert("R2"@[0] == 'R' && "R2"@[1] == '2');
    reveal_strlit("R3");
    assert("R3"@.len() == 2);
    assert("R3"@[0] == 'R' && "R3"@[1] == '3');
    reveal_strlit("R4");
    assert("R4"@.len() == 2);
    assert("R4"@[0] == 'R' && "R4"@[1] == '4');
    reveal_strlit("R5");
    assert("R5"@.len() == 2);
    assert("R5"@[0] == 'R' && "R5"@[1] == '5');
    reveal_strlit("R6");
    assert("R6"@.len() == 2);
    assert("R6"@[0] == 'R' && "R6"@[1] == '6');
    reveal_strlit("R7");
    assert("R7"@.len() == 2);
    assert("R7"@[0] == 'R' && "R7"@[1] == '7');
    reveal_strlit("R8");
    assert("R8"@.len() == 2);
    assert("R8"@[0] == 'R' && "R8"@[1] == '8');
    reveal_strlit("R9");
    assert("R9"@.len() == 2);
    assert("R9"@[0] == 'R' && "R9"@[1] == '9');
    reveal_strlit("R10");
    assert("R10"@.len() == 3);
    assert("R10"@[0] == 'R' && "R10"@[1] == '1' && "R10"@[2] == '0');
    reveal_strlit("R11");
    assert("R11"@.len() == 3);
    assert("R11"@[0] == 'R' && "R11"@[1] == '1' && "R11"@[2] == '1');
    reveal_strlit("R12");
    assert("R12"@.len() == 3);
    assert("R12"@[0] == 'R' && "R12"@[1] == '1' && "R12"@[2] == '2');
    reveal_strlit("R13");
    assert("R13"@.len() == 3);
    assert("R13"@[0] == 'R' && "R13"@[1] == '1' && "R13"@[2] == '3');
    reveal_strlit("R14");
    assert("R14"@.len() == 3);
    assert("R14"@[0] == 'R' && "R14"@[1] == '1' && "R14"@[2] == '4');
    reveal_strlit("R15");
    assert("R15"@.len() == 3);
    assert("R15"@[0] == 'R' && "R15"@[1] == '1' && "R15"@[2] == '5');
    reveal_strlit("SCREEN");
    assert("SCREEN"@.len() == 6);
    assert("SCREEN"@[0] == 'S' && "SCREEN"@[1] == 'C' && "SCREEN"@[2] == 'R' && "SCREEN"@[3] == 'E'
        && "SCREEN"@[4] == 'E' && "SCREEN"@[5] == 'N');
    reveal_strlit("KBD");
    assert("KBD"@.len() == 3);
    assert("KBD"@[0] == 'K' && "KBD"@[1] == 'B' && "KBD"@[2] == 'D');
}

impl Bindings {
    /// The table that holds the predefined names and nothing else.
    pub open spec fn initial() -> Bindings {
        Bindings {
            addresses: predefined(),
            fixed: predefined().dom(),
            next_address: FIRST_VARIABLE,
        }
    }

    /// The table after `name` was used in an A-instruction: a name that
    /// nothing binds yet becomes a variable at the next free address.
    pub open spec fn with_variable(self, name: Seq<char>) -> Bindings {
        if self.addresses.contains_key(name) {
            self
        } else {
            Bindings {
                addresses: self.addresses.insert(name, self.next_address),
                fixed: self.fixed,
                next_address: (self.next_address + 1) as u16,
            }
        }
    }

    /// The table after the label `name` was defined at `value`: the first
    /// definition of a label stands, and a predefined name stays as it is.
    pub open spec fn with_label(self, name: Seq<char>, value: u16) -> Bindings {
        if self.fixed.contains(name) {
            self
        } else {
            Bindings {
                addresses: self.addresses.insert(name, value),
                fixed: self.fixed.insert(name),
                next_address: self.next_address,
            }
        }
    }
}

/// The variables get the addresses from 16 on, one after the other: a name
/// that nothing binds gets the next address, and the next address goes up by
/// one; a name that is bound changes nothing.
pub proof fn lemma_variables_in_order(table: Bindings, name: Seq<char>)
    requires
        table.next_address < u16::MAX || table.addresses.contains_key(name),
    ensures
        Bindings::initial().next_address == 16,
        table.with_variable(name).addresses.contains_key(name),
        table.addresses.contains_key(name) ==> table.with_variable(name) == table,
        !table.addresses.contains_key(name) ==> table.with_variable(name).addresses[name]
            == table.next_address && table.with_variable(name).next_address == table.next_address
            + 1,
        table.with_variable(name).next_address >= table.next_address,
        forall|other: Seq<char>|
            table.addresses.contains_key(other) ==> table.with_variable(name).addresses[other]
                == table.addresses[other],
{
}

/// The instruction that a statement stands for, where its symbol is bound.
pub open spec fn resolved(statement: Statement, addresses: Map<Seq<char>, u16>) -> Instruction {
    match statement {
        Statement::AImmediate { value } => Instruction::A { value },
        Statement::ASymbol { symbol } => Instruction::A { value: addresses[symbol] },
        Statement::C { comp, dest, jump } => Instruction::C { comp, dest, jump },
    }
}

/// Whether a statement names a symbol that nothing binds.
pub open spec fn is_unbound(statement: Statement, addresses: Map<Seq<char>, u16>) -> bool {
    statement matches Statement::ASymbol { symbol } && !addresses.contains_key(symbol)
}

/// The statements one by one.
pub open spec fn statements(instructions: Seq<SymbolInstruction>) -> Seq<Statement> {
    Seq::new(instructions.len(), |i: int| instructions[i]@)
}

/// The instructions that the statements stand for, or the first symbol that
/// nothing binds.
pub open spec fn resolve(
    statements: Seq<Statement>,
    addresses: Map<Seq<char>, u16>,
) -> std::result::Result<Seq<Instruction>, Seq<char>>
    decreases statements.len(),
{
    if statements.len() == 0 {
        Ok(Seq::empty())
    } else {
        match resolve(statements.drop_last(), addresses) {
            Err(symbol) => Err(symbol),
            Ok(done) => match statements.last() {
                Statement::ASymbol { symbol } if !addresses.contains_key(symbol) => Err(symbol),
                statement => Ok(done.push(resolved(statement, addresses))),
            },
        }
    }
}

pub struct SymbolTable {
    table: StringHashMap<u16>,
    fixed: StringHashMap<bool>,
    next_address: u16,
}

impl View for SymbolTable {
    type V = Bindings;

    closed spec fn view(&self) -> Bindings {
        Bindings {
            addresses: self.table@,
            fixed: self.fixed@.dom(),
            next_address: self.next_address,
        }
    }
}

impl SymbolTable {
    /// The table that holds the predefined names.
    pub fn new() -> (r: Self)
        ensures
            r@ == Bindings::initial(),
    {
        let mut table = StringHashMap::new();
        let mut fixed = StringHashMap::new();
        table.insert("SP".to_owned(), 0);
        fixed.insert("SP".to_owned(), true);
        table.insert("LCL".to_owned(), 1);
        fixed.insert("LCL".to_owned(), true);
        table.insert("ARG".to_owned(), 2);
        fixed.insert("ARG".to_owned(), true);
        table.insert("THIS".to_owned(), 3);
        fixed.insert("THIS".to_owned(), true);
        table.insert("THAT".to_owned(), 4);
        fixed.insert("THAT".to_owned(), true);
        table.insert("R0".to_owned(), 0);
        fixed.insert("R0".to_owned(), true);
        table.insert("R1".to_owned(), 1);
        fixed.insert("R1".to_owned(), true);
        table.insert("R2".to_owned(), 2);
        fixed.insert("R2".to_owned(), true);
        table.insert("R3".to_owned(), 3);
        fixed.insert("R3".to_owned(), true);
        table.insert("R4".to_owned(), 4);
        fixed.insert("R4".to_owned(), true);
        table.insert("R5".to_owned(), 5);
        fixed.insert("R5".to_owned(), true);
        table.insert("R6".to_owned(), 6);
        fixed.insert("R6".to_owned(), true);
        table.insert("R7".to_owned(), 7);
        fixed.insert("R7".to_owned(), true);
        table.insert("R8".to_owned(), 8);
        fixed.insert("R8".to_owned(), true);
        table.insert("R9".to_owned(), 9);
        fixed.insert("R9".to_owned(), true);
        table.insert("R10".to_owned(), 10);
        fixed.insert("R10".to_owned(), true);
        table.insert("R11".to_owned(), 11);
        fixed.insert("R11".to_owned(), true);
        table.insert("R12".to_owned(), 12);
        fixed.insert("R12".to_owned(), true);
        table.insert("R13".to_owned(), 13);
        fixed.insert("R13".to_owned(), true);
        table.insert("R14".to_owned(), 14);
        fixed.insert("R14".to_owned(), true);
        table.insert("R15".to_owned(), 15);
        fixed.insert("R15".to_owned(), true);
        table.insert("SCREEN".to_owned(), 0x4000);
        fixed.insert("SCREEN".to_owned(), true);
        table.insert("KBD".to_owned(), 0x6000);
        fixed.insert("KBD".to_owned(), true);
        let r = Self { table, fixed, next_address: FIRST_VARIABLE };
        proof {
            assert(r@.fixed =~= Bindings::initial().fixed);
        }
        r
    }

    /// Whether a variable can still be given an address.
    pub open spec fn has_room(&self) -> bool {
        self@.next_address < u16::MAX
    }

    /// Notes that `name` is used in an A-instruction.
    pub fn insert_variable(&mut self, name: &str)
        requires
            old(self).has_room() || old(self)@.addresses.contains_key(name@),
        ensures
            final(self)@ == old(self)@.with_variable(name@),
    {
        if !self.table.contains_key(name) {
            self.table.insert(name.to_owned(), self.next_address);
            self.next_address += 1;
        }
    }

    /// Defines the label `name` at the address `value`. Where the name is
    /// predefined or a label already it keeps its address, and the error
    /// says so.
    pub fn insert_label(&mut self, name: &str, value: u16) -> (r: Result<()>)
        ensures
            final(self)@ == old(self)@.with_label(name@, value),
            match r {
                Ok(_) => !old(self)@.fixed.contains(name@),
                Err(SymbolError::Redefined(again)) => old(self)@.fixed.contains(name@) && again@
                    == name@,
                Err(SymbolError::UnknownSymbol(_)) => false,
            },
    {
        if self.fixed.contains_key(name) {
            return Err(SymbolError::Redefined(name.to_owned()));
        }
        self.table.insert(name.to_owned(), value);
        self.fixed.insert(name.to_owned(), true);
        proof {
            assert(final(self)@.fixed =~= old(self)@.fixed.insert(name@));
        }
        Ok(())
    }

    /// The address that `name` is bound to.
    pub fn get(&self, name: &str) -> (r: Option<u16>)
        ensures
            r == if self@.addresses.contains_key(name@) {
                Some(self@.addresses[name@])
            } else {
                None
            },
    {
        match self.table.get(name) {
            Some(value) => Some(*value),
            None => None,
        }
    }

    /// Replaces every symbol by the address that it is bound to.
    pub fn resolve_symbols(&self, instructions: &[SymbolInstruction]) -> (r: Result<
        Vec<Instruction>,
    >)
        ensures
            match r {
                Ok(done) => resolve(statements(instructions@), self@.addresses) == Ok::<
                    Seq<Instruction>,
                    Seq<char>,
                >(done@),
                Err(SymbolError::UnknownSymbol(symbol)) => resolve(
                    statements(instructions@),
                    self@.addresses,
                ) == Err::<Seq<Instruction>, Seq<char>>(symbol@),
                Err(SymbolError::Redefined(_)) => false,
            },
    {
        let ghost all = statements(instructions@);
        let mut done: Vec<Instruction> = Vec::new();
        let mut i: usize = 0;
        proof {
            assert(all.take(0) =~= Seq::<Statement>::empty());
        }
        while i < instructions.len()
            invariant
                i <= instructions@.len(),
                all == statements(instructions@),
                resolve(all.take(i as int), self@.addresses) == Ok::<Seq<Instruction>, Seq<char>>(
                    done@,
                ),
            decreases instructions@.len() - i,
        {
            proof {
                assert(all.take(i as int + 1).drop_last() =~= all.take(i as int));
                assert(all.take(i as int + 1).last() == instructions@[i as int]@);
            }
            match &instructions[i] {
                SymbolInstruction::AImmediate { value } => {
                    done.push(Instruction::A { value: *value });
                },
                SymbolInstruction::ASymbol { symbol } => {
                    match self.table.get(symbol.as_str()) {
                        Some(value) => {
                            done.push(Instruction::A { value: *value });
                        },
                        None => {
                            proof {
                                lemma_resolve_fails(all, i as int, self@.addresses);
                            }
                            return Err(SymbolError::UnknownSymbol(symbol.clone()));
                        },
                    }
                },
                SymbolInstruction::C { comp, dest, jump } => {
                    done.push(Instruction::C { comp: *comp, dest: *dest, jump: *jump });
                },
            }
            i += 1;
        }
        proof {
            assert(all.take(i as int) =~= all);
        }
        Ok(done)
    }
}

/// Once a symbol is found unbound, the statements behind it do not matter.
proof fn lemma_resolve_fails(all: Seq<Statement>, i: int, addresses: Map<Seq<char>, u16>)
    requires
        0 <= i < all.len(),
        resolve(all.take(i + 1), addresses) is Err,
    ensures
        resolve(all, addresses) == resolve(all.take(i + 1), addresses),
    decreases all.len(),
{
    if i + 1 < all.len() {
        assert(all.drop_last().take(i + 1) =~= all.take(i + 1));
        lemma_resolve_fails(all.drop_last(), i, addresses);
    } else {
        assert(all.take(i + 1) =~= all);
    }
}

} // verus!
