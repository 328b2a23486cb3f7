//! The assembler: from the lines of a program to the words of the machine.
//!
//! A program is parsed line by line, which fills the symbol table; then
//! every symbol is replaced by its address; then every instruction is
//! written out as a line of sixteen binary digits.

use crate::assembler::instruction::{word_of, Instruction};
use crate::assembler::parser::{assembled, noted, parse, parsed_line, Fault, ParseError, Parsed};
use crate::assembler::symbol::{
    is_unbound, resolve, resolved, statements, Bindings, Statement, SymbolError, SymbolTable,
};
use crate::signal::wires_of;
use crate::text::line_texts;
use vstd::prelude::*;

pub mod instruction;
pub mod parser;
pub mod symbol;
pub mod token;

verus! {

/// One line of the output: the sixteen bits of the instruction as `0` and
/// `1`, most significant first, and a line feed.
pub open spec fn binary_line(instruction: Instruction) -> Seq<char> {
    Seq::new(
        17,
        |k: int|
            if k == 16 {
                '\n'
            } else if wires_of(word_of(instruction))[k] {
                '1'
            } else {
                '0'
            },
    )
}

/// The output for a program: the lines of its instructions, in order.
pub open spec fn listing(instructions: Seq<Instruction>) -> Seq<char>
    decreases instructions.len(),
{
    if instructions.len() == 0 {
        Seq::empty()
    } else {
        listing(instructions.drop_last()) + binary_line(instructions.last())
    }
}

/// Writes a program out, one instruction on each line.
pub fn binary_text(instructions: &[Instruction]) -> (r: String)
    ensures
        r@ == listing(instructions@),
{
    let mut r = String::new();
    let mut i: usize = 0;
    proof {
        assert(instructions@.take(0) =~= Seq::<Instruction>::empty());
    }
    while i < instructions.len()
        invariant
            i <= instructions@.len(),
            r@ == listing(instructions@.take(i as int)),
        decreases instructions@.len() - i,
    {
        let bits = instructions[i].as_binary();
        let ghost start = r@;
        let mut k: usize = 0;
        while k < 16
            invariant
                k <= 16,
                i < instructions@.len(),
                bits@ == wires_of(word_of(instructions@[i as int])),
                r@ == start + binary_line(instructions@[i as int]).take(k as int),
            decreases 16 - k,
        {
            r.push(if bits[k] { '1' } else { '0' });
            proof {
                let line = binary_line(instructions@[i as int]);
                assert(line.take(k as int + 1) =~= line.take(k as int).push(line[k as int]));
            }
            k += 1;
        }
        r.push('\n');
        proof {
            let line = binary_line(instructions@[i as int]);
            assert(line.take(16).push('\n') =~= line);
            assert(instructions@.take(i as int + 1).drop_last() =~= instructions@.take(i as int));
        }
        i += 1;
    }
    proof {
        assert(instructions@.take(i as int) =~= instructions@);
    }
    r
}

/// Whether every name that the statements use is bound.
pub open spec fn all_bound(statements: Seq<Statement>, addresses: Map<Seq<char>, u16>) -> bool {
    forall|k: int| 0 <= k < statements.len() ==> !is_unbound(#[trigger] statements[k], addresses)
}

/// Where every name is bound, every statement resolves.
pub proof fn lemma_resolve_bound(statements: Seq<Statement>, addresses: Map<Seq<char>, u16>)
    requires
        all_bound(statements, addresses),
    ensures
        resolve(statements, addresses) == Ok::<Seq<Instruction>, Seq<char>>(
            Seq::new(statements.len(), |k: int| resolved(statements[k], addresses)),
        ),
    decreases statements.len(),
{
    if statements.len() > 0 {
        let front = statements.drop_last();
        assert forall|k: int| 0 <= k < front.len() implies !is_unbound(
            #[trigger] front[k],
            addresses,
        ) by {
            assert(front[k] == statements[k]);
        }
        lemma_resolve_bound(front, addresses);
        assert(!is_unbound(statements[statements.len() - 1], addresses));
        assert(Seq::new(front.len(), |k: int| resolved(front[k], addresses)).push(
            resolved(statements.last(), addresses),
        ) =~= Seq::new(statements.len(), |k: int| resolved(statements[k], addresses)));
    } else {
        assert(Seq::<Instruction>::empty() =~= Seq::new(
            statements.len(),
            |k: int| resolved(statements[k], addresses),
        ));
    }
}

/// Parsing never unbinds a name, and it binds every name that the parsed
/// instructions use: a program that parses can be resolved.
pub proof fn lemma_parsed_names_are_bound(lines: Seq<Seq<char>>, table: Bindings, count: u16)
    ensures
        table.addresses.dom().subset_of(assembled(lines, table, count).1.addresses.dom()),
        assembled(lines, table, count).0 matches Ok(statements) ==> all_bound(
            statements,
            assembled(lines, table, count).1.addresses,
        ),
    decreases lines.len(),
{
    if lines.len() > 0 {
        let rest = lines.drop_first();
        match parsed_line(lines[0]) {
            Parsed::Blank => {
                lemma_parsed_names_are_bound(rest, table, count);
            },
            Parsed::Label(name) => {
                if !table.fixed.contains(name) {
                    lemma_parsed_names_are_bound(rest, table.with_label(name, count), count);
                }
            },
            Parsed::Instruction(statement) => {
                let next = noted(table, statement);
                let tail = assembled(rest, next, (count + 1) as u16);
                lemma_parsed_names_are_bound(rest, next, (count + 1) as u16);
                if let Ok(others) = tail.0 {
                    let all = seq![statement] + others;
                    assert forall|k: int| 0 <= k < all.len() implies !is_unbound(
                        #[trigger] all[k],
                        tail.1.addresses,
                    ) by {
                        if k == 0 {
                            if let Statement::ASymbol { symbol } = statement {
                                assert(next.addresses.dom().contains(symbol));
                            }
                        } else {
                            assert(all[k] == others[k - 1]);
                        }
                    }
                }
            },
            Parsed::Fail(fault) => {},
        }
    }
}

/// The most lines that a program may have: each may need a variable, and
/// the addresses of the variables are numbers of sixteen bits.
pub const MOST_LINES: usize = 0xffef;

/// Assembles a program: the binary text of its instructions, or the first
/// error in it.
pub fn assemble(lines: &[&str]) -> (r: std::result::Result<String, ParseError>)
    requires
        lines@.len() <= MOST_LINES,
    ensures
        match r {
            Ok(text) => {
                let program = assembled(line_texts(lines@), Bindings::initial(), 0);
                &&& program.0 is Ok
                &&& resolve(program.0->Ok_0, program.1.addresses) is Ok
                &&& text@ == listing(resolve(program.0->Ok_0, program.1.addresses)->Ok_0)
            },
            Err(error) => assembled(line_texts(lines@), Bindings::initial(), 0).0 == Err::<
                Seq<Statement>,
                Fault,
            >(error@),
        },
{
    let mut symbols = SymbolTable::new();
    let symbol_instructions = parse(lines, &mut symbols)?;
    proof {
        lemma_parsed_names_are_bound(line_texts(lines@), Bindings::initial(), 0);
        lemma_resolve_bound(statements(symbol_instructions@), symbols@.addresses);
    }
    match symbols.resolve_symbols(symbol_instructions.as_slice()) {
        Ok(instructions) => Ok(binary_text(instructions.as_slice())),
        Err(SymbolError::UnknownSymbol(symbol)) => Err(ParseError::InvalidSymbol(symbol)),
        Err(SymbolError::Redefined(symbol)) => Err(ParseError::InvalidSymbol(symbol)),
    }
}

} // verus!
