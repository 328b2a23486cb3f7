//! The parser: from the lines of a program to instructions that may still
//! name symbols, and to a symbol table that binds the labels and variables.
//!
//! Each line is first stripped of the white space at its ends and then of
//! its comment, which starts at `//`. What is left is nothing, an
//! A-instruction (`@` and a number or a name), the definition of a label (a
//! name in round brackets) or a C-instruction: a computation, with the
//! destinations and `=` before it and `;` and a jump behind it where they
//! are wanted.

use crate::assembler::instruction::{Comp, Dest, Jump};
use crate::assembler::symbol::{Bindings, Statement, SymbolInstruction, SymbolTable};
use crate::assembler::symbol::statements;
use crate::text::{
    chars_of, is_space, line_texts, slice_of, space, spells, text_of, trim, trimmed,
};
use vstd::prelude::*;
use vstd::string::StringExecFns;

verus! {

/// Why a program could not be parsed.
#[derive(Debug)]
pub enum ParseError {
    /// A name holds a character that no name may hold, or begins with a digit.
    InvalidSymbol(String),
    /// The computation is none that the machine has.
    UnknownComp(String),
    /// The line is no instruction.
    InvalidSyntax(String),
    /// The number does not fit in fifteen bits.
    TooLargeNumber(String),
    /// The label is defined, but its name is predefined or a label already.
    RedefinedLabel(String),
}

pub type Result<T> = std::result::Result<T, ParseError>;

/// A `ParseError`, with its text as a sequence of characters.
pub enum Fault {
    InvalidSymbol(Seq<char>),
    UnknownComp(Seq<char>),
    InvalidSyntax(Seq<char>),
    TooLargeNumber(Seq<char>),
    RedefinedLabel(Seq<char>),
}

impl View for ParseError {
    type V = Fault;

    open spec fn view(&self) -> Fault {
        match self {
            ParseError::InvalidSymbol(text) => Fault::InvalidSymbol(text@),
            ParseError::UnknownComp(text) => Fault::UnknownComp(text@),
            ParseError::InvalidSyntax(text) => Fault::InvalidSyntax(text@),
            ParseError::TooLargeNumber(text) => Fault::TooLargeNumber(text@),
            ParseError::RedefinedLabel(text) => Fault::RedefinedLabel(text@),
        }
    }
}

impl ParseError {
    /// The error in words.
    pub fn message(&self) -> (r: String)
        ensures
            r@ == match self@ {
                Fault::InvalidSymbol(text) => text + " is an invalid symbol"@,
                Fault::UnknownComp(text) => "Unknown comp ("@ + text + ")"@,
                Fault::InvalidSyntax(text) => "Syntax error: "@ + text,
                Fault::TooLargeNumber(text) => text + " is too large a number"@,
                Fault::RedefinedLabel(text) => text + " is defined already"@,
            },
    {
        match self {
            ParseError::InvalidSymbol(text) => text.clone().concat(" is an invalid symbol"),
            ParseError::UnknownComp(text) => String::from_str("Unknown comp (").concat(
                text.as_str(),
            ).concat(")"),
            ParseError::InvalidSyntax(text) => String::from_str("Syntax error: ").concat(
                text.as_str(),
            ),
            ParseError::TooLargeNumber(text) => text.clone().concat(" is too large a number"),
            ParseError::RedefinedLabel(text) => text.clone().concat(" is defined already"),
        }
    }
}

/// The largest number that an A-instruction can hold.
pub const LARGEST_NUMBER: u16 = 0x7fff;

/// Whether `c` is a decimal digit.
pub open spec fn is_digit(c: char) -> bool {
    '0' as u32 <= c as u32 <= '9' as u32
}

/// Whether a name may hold `c`: letters and digits of ASCII, and `_ . $ :`.
pub open spec fn is_symbol_char(c: char) -> bool {
    ||| 'a' as u32 <= c as u32 <= 'z' as u32
    ||| 'A' as u32 <= c as u32 <= 'Z' as u32
    ||| is_digit(c)
    ||| c == '_'
    ||| c == '.'
    ||| c == '$'
    ||| c == ':'
}

/// Whether every character of `text` may stand in a name.
pub open spec fn all_symbol_chars(text: Seq<char>) -> bool {
    forall|i: int| 0 <= i < text.len() ==> is_symbol_char(#[trigger] text[i])
}

/// Whether `text` is made of digits alone, and of at least one.
pub open spec fn is_number(text: Seq<char>) -> bool {
    &&& text.len() > 0
    &&& forall|i: int| 0 <= i < text.len() ==> is_digit(#[trigger] text[i])
}

/// The number that the digits of `text` spell.
pub open spec fn decimal(text: Seq<char>) -> nat
    decreases text.len(),
{
    if text.len() == 0 {
        0
    } else {
        10 * decimal(text.drop_last()) + (text.last() as u32 - '0' as u32) as nat
    }
}

/// Where the comment of a line starts: at the first `//`, or at the end of
/// the line if there is none.
pub open spec fn comment_start(line: Seq<char>) -> int
    decreases line.len(),
{
    if line.len() < 2 {
        line.len() as int
    } else if line[0] == '/' && line[1] == '/' {
        0
    } else {
        1 + comment_start(line.drop_first())
    }
}

/// How many characters stand before the first white space of `text`.
pub open spec fn word_length(text: Seq<char>) -> int
    decreases text.len(),
{
    if text.len() == 0 || is_space(text[0]) {
        0
    } else {
        1 + word_length(text.drop_first())
    }
}

/// The first word of `text`: what stands between the white space that
/// `text` begins with and the next white space. There is none where `text`
/// is white space alone.
pub open spec fn first_word(text: Seq<char>) -> Option<Seq<char>> {
    let rest = text.skip(crate::text::leading_spaces(text));
    if rest.len() == 0 {
        None
    } else {
        Some(rest.take(word_length(rest)))
    }
}

/// `text` without any white space.
pub open spec fn squeezed(text: Seq<char>) -> Seq<char>
    decreases text.len(),
{
    if text.len() == 0 {
        text
    } else if is_space(text.last()) {
        squeezed(text.drop_last())
    } else {
        squeezed(text.drop_last()).push(text.last())
    }
}

/// What is left of a line for the parser: the line without the white space
/// at its ends, up to its comment.
pub open spec fn code_of(line: Seq<char>) -> Seq<char> {
    let t = trimmed(line);
    t.take(comment_start(t))
}

/// The computation that `text` names. A sum, a conjunction and a
/// disjunction may name their operands in either order.
pub open spec fn comp_of_text(text: Seq<char>) -> Option<Comp> {
    if text == "0"@ {
        Some(Comp::Zero)
    } else if text == "1"@ {
        Some(Comp::One)
    } else if text == "-1"@ {
        Some(Comp::MinusOne)
    } else if text == "D"@ {
        Some(Comp::D)
    } else if text == "A"@ {
        Some(Comp::A)
    } else if text == "M"@ {
        Some(Comp::M)
    } else if text == "!D"@ {
        Some(Comp::NotD)
    } else if text == "!A"@ {
        Some(Comp::NotA)
    } else if text == "!M"@ {
        Some(Comp::NotM)
    } else if text == "-D"@ {
        Some(Comp::MinusD)
    } else if text == "-A"@ {
        Some(Comp::MinusA)
    } else if text == "-M"@ {
        Some(Comp::MinusM)
    } else if text == "D+1"@ || text == "1+D"@ {
        Some(Comp::DPlusOne)
    } else if text == "A+1"@ || text == "1+A"@ {
        Some(Comp::APlusOne)
    } else if text == "M+1"@ || text == "1+M"@ {
        Some(Comp::MPlusOne)
    } else if text == "D-1"@ {
        Some(Comp::DMinusOne)
    } else if text == "A-1"@ {
        Some(Comp::AMinusOne)
    } else if text == "M-1"@ {
        Some(Comp::MMinusOne)
    } else if text == "D+A"@ || text == "A+D"@ {
        Some(Comp::DPlusA)
    } else if text == "D+M"@ || text == "M+D"@ {
        Some(Comp::DPlusM)
    } else if text == "D-A"@ {
        Some(Comp::DMinusA)
    } else if text == "A-D"@ {
        Some(Comp::AMinusD)
    } else if text == "D-M"@ {
        Some(Comp::DMinusM)
    } else if text == "M-D"@ {
        Some(Comp::MMinusD)
    } else if text == "D&A"@ || text == "A&D"@ {
        Some(Comp::DAndA)
    } else if text == "D&M"@ || text == "M&D"@ {
        Some(Comp::DAndM)
    } else if text == "D|A"@ || text == "A|D"@ {
        Some(Comp::DOrA)
    } else if text == "D|M"@ || text == "M|D"@ {
        Some(Comp::DOrM)
    } else {
        None
    }
}

/// How a computation is written.
pub open spec fn comp_text(comp: Comp) -> Seq<char> {
    match comp {
        Comp::Zero => "0"@,
        Comp::One => "1"@,
        Comp::MinusOne => "-1"@,
        Comp::D => "D"@,
        Comp::A => "A"@,
        Comp::M => "M"@,
        Comp::NotD => "!D"@,
        Comp::NotA => "!A"@,
        Comp::NotM => "!M"@,
        Comp::MinusD => "-D"@,
        Comp::MinusA => "-A"@,
        Comp::MinusM => "-M"@,
        Comp::DPlusOne => "D+1"@,
        Comp::APlusOne => "A+1"@,
        Comp::MPlusOne => "M+1"@,
        Comp::DMinusOne => "D-1"@,
        Comp::AMinusOne => "A-1"@,
        Comp::MMinusOne => "M-1"@,
        Comp::DPlusA => "D+A"@,
        Comp::DPlusM => "D+M"@,
        Comp::DMinusA => "D-A"@,
        Comp::AMinusD => "A-D"@,
        Comp::DMinusM => "D-M"@,
        Comp::MMinusD => "M-D"@,
        Comp::DAndA => "D&A"@,
        Comp::DAndM => "D&M"@,
        Comp::DOrA => "D|A"@,
        Comp::DOrM => "D|M"@,
    }
}

/// The destinations that `text` names: those of A, D and M whose letter
/// stands in it, or none where no such letter does.
pub open spec fn dest_of_text(text: Seq<char>) -> Option<Dest> {
    let m = text.contains('M');
    let d = text.contains('D');
    let a = text.contains('A');
    if m && d && a {
        Some(Dest::ADM)
    } else if m && d {
        Some(Dest::DM)
    } else if m && a {
        Some(Dest::AM)
    } else if d && a {
        Some(Dest::AD)
    } else if m {
        Some(Dest::M)
    } else if d {
        Some(Dest::D)
    } else if a {
        Some(Dest::A)
    } else {
        None
    }
}

/// How destinations are written.
pub open spec fn dest_text(dest: Dest) -> Seq<char> {
    match dest {
        Dest::M => "M"@,
        Dest::D => "D"@,
        Dest::DM => "DM"@,
        Dest::A => "A"@,
        Dest::AM => "AM"@,
        Dest::AD => "AD"@,
        Dest::ADM => "ADM"@,
    }
}

/// The jump that `text` names.
pub open spec fn jump_of_text(text: Seq<char>) -> Option<Jump> {
    if text == "JGT"@ {
        Some(Jump::JGT)
    } else if text == "JEQ"@ {
        Some(Jump::JEQ)
    } else if text == "JGE"@ {
        Some(Jump::JGE)
    } else if text == "JLT"@ {
        Some(Jump::JLT)
    } else if text == "JNE"@ {
        Some(Jump::JNE)
    } else if text == "JLE"@ {
        Some(Jump::JLE)
    } else if text == "JMP"@ {
        Some(Jump::JMP)
    } else {
        None
    }
}

/// How a jump is written.
pub open spec fn jump_text(jump: Jump) -> Seq<char> {
    match jump {
        Jump::JGT => "JGT"@,
        Jump::JEQ => "JEQ"@,
        Jump::JGE => "JGE"@,
        Jump::JLT => "JLT"@,
        Jump::JNE => "JNE"@,
        Jump::JLE => "JLE"@,
        Jump::JMP => "JMP"@,
    }
}

/// What one line is to the parser.
pub enum Parsed {
    /// Nothing: the line is empty or a comment.
    Blank,
    /// The definition of a label.
    Label(Seq<char>),
    /// An instruction.
    Instruction(Statement),
    /// An error.
    Fail(Fault),
}

/// The A-instruction that stands behind `@`.
pub open spec fn a_instruction(rest: Seq<char>) -> Parsed {
    match first_word(rest) {
        None => Parsed::Fail(Fault::InvalidSyntax(rest)),
        Some(value) => if !all_symbol_chars(value) {
            Parsed::Fail(Fault::InvalidSymbol(value))
        } else if is_number(value) {
            if decimal(value) <= LARGEST_NUMBER {
                Parsed::Instruction(Statement::AImmediate { value: decimal(value) as u16 })
            } else {
                Parsed::Fail(Fault::TooLargeNumber(value))
            }
        } else if is_digit(value[0]) {
            Parsed::Fail(Fault::InvalidSymbol(value))
        } else {
            Parsed::Instruction(Statement::ASymbol { symbol: value })
        },
    }
}

/// The label that a line defines which begins with `(`.
pub open spec fn label_definition(code: Seq<char>) -> Parsed {
    if code.len() >= 2 && code.last() == ')' {
        let label = trimmed(code.subrange(1, code.len() - 1));
        if all_symbol_chars(label) && !(label.len() > 0 && is_digit(label[0])) {
            Parsed::Label(label)
        } else {
            Parsed::Fail(Fault::InvalidSymbol(label))
        }
    } else {
        Parsed::Fail(Fault::InvalidSyntax(code))
    }
}

/// The C-instruction that is made of the three parts of a line: what
/// stands before `=`, if there is anything, the computation, and what
/// stands behind `;`, if there is anything. `code` is the line they were
/// taken from.
pub open spec fn c_instruction(
    code: Seq<char>,
    dest: Option<Seq<char>>,
    comp: Seq<char>,
    jump: Option<Seq<char>>,
) -> Parsed {
    if dest is Some && dest_of_text(dest->0) is None {
        Parsed::Fail(Fault::InvalidSyntax(code))
    } else if comp_of_text(squeezed(comp)) is None {
        Parsed::Fail(Fault::UnknownComp(squeezed(comp)))
    } else if jump is Some && jump_of_text(jump->0) is None {
        Parsed::Fail(Fault::InvalidSyntax(code))
    } else {
        Parsed::Instruction(
            Statement::C {
                comp: comp_of_text(squeezed(comp))->0,
                dest: if dest is Some {
                    dest_of_text(dest->0)
                } else {
                    None
                },
                jump: if jump is Some {
                    jump_of_text(jump->0)
                } else {
                    None
                },
            },
        )
    }
}

/// The pattern of a C-instruction. The group `dest` is what stands before
/// `=`, `comp` the computation, and `jump` what stands behind `;`.
pub const C_INSTRUCTION: &'static str =
    "(?:(?P<dest>M|D|DM|MD|A|AM|MA|AD|DA|AMD|ADM|DAM|DMA|MAD|MDA)\\s*=)?\
     \\s*(?P<comp>[^;]+)\
     (?:;\\s*(?P<jump>JGT|JEQ|JGE|JLT|JNE|JLE|JMP))?\\s*";

/// The names of the groups of `C_INSTRUCTION`, in the order in which the
/// parser asks for them.
pub open spec fn group_names() -> Seq<Seq<char>> {
    seq!["dest"@, "comp"@, "jump"@]
}

/// Why `regex::Regex::new` did not take a pattern.
#[verifier::external_type_specification]
#[verifier::external_body]
pub struct ExRegexError(regex::Error);

/// Whether `regex::Regex::new` accepts `pattern`.
pub uninterp spec fn regex_compiles(pattern: Seq<char>) -> bool;

/// What `regex::Regex::captures` finds in `text` for `pattern`: nothing
/// where the pattern matches nowhere in the text; else, for the leftmost
/// match, the text of each of the `names` groups, or nothing for a group
/// that has no part in the match.
pub uninterp spec fn regex_captures(
    pattern: Seq<char>,
    text: Seq<char>,
    names: Seq<Seq<char>>,
) -> Option<Seq<Option<Seq<char>>>>;

/// The texts of the groups that a search found.
pub open spec fn group_texts(found: Option<Vec<Option<String>>>) -> Option<Seq<Option<Seq<char>>>> {
    match found {
        None => None,
        Some(groups) => Some(
            Seq::new(
                groups@.len(),
                |i: int|
                    match groups@[i] {
                        Some(text) => Some(text@),
                        None => None,
                    },
            ),
        ),
    }
}

/// Compiles `pattern` with `regex::Regex::new` and searches `text` with
/// `Regex::captures`; the text of each group is taken with `Captures::name`
/// and `Match::as_str`. Nothing of this is proved. The contract claims that
/// the outcome depends on the arguments alone: it is an error exactly where
/// the pattern does not compile, and else what `regex_captures` names, with
/// one entry for each of `names`.
#[verifier::external_body]
fn named_groups(pattern: &str, text: &str, names: &[&str]) -> (r: std::result::Result<
    Option<Vec<Option<String>>>,
    regex::Error,
>)
    ensures
        r is Ok <==> regex_compiles(pattern@),
        r matches Ok(found) ==> group_texts(found) == regex_captures(
            pattern@,
            text@,
            Seq::new(names@.len(), |i: int| names@[i]@),
        ),
        r matches Ok(Some(groups)) ==> groups@.len() == names@.len(),
{
    let re = regex::Regex::new(pattern)?;
    Ok(
        re.captures(text).map(
            |caps|
                names.iter().map(
                    |name| caps.name(name).map(|m| m.as_str().to_string()),
                ).collect(),
        ),
    )
}

/// What a line is to the parser.
pub open spec fn parsed_line(line: Seq<char>) -> Parsed {
    let code = code_of(line);
    if code.len() == 0 {
        Parsed::Blank
    } else if code[0] == '@' {
        a_instruction(code.skip(1))
    } else if code[0] == '(' {
        label_definition(code)
    } else if !regex_compiles(C_INSTRUCTION@) {
        Parsed::Fail(Fault::InvalidSyntax(code))
    } else {
        match regex_captures(C_INSTRUCTION@, code, group_names()) {
            Some(groups) if groups.len() == 3 && groups[1] is Some => c_instruction(
                code,
                groups[0],
                groups[1]->0,
                groups[2],
            ),
            _ => Parsed::Fail(Fault::InvalidSyntax(code)),
        }
    }
}

/// Tests `is_digit`.
fn digit(c: char) -> (r: bool)
    ensures
        r == is_digit(c),
{
    '0' as u32 <= c as u32 && c as u32 <= '9' as u32
}

/// Tests `is_symbol_char`.
fn symbol_char(c: char) -> (r: bool)
    ensures
        r == is_symbol_char(c),
{
    let n = c as u32;
    ('a' as u32 <= n && n <= 'z' as u32) || ('A' as u32 <= n && n <= 'Z' as u32) || digit(c) || c
        == '_' || c == '.' || c == '$' || c == ':'
}

/// Tests `all_symbol_chars`.
fn symbol_chars(text: &Vec<char>) -> (r: bool)
    ensures
        r == all_symbol_chars(text@),
{
    let mut i: usize = 0;
    while i < text.len()
        invariant
            i <= text.len(),
            forall|j: int| 0 <= j < i ==> is_symbol_char(#[trigger] text@[j]),
        decreases text.len() - i,
    {
        if !symbol_char(text[i]) {
            return false;
        }
        i += 1;
    }
    true
}

/// Tests `is_number`.
fn number(text: &Vec<char>) -> (r: bool)
    ensures
        r == is_number(text@),
{
    if text.len() == 0 {
        return false;
    }
    let mut i: usize = 0;
    while i < text.len()
        invariant
            i <= text.len(),
            forall|j: int| 0 <= j < i ==> is_digit(#[trigger] text@[j]),
        decreases text.len() - i,
    {
        if !digit(text[i]) {
            return false;
        }
        i += 1;
    }
    true
}

/// The number that the digits spell, if an A-instruction can hold it.
fn number_of(text: &Vec<char>) -> (r: Option<u16>)
    requires
        is_number(text@),
    ensures
        r == if decimal(text@) <= LARGEST_NUMBER {
            Some(decimal(text@) as u16)
        } else {
            None
        },
{
    let mut value: u32 = 0;
    let mut fits = true;
    let mut i: usize = 0;
    proof {
        assert(text@.take(0) =~= Seq::<char>::empty());
    }
    while i < text.len()
        invariant
            i <= text.len(),
            is_number(text@),
            fits ==> value == decimal(text@.take(i as int)) && value <= LARGEST_NUMBER,
            !fits ==> decimal(text@.take(i as int)) > LARGEST_NUMBER,
        decreases text.len() - i,
    {
        proof {
            assert(text@.take(i as int + 1).drop_last() =~= text@.take(i as int));
            assert(is_digit(text@[i as int]));
        }
        if fits {
            value = 10 * value + (text[i] as u32 - '0' as u32);
            if value > LARGEST_NUMBER as u32 {
                fits = false;
            }
        }
        i += 1;
    }
    proof {
        assert(text@.take(i as int) =~= text@);
    }
    if fits {
        Some(value as u16)
    } else {
        None
    }
}

/// The line up to its comment.
fn cut_comment(line: &Vec<char>) -> (r: Vec<char>)
    ensures
        r@ == line@.take(comment_start(line@)),
{
    let n = line.len();
    let mut i: usize = 0;
    proof {
        assert(line@.skip(0) =~= line@);
    }
    while n - i >= 2 && !(line[i] == '/' && line[i + 1] == '/')
        invariant
            i <= n == line.len(),
            comment_start(line@) == i + comment_start(line@.skip(i as int)),
        decreases n - i,
    {
        proof {
            assert(line@.skip(i as int).drop_first() =~= line@.skip(i as int + 1));
        }
        i += 1;
    }
    let end = if n - i >= 2 {
        i
    } else {
        proof {
            if i < n {
                assert(line@.skip(i as int).drop_first() =~= line@.skip(i as int + 1));
            }
        }
        n
    };
    proof {
        assert(line@.subrange(0, end as int) =~= line@.take(end as int));
    }
    slice_of(line, 0, end)
}

/// The first word of `text`.
fn leading_word(text: &Vec<char>) -> (r: Option<Vec<char>>)
    ensures
        match r {
            Some(word) => first_word(text@) == Some(word@) && word@.len() > 0,
            None => first_word(text@) is None,
        },
{
    let n = text.len();
    let mut from: usize = 0;
    while from < n && space(text[from])
        invariant
            from <= n == text.len(),
            forall|i: int| 0 <= i < from ==> is_space(#[trigger] text@[i]),
        decreases n - from,
    {
        from += 1;
    }
    proof {
        crate::text::lemma_leading_spaces(text@, from as int);
    }
    if from == n {
        return None;
    }
    let ghost rest = text@.skip(from as int);
    let mut to: usize = from;
    proof {
        assert(rest.skip(0) =~= rest);
    }
    while to < n && !space(text[to])
        invariant
            from <= to <= n == text.len(),
            from < n,
            !is_space(text@[from as int]),
            rest == text@.skip(from as int),
            word_length(rest) == (to - from) + word_length(rest.skip(to - from)),
        decreases n - to,
    {
        proof {
            assert(rest.skip(to - from).drop_first() =~= rest.skip(to - from + 1));
        }
        to += 1;
    }
    proof {
        assert(rest.take(to - from) =~= text@.subrange(from as int, to as int));
    }
    Some(slice_of(text, from, to))
}

/// `text` without any white space.
fn squeeze(text: &Vec<char>) -> (r: Vec<char>)
    ensures
        r@ == squeezed(text@),
{
    let mut r: Vec<char> = Vec::new();
    let mut i: usize = 0;
    proof {
        assert(text@.take(0) =~= Seq::<char>::empty());
    }
    while i < text.len()
        invariant
            i <= text.len(),
            r@ == squeezed(text@.take(i as int)),
        decreases text.len() - i,
    {
        proof {
            assert(text@.take(i as int + 1).drop_last() =~= text@.take(i as int));
        }
        if !space(text[i]) {
            r.push(text[i]);
        }
        i += 1;
    }
    proof {
        assert(text@.take(i as int) =~= text@);
    }
    r
}

/// Whether `c` stands in `text`.
fn holds(text: &Vec<char>, c: char) -> (r: bool)
    ensures
        r == text@.contains(c),
{
    let mut i: usize = 0;
    while i < text.len()
        invariant
            i <= text.len(),
            forall|j: int| 0 <= j < i ==> text@[j] != c,
        decreases text.len() - i,
    {
        if text[i] == c {
            return true;
        }
        i += 1;
    }
    false
}

/// The computation that `text` names.
pub fn comp_from_text(text: &Vec<char>) -> (r: Option<Comp>)
    ensures
        r == comp_of_text(text@),
{
    if spells(text, "0") {
        Some(Comp::Zero)
    } else if spells(text, "1") {
        Some(Comp::One)
    } else if spells(text, "-1") {
        Some(Comp::MinusOne)
    } else if spells(text, "D") {
        Some(Comp::D)
    } else if spells(text, "A") {
        Some(Comp::A)
    } else if spells(text, "M") {
        Some(Comp::M)
    } else if spells(text, "!D") {
        Some(Comp::NotD)
    } else if spells(text, "!A") {
        Some(Comp::NotA)
    } else if spells(text, "!M") {
        Some(Comp::NotM)
    } else if spells(text, "-D") {
        Some(Comp::MinusD)
    } else if spells(text, "-A") {
        Some(Comp::MinusA)
    } else if spells(text, "-M") {
        Some(Comp::MinusM)
    } else if spells(text, "D+1") || spells(text, "1+D") {
        Some(Comp::DPlusOne)
    } else if spells(text, "A+1") || spells(text, "1+A") {
        Some(Comp::APlusOne)
    } else if spells(text, "M+1") || spells(text, "1+M") {
        Some(Comp::MPlusOne)
    } else if spells(text, "D-1") {
        Some(Comp::DMinusOne)
    } else if spells(text, "A-1") {
        Some(Comp::AMinusOne)
    } else if spells(text, "M-1") {
        Some(Comp::MMinusOne)
    } else if spells(text, "D+A") || spells(text, "A+D") {
        Some(Comp::DPlusA)
    } else if spells(text, "D+M") || spells(text, "M+D") {
        Some(Comp::DPlusM)
    } else if spells(text, "D-A") {
        Some(Comp::DMinusA)
    } else if spells(text, "A-D") {
        Some(Comp::AMinusD)
    } else if spells(text, "D-M") {
        Some(Comp::DMinusM)
    } else if spells(text, "M-D") {
        Some(Comp::MMinusD)
    } else if spells(text, "D&A") || spells(text, "A&D") {
        Some(Comp::DAndA)
    } else if spells(text, "D&M") || spells(text, "M&D") {
        Some(Comp::DAndM)
    } else if spells(text, "D|A") || spells(text, "A|D") {
        Some(Comp::DOrA)
    } else if spells(text, "D|M") || spells(text, "M|D") {
        Some(Comp::DOrM)
    } else {
        None
    }
}

/// The destinations that `text` names.
pub fn dest_from_text(text: &Vec<char>) -> (r: Option<Dest>)
    ensures
        r == dest_of_text(text@),
{
    let m = holds(text, 'M');
    let d = holds(text, 'D');
    let a = holds(text, 'A');
    if m && d && a {
        Some(Dest::ADM)
    } else if m && d {
        Some(Dest::DM)
    } else if m && a {
        Some(Dest::AM)
    } else if d && a {
        Some(Dest::AD)
    } else if m {
        Some(Dest::M)
    } else if d {
        Some(Dest::D)
    } else if a {
        Some(Dest::A)
    } else {
        None
    }
}

/// The jump that `text` names.
pub fn jump_from_text(text: &Vec<char>) -> (r: Option<Jump>)
    ensures
        r == jump_of_text(text@),
{
    if spells(text, "JGT") {
        Some(Jump::JGT)
    } else if spells(text, "JEQ") {
        Some(Jump::JEQ)
    } else if spells(text, "JGE") {
        Some(Jump::JGE)
    } else if spells(text, "JLT") {
        Some(Jump::JLT)
    } else if spells(text, "JNE") {
        Some(Jump::JNE)
    } else if spells(text, "JLE") {
        Some(Jump::JLE)
    } else if spells(text, "JMP") {
        Some(Jump::JMP)
    } else {
        None
    }
}

/// One line, parsed.
pub enum ParsedLine {
    Blank,
    Label(String),
    Instruction(SymbolInstruction),
    Fail(ParseError),
}

impl View for ParsedLine {
    type V = Parsed;

    open spec fn view(&self) -> Parsed {
        match self {
            ParsedLine::Blank => Parsed::Blank,
            ParsedLine::Label(name) => Parsed::Label(name@),
            ParsedLine::Instruction(instruction) => Parsed::Instruction(instruction@),
            ParsedLine::Fail(error) => Parsed::Fail(error@),
        }
    }
}

/// The text of a group, if the group is there.
pub open spec fn text_of_group(group: Option<String>) -> Option<Seq<char>> {
    match group {
        Some(text) => Some(text@),
        None => None,
    }
}

/// Makes a C-instruction of the three parts of the line `code`.
pub fn instruction_from_parts(
    code: &str,
    dest: &Option<String>,
    comp: &str,
    jump: &Option<String>,
) -> (r: ParsedLine)
    ensures
        r@ == c_instruction(code@, text_of_group(*dest), comp@, text_of_group(*jump)),
{
    let dest = match dest {
        Some(text) => match dest_from_text(&chars_of(text.as_str())) {
            Some(dest) => Some(dest),
            None => {
                return ParsedLine::Fail(ParseError::InvalidSyntax(code.to_owned()));
            },
        },
        None => None,
    };
    let text = squeeze(&chars_of(comp));
    let comp = match comp_from_text(&text) {
        Some(comp) => comp,
        None => {
            let unknown = text_of(&text, 0, text.len());
            assert(unknown@ =~= text@);
            return ParsedLine::Fail(ParseError::UnknownComp(unknown));
        },
    };
    let jump = match jump {
        Some(text) => match jump_from_text(&chars_of(text.as_str())) {
            Some(jump) => Some(jump),
            None => {
                return ParsedLine::Fail(ParseError::InvalidSyntax(code.to_owned()));
            },
        },
        None => None,
    };
    ParsedLine::Instruction(SymbolInstruction::C { comp, dest, jump })
}

/// Parses what stands behind `@`.
fn parse_a_instruction(rest: &Vec<char>) -> (r: ParsedLine)
    ensures
        r@ == a_instruction(rest@),
{
    match leading_word(rest) {
        None => {
            let text = text_of(rest, 0, rest.len());
            assert(text@ =~= rest@);
            ParsedLine::Fail(ParseError::InvalidSyntax(text))
        },
        Some(value) => {
            let text = text_of(&value, 0, value.len());
            assert(text@ =~= value@);
            if !symbol_chars(&value) {
                ParsedLine::Fail(ParseError::InvalidSymbol(text))
            } else if number(&value) {
                match number_of(&value) {
                    Some(value) => ParsedLine::Instruction(SymbolInstruction::AImmediate { value }),
                    None => ParsedLine::Fail(ParseError::TooLargeNumber(text)),
                }
            } else if digit(value[0]) {
                ParsedLine::Fail(ParseError::InvalidSymbol(text))
            } else {
                ParsedLine::Instruction(SymbolInstruction::ASymbol { symbol: text })
            }
        },
    }
}

/// Parses a line that begins with `(`.
fn parse_label(code: &Vec<char>) -> (r: ParsedLine)
    requires
        code@.len() > 0,
    ensures
        r@ == label_definition(code@),
{
    let n = code.len();
    if n >= 2 && code[n - 1] == ')' {
        let label = trim(&slice_of(code, 1, n - 1));
        let text = text_of(&label, 0, label.len());
        assert(text@ =~= label@);
        if symbol_chars(&label) && !(label.len() > 0 && digit(label[0])) {
            ParsedLine::Label(text)
        } else {
            ParsedLine::Fail(ParseError::InvalidSymbol(text))
        }
    } else {
        let text = text_of(code, 0, n);
        assert(text@ =~= code@);
        ParsedLine::Fail(ParseError::InvalidSyntax(text))
    }
}

/// Parses one line.
pub fn parse_line(line: &str) -> (r: ParsedLine)
    ensures
        r@ == parsed_line(line@),
{
    let code = cut_comment(&trim(&chars_of(line)));
    if code.len() == 0 {
        return ParsedLine::Blank;
    }
    if code[0] == '@' {
        let rest = slice_of(&code, 1, code.len());
        assert(rest@ =~= code@.skip(1));
        return parse_a_instruction(&rest);
    }
    if code[0] == '(' {
        return parse_label(&code);
    }
    let text = text_of(&code, 0, code.len());
    assert(text@ =~= code@);
    let names = ["dest", "comp", "jump"];
    assert(Seq::new(names@.len(), |i: int| names@[i]@) =~= group_names());
    match named_groups(C_INSTRUCTION, text.as_str(), &names) {
        Ok(Some(groups)) => {
            match &groups[1] {
                Some(comp) => instruction_from_parts(
                    text.as_str(),
                    &groups[0],
                    comp.as_str(),
                    &groups[2],
                ),
                None => ParsedLine::Fail(ParseError::InvalidSyntax(text)),
            }
        },
        _ => ParsedLine::Fail(ParseError::InvalidSyntax(text)),
    }
}

/// The statements that were parsed so far, before those that follow.
pub open spec fn after(
    done: Seq<Statement>,
    rest: (std::result::Result<Seq<Statement>, Fault>, Bindings),
) -> (std::result::Result<Seq<Statement>, Fault>, Bindings) {
    (
        match rest.0 {
            Ok(statements) => Ok(done + statements),
            Err(fault) => Err(fault),
        },
        rest.1,
    )
}

/// The table after a statement: a name that an A-instruction uses and
/// nothing binds becomes a variable.
pub open spec fn noted(table: Bindings, statement: Statement) -> Bindings {
    match statement {
        Statement::ASymbol { symbol } => table.with_variable(symbol),
        _ => table,
    }
}

/// The meaning of a program: its statements, or the first error, and the
/// symbol table after them. `count` is the number of the instructions before
/// these lines, which is the address that a label on the next line gets. A
/// label whose name is predefined or a label already is an error, and binds
/// nothing. Lines behind an error are not looked at.
pub open spec fn assembled(lines: Seq<Seq<char>>, table: Bindings, count: u16) -> (
    std::result::Result<Seq<Statement>, Fault>,
    Bindings,
)
    decreases lines.len(),
{
    if lines.len() == 0 {
        (Ok(Seq::empty()), table)
    } else {
        match parsed_line(lines[0]) {
            Parsed::Blank => assembled(lines.drop_first(), table, count),
            Parsed::Label(name) => if table.fixed.contains(name) {
                (Err(Fault::RedefinedLabel(name)), table)
            } else {
                assembled(lines.drop_first(), table.with_label(name, count), count)
            },
            Parsed::Instruction(statement) => after(
                seq![statement],
                assembled(lines.drop_first(), noted(table, statement), (count + 1) as u16),
            ),
            Parsed::Fail(fault) => (Err(fault), table),
        }
    }
}

/// Parses a program. Labels and variables are entered in `symbols` as the
/// lines are read; the instructions come back with their symbols unresolved.
pub fn parse(lines: &[&str], symbols: &mut SymbolTable) -> (r: Result<Vec<SymbolInstruction>>)
    requires
        old(symbols)@.next_address + lines@.len() <= u16::MAX,
    ensures
        final(symbols)@ == assembled(line_texts(lines@), old(symbols)@, 0).1,
        match r {
            Ok(instructions) => assembled(line_texts(lines@), old(symbols)@, 0).0 == Ok::<
                Seq<Statement>,
                Fault,
            >(statements(instructions@)),
            Err(error) => assembled(line_texts(lines@), old(symbols)@, 0).0 == Err::<
                Seq<Statement>,
                Fault,
            >(error@),
        },
{
    let ghost all = line_texts(lines@);
    let ghost whole = assembled(all, old(symbols)@, 0);
    let mut done: Vec<SymbolInstruction> = Vec::new();
    let mut line_number: u16 = 0;
    let mut i: usize = 0;
    proof {
        assert(all.skip(0) =~= all);
        assert(statements(done@) + assembled(all, symbols@, 0).0->Ok_0 =~= assembled(
            all,
            symbols@,
            0,
        ).0->Ok_0) by {
            assert(statements(done@) =~= Seq::<Statement>::empty());
        }
    }
    while i < lines.len()
        invariant
            i <= lines@.len(),
            all == line_texts(lines@),
            line_number <= i,
            symbols@.next_address + (lines@.len() - i) <= u16::MAX,
            lines@.len() <= u16::MAX,
            whole == assembled(all, old(symbols)@, 0),
            whole == after(statements(done@), assembled(all.skip(i as int), symbols@, line_number)),
        decreases lines@.len() - i,
    {
        let ghost before = statements(done@);
        let ghost table = symbols@;
        proof {
            assert(all.skip(i as int).drop_first() =~= all.skip(i as int + 1));
            assert(all.skip(i as int)[0] == lines@[i as int]@);
        }
        match parse_line(lines[i]) {
            ParsedLine::Blank => {},
            ParsedLine::Label(name) => {
                if symbols.insert_label(name.as_str(), line_number).is_err() {
                    return Err(ParseError::RedefinedLabel(name));
                }
            },
            ParsedLine::Instruction(instruction) => {
                match &instruction {
                    SymbolInstruction::ASymbol { symbol } => {
                        symbols.insert_variable(symbol.as_str());
                    },
                    _ => {},
                }
                let ghost statement = instruction@;
                done.push(instruction);
                proof {
                    assert(statements(done@) =~= before.push(statement));
                    let rest = assembled(
                        all.skip(i as int + 1),
                        noted(table, statement),
                        (line_number + 1) as u16,
                    );
                    if rest.0 is Ok {
                        assert(before + (seq![statement] + rest.0->Ok_0) =~= before.push(statement)
                            + rest.0->Ok_0);
                    }
                }
                line_number += 1;
            },
            ParsedLine::Fail(error) => {
                return Err(error);
            },
        }
        i += 1;
    }
    proof {
        assert(all.skip(i as int).len() == 0);
        assert(statements(done@) + Seq::<Statement>::empty() =~= statements(done@));
    }
    Ok(done)
}

/// A computation, written out, reads as itself.
pub proof fn lemma_comp_reads_back(comp: Comp)
    ensures
        comp_of_text(comp_text(comp)) == Some(comp),
        squeezed(comp_text(comp)) == comp_text(comp),
{
    reveal_strlit("0");
    assert("0"@[0] == '0');
    reveal_strlit("1");
    assert("1"@[0] == '1');
    reveal_strlit("-1");
    assert("-1"@[0] == '-' && "-1"@[1] == '1');
    reveal_strlit("D");
    assert("D"@[0] == 'D');
    reveal_strlit("A");
    assert("A"@[0] == 'A');
    reveal_strlit("M");
    assert("M"@[0] == 'M');
    reveal_strlit("!D");
    assert("!D"@[0] == '!' && "!D"@[1] == 'D');
    reveal_strlit("!A");
    assert("!A"@[0] == '!' && "!A"@[1] == 'A');
    reveal_strlit("!M");
    assert("!M"@[0] == '!' && "!M"@[1] == 'M');
    reveal_strlit("-D");
    assert("-D"@[0] == '-' && "-D"@[1] == 'D');
    reveal_strlit("-A");
    assert("-A"@[0] == '-' && "-A"@[1] == 'A');
    reveal_strlit("-M");
    assert("-M"@[0] == '-' && "-M"@[1] == 'M');
    reveal_strlit("D+1");
    assert("D+1"@[0] == 'D' && "D+1"@[1] == '+' && "D+1"@[2] == '1');
    reveal_strlit("1+D");
    assert("1+D"@[0] == '1' && "1+D"@[1] == '+' && "1+D"@[2] == 'D');
    reveal_strlit("A+1");
    assert("A+1"@[0] == 'A' && "A+1"@[1] == '+' && "A+1"@[2] == '1');
    reveal_strlit("1+A");
    assert("1+A"@[0] == '1' && "1+A"@[1] == '+' && "1+A"@[2] == 'A');
    reveal_strlit("M+1");
    assert("M+1"@[0] == 'M' && "M+1"@[1] == '+' && "M+1"@[2] == '1');
    reveal_strlit("1+M");
    assert("1+M"@[0] == '1' && "1+M"@[1] == '+' && "1+M"@[2] == 'M');
    reveal_strlit("D-1");
    assert("D-1"@[0] == 'D' && "D-1"@[1] == '-' && "D-1"@[2] == '1');
    reveal_strlit("A-1");
    assert("A-1"@[0] == 'A' && "A-1"@[1] == '-' && "A-1"@[2] == '1');
    reveal_strlit("M-1");
    assert("M-1"@[0] == 'M' && "M-1"@[1] == '-' && "M-1"@[2] == '1');
    reveal_strlit("D+A");
    assert("D+A"@[0] == 'D' && "D+A"@[1] == '+' && "D+A"@[2] == 'A');
    reveal_strlit("A+D");
    assert("A+D"@[0] == 'A' && "A+D"@[1] == '+' && "A+D"@[2] == 'D');
    reveal_strlit("D+M");
    assert("D+M"@[0] == 'D' && "D+M"@[1] == '+' && "D+M"@[2] == 'M');
    reveal_strlit("M+D");
    assert("M+D"@[0] == 'M' && "M+D"@[1] == '+' && "M+D"@[2] == 'D');
    reveal_strlit("D-A");
    assert("D-A"@[0] == 'D' && "D-A"@[1] == '-' && "D-A"@[2] == 'A');
    reveal_strlit("A-D");
    assert("A-D"@[0] == 'A' && "A-D"@[1] == '-' && "A-D"@[2] == 'D');
    reveal_strlit("D-M");
    assert("D-M"@[0] == 'D' && "D-M"@[1] == '-' && "D-M"@[2] == 'M');
    reveal_strlit("M-D");
    assert("M-D"@[0] == 'M' && "M-D"@[1] == '-' && "M-D"@[2] == 'D');
    reveal_strlit("D&A");
    assert("D&A"@[0] == 'D' && "D&A"@[1] == '&' && "D&A"@[2] == 'A');
    reveal_strlit("A&D");
    assert("A&D"@[0] == 'A' && "A&D"@[1] == '&' && "A&D"@[2] == 'D');
    reveal_strlit("D&M");
    assert("D&M"@[0] == 'D' && "D&M"@[1] == '&' && "D&M"@[2] == 'M');
    reveal_strlit("M&D");
    assert("M&D"@[0] == 'M' && "M&D"@[1] == '&' && "M&D"@[2] == 'D');
    reveal_strlit("D|A");
    assert("D|A"@[0] == 'D' && "D|A"@[1] == '|' && "D|A"@[2] == 'A');
    reveal_strlit("A|D");
    assert("A|D"@[0] == 'A' && "A|D"@[1] == '|' && "A|D"@[2] == 'D');
    reveal_strlit("D|M");
    assert("D|M"@[0] == 'D' && "D|M"@[1] == '|' && "D|M"@[2] == 'M');
    reveal_strlit("M|D");
    assert("M|D"@[0] == 'M' && "M|D"@[1] == '|' && "M|D"@[2] == 'D');
    let text = comp_text(comp);
    assert(forall|i: int| 0 <= i < text.len() ==> !is_space(#[trigger] text[i]));
    lemma_squeezed_without_spaces(text);
}

/// Text that holds no white space stays as it is when it is squeezed.
pub proof fn lemma_squeezed_without_spaces(text: Seq<char>)
    requires
        forall|i: int| 0 <= i < text.len() ==> !is_space(#[trigger] text[i]),
    ensures
        squeezed(text) == text,
    decreases text.len(),
{
    if text.len() > 0 {
        lemma_squeezed_without_spaces(text.drop_last());
        assert(text.drop_last().push(text.last()) =~= text);
    }
}

/// Destinations, written out, read as themselves.
pub proof fn lemma_dest_reads_back(dest: Dest)
    ensures
        dest_of_text(dest_text(dest)) == Some(dest),
{
    reveal_strlit("M");
    reveal_strlit("D");
    reveal_strlit("DM");
    reveal_strlit("A");
    reveal_strlit("AM");
    reveal_strlit("AD");
    reveal_strlit("ADM");
    let text = dest_text(dest);
    assert(text.contains('M') <==> (dest == Dest::M || dest == Dest::DM || dest == Dest::AM
        || dest == Dest::ADM)) by {
        if text.contains('M') {
            let i = choose|i: int| 0 <= i < text.len() && text[i] == 'M';
        }
        if dest == Dest::M {
            assert(text[0] == 'M');
        } else if dest == Dest::DM {
            assert(text[1] == 'M');
        } else if dest == Dest::AM {
            assert(text[1] == 'M');
        } else if dest == Dest::ADM {
            assert(text[2] == 'M');
        }
    }
    assert(text.contains('D') <==> (dest == Dest::D || dest == Dest::DM || dest == Dest::AD
        || dest == Dest::ADM)) by {
        if text.contains('D') {
            let i = choose|i: int| 0 <= i < text.len() && text[i] == 'D';
        }
        if dest == Dest::D {
            assert(text[0] == 'D');
        } else if dest == Dest::DM {
            assert(text[0] == 'D');
        } else if dest == Dest::AD {
            assert(text[1] == 'D');
        } else if dest == Dest::ADM {
            assert(text[1] == 'D');
        }
    }
    assert(text.contains('A') <==> (dest == Dest::A || dest == Dest::AM || dest == Dest::AD
        || dest == Dest::ADM)) by {
        if text.contains('A') {
            let i = choose|i: int| 0 <= i < text.len() && text[i] == 'A';
        }
        if dest == Dest::A || dest == Dest::AM || dest == Dest::AD || dest == Dest::ADM {
            assert(text[0] == 'A');
        }
    }
}

/// A jump, written out, reads as itself.
pub proof fn lemma_jump_reads_back(jump: Jump)
    ensures
        jump_of_text(jump_text(jump)) == Some(jump),
{
    reveal_strlit("JGT");
    assert("JGT"@[0] == 'J' && "JGT"@[1] == 'G' && "JGT"@[2] == 'T');
    reveal_strlit("JEQ");
    assert("JEQ"@[0] == 'J' && "JEQ"@[1] == 'E' && "JEQ"@[2] == 'Q');
    reveal_strlit("JGE");
    assert("JGE"@[0] == 'J' && "JGE"@[1] == 'G' && "JGE"@[2] == 'E');
    reveal_strlit("JLT");
    assert("JLT"@[0] == 'J' && "JLT"@[1] == 'L' && "JLT"@[2] == 'T');
    reveal_strlit("JNE");
    assert("JNE"@[0] == 'J' && "JNE"@[1] == 'N' && "JNE"@[2] == 'E');
    reveal_strlit("JLE");
    assert("JLE"@[0] == 'J' && "JLE"@[1] == 'L' && "JLE"@[2] == 'E');
    reveal_strlit("JMP");
    assert("JMP"@[0] == 'J' && "JMP"@[1] == 'M' && "JMP"@[2] == 'P');
}

/// The three parts of a C-instruction, written out, make the instruction again.
pub proof fn lemma_parts_read_back(
    code: Seq<char>,
    comp: Comp,
    dest: Option<Dest>,
    jump: Option<Jump>,
)
    ensures
        c_instruction(
            code,
            match dest {
                Some(dest) => Some(dest_text(dest)),
                None => None,
            },
            comp_text(comp),
            match jump {
                Some(jump) => Some(jump_text(jump)),
                None => None,
            },
        ) == Parsed::Instruction(Statement::C { comp, dest, jump }),
{
    lemma_comp_reads_back(comp);
    if let Some(dest) = dest {
        lemma_dest_reads_back(dest);
    }
    if let Some(jump) = jump {
        lemma_jump_reads_back(jump);
    }
}

/// The character of one decimal digit.
pub open spec fn digit_char(d: nat) -> char {
    ('0' as u8 + d) as u8 as char
}

/// How a number is written: in decimal, without leading zeros.
pub open spec fn digits(n: nat) -> Seq<char>
    decreases n,
{
    if n < 10 {
        seq![digit_char(n)]
    } else {
        digits(n / 10).push(digit_char(n % 10))
    }
}

/// Whether `text` can be the name of a symbol: it is not empty, holds only
/// characters that a name may hold, and does not begin with a digit.
pub open spec fn is_name(text: Seq<char>) -> bool {
    &&& text.len() > 0
    &&& all_symbol_chars(text)
    &&& !is_digit(text[0])
}

/// How a statement is written on one line, without white space.
pub open spec fn written(statement: Statement) -> Seq<char> {
    match statement {
        Statement::AImmediate { value } => seq!['@'] + digits(value as nat),
        Statement::ASymbol { symbol } => seq!['@'] + symbol,
        Statement::C { comp, dest, jump } => (match dest {
            Some(dest) => dest_text(dest) + seq!['='],
            None => Seq::empty(),
        }) + comp_text(comp) + (match jump {
            Some(jump) => seq![';'] + jump_text(jump),
            None => Seq::empty(),
        }),
    }
}

/// The three parts that a written C-instruction is made of.
pub open spec fn parts_of(dest: Option<Dest>, comp: Comp, jump: Option<Jump>) -> Seq<
    Option<Seq<char>>,
> {
    seq![
        match dest {
            Some(dest) => Some(dest_text(dest)),
            None => None,
        },
        Some(comp_text(comp)),
        match jump {
            Some(jump) => Some(jump_text(jump)),
            None => None,
        },
    ]
}

/// A number, written out, is made of digits that spell it.
pub proof fn lemma_digits_read_back(n: nat)
    ensures
        is_number(digits(n)),
        decimal(digits(n)) == n,
    decreases n,
{
    let last = digit_char(n % 10);
    assert(last as u32 - '0' as u32 == n % 10);
    assert(is_digit(last));
    if n >= 10 {
        lemma_digits_read_back(n / 10);
        assert(digits(n).drop_last() =~= digits(n / 10));
        assert(digits(n).last() == last);
    } else {
        assert(digits(n).drop_last() =~= Seq::<char>::empty());
        assert(digits(n).last() == last);
        assert(decimal(Seq::<char>::empty()) == 0);
    }
}

/// Text without white space at its ends is trimmed already.
pub proof fn lemma_trimmed_already(text: Seq<char>)
    requires
        text.len() > 0,
        !is_space(text[0]),
        !is_space(text.last()),
    ensures
        trimmed(text) == text,
{
    assert(text.skip(0) =~= text);
    assert(text.take(text.len() as int) =~= text);
}

/// A line without a slash has no comment.
pub proof fn lemma_no_comment(line: Seq<char>)
    requires
        forall|i: int| 0 <= i < line.len() ==> #[trigger] line[i] != '/',
    ensures
        comment_start(line) == line.len(),
    decreases line.len(),
{
    if line.len() >= 2 {
        assert(line[0] != '/');
        lemma_no_comment(line.drop_first());
    }
}

/// Text without white space is one word.
pub proof fn lemma_one_word(text: Seq<char>)
    requires
        text.len() > 0,
        forall|i: int| 0 <= i < text.len() ==> !is_space(#[trigger] text[i]),
    ensures
        first_word(text) == Some(text),
{
    assert(!is_space(text[0]));
    assert(text.skip(0) =~= text);
    lemma_word_length(text);
    assert(text.take(text.len() as int) =~= text);
}

/// Text without white space is as long as its first word.
proof fn lemma_word_length(text: Seq<char>)
    requires
        forall|i: int| 0 <= i < text.len() ==> !is_space(#[trigger] text[i]),
    ensures
        word_length(text) == text.len(),
    decreases text.len(),
{
    if text.len() > 0 {
        assert(!is_space(text[0]));
        lemma_word_length(text.drop_first());
    }
}

/// No character that a name may hold is white space or a slash.
proof fn lemma_symbol_chars_are_plain(text: Seq<char>)
    requires
        all_symbol_chars(text),
    ensures
        forall|i: int| 0 <= i < text.len() ==> !is_space(#[trigger] text[i]) && text[i] != '/',
{
    assert forall|i: int| 0 <= i < text.len() implies !is_space(#[trigger] text[i]) && text[i]
        != '/' by {
        assert(is_symbol_char(text[i]));
    }
}

/// An A-instruction, written out, reads back as itself.
pub proof fn lemma_a_instruction_reads_back(statement: Statement)
    requires
        match statement {
            Statement::AImmediate { value } => value <= LARGEST_NUMBER,
            Statement::ASymbol { symbol } => is_name(symbol),
            Statement::C { .. } => false,
        },
    ensures
        parsed_line(written(statement)) == Parsed::Instruction(statement),
{
    let line = written(statement);
    let word = match statement {
        Statement::AImmediate { value } => digits(value as nat),
        Statement::ASymbol { symbol } => symbol,
        Statement::C { .. } => Seq::empty(),
    };
    if let Statement::AImmediate { value } = statement {
        lemma_digits_read_back(value as nat);
        assert forall|i: int| 0 <= i < word.len() implies is_symbol_char(#[trigger] word[i]) by {
            assert(is_digit(word[i]));
        }
    }
    lemma_symbol_chars_are_plain(word);
    assert(line.skip(1) =~= word);
    assert forall|i: int| 0 <= i < line.len() implies !is_space(#[trigger] line[i]) && line[i]
        != '/' by {
        if i > 0 {
            assert(line[i] == word[i - 1]);
        }
    }
    lemma_trimmed_already(line);
    lemma_no_comment(line);
    assert(line.take(line.len() as int) =~= line);
    lemma_one_word(word);
}

/// A C-instruction, written out, reads back as itself, provided that the
/// pattern compiles and the search finds in the line the three parts that
/// it was written from.
pub proof fn lemma_c_instruction_reads_back(comp: Comp, dest: Option<Dest>, jump: Option<Jump>)
    ensures
        regex_compiles(C_INSTRUCTION@) && regex_captures(
            C_INSTRUCTION@,
            written(Statement::C { comp, dest, jump }),
            group_names(),
        ) == Some(parts_of(dest, comp, jump)) ==> parsed_line(
            written(Statement::C { comp, dest, jump }),
        ) == Parsed::Instruction(Statement::C { comp, dest, jump }),
{
    let line = written(Statement::C { comp, dest, jump });
    lemma_written_c_instruction(comp, dest, jump);
    lemma_trimmed_already(line);
    lemma_no_comment(line);
    assert(line.take(line.len() as int) =~= line);
    lemma_parts_read_back(line, comp, dest, jump);
}

/// A written C-instruction holds no white space and no slash, and begins
/// neither with `@` nor with `(`.
proof fn lemma_written_c_instruction(comp: Comp, dest: Option<Dest>, jump: Option<Jump>)
    ensures
        ({
            let line = written(Statement::C { comp, dest, jump });
            &&& line.len() > 0
            &&& line[0] != '@'
            &&& line[0] != '('
            &&& forall|i: int|
                0 <= i < line.len() ==> !is_space(#[trigger] line[i]) && line[i] != '/'
        }),
{
    let front = match dest {
        Some(dest) => dest_text(dest) + seq!['='],
        None => Seq::empty(),
    };
    let back = match jump {
        Some(jump) => seq![';'] + jump_text(jump),
        None => Seq::empty(),
    };
    let line = written(Statement::C { comp, dest, jump });
    assert(line == front + comp_text(comp) + back);
    lemma_plain_comp(comp);
    if let Some(dest) = dest {
        lemma_plain_dest(dest);
    }
    if let Some(jump) = jump {
        lemma_plain_jump(jump);
    }
    assert(forall|i: int| 0 <= i < front.len() ==> is_plain(#[trigger] front[i]));
    assert(forall|i: int| 0 <= i < back.len() ==> is_plain(#[trigger] back[i]));
    assert forall|i: int| 0 <= i < line.len() implies is_plain(#[trigger] line[i]) by {
        if i < front.len() {
            assert(line[i] == front[i]);
        } else if i < front.len() + comp_text(comp).len() {
            assert(line[i] == comp_text(comp)[i - front.len()]);
        } else {
            assert(line[i] == back[i - front.len() - comp_text(comp).len()]);
        }
    }
    assert(is_plain(line[0]));
}

/// Whether a character is none of those that the parser treats apart:
/// white space, the slash, `@` and `(`.
pub open spec fn is_plain(c: char) -> bool {
    !is_space(c) && c != '/' && c != '@' && c != '('
}

/// A computation is written with plain characters.
proof fn lemma_plain_comp(comp: Comp)
    ensures
        comp_text(comp).len() > 0,
        forall|i: int| 0 <= i < comp_text(comp).len() ==> is_plain(#[trigger] comp_text(comp)[i]),
{
    reveal_strlit("0");
    assert(is_plain('0'));
    reveal_strlit("1");
    assert(is_plain('1'));
    reveal_strlit("-1");
    assert(is_plain('-') && is_plain('1'));
    reveal_strlit("D");
    assert(is_plain('D'));
    reveal_strlit("A");
    assert(is_plain('A'));
    reveal_strlit("M");
    assert(is_plain('M'));
    reveal_strlit("!D");
    assert(is_plain('!') && is_plain('D'));
    reveal_strlit("!A");
    assert(is_plain('!') && is_plain('A'));
    reveal_strlit("!M");
    assert(is_plain('!') && is_plain('M'));
    reveal_strlit("-D");
    assert(is_plain('-') && is_plain('D'));
    reveal_strlit("-A");
    assert(is_plain('-') && is_plain('A'));
    reveal_strlit("-M");
    assert(is_plain('-') && is_plain('M'));
    reveal_strlit("D+1");
    assert(is_plain('D') && is_plain('+') && is_plain('1'));
    reveal_strlit("A+1");
    assert(is_plain('A') && is_plain('+') && is_plain('1'));
    reveal_strlit("M+1");
    assert(is_plain('M') && is_plain('+') && is_plain('1'));
    reveal_strlit("D-1");
    assert(is_plain('D') && is_plain('-') && is_plain('1'));
    reveal_strlit("A-1");
    assert(is_plain('A') && is_plain('-') && is_plain('1'));
    reveal_strlit("M-1");
    assert(is_plain('M') && is_plain('-') && is_plain('1'));
    reveal_strlit("D+A");
    assert(is_plain('D') && is_plain('+') && is_plain('A'));
    reveal_strlit("D+M");
    assert(is_plain('D') && is_plain('+') && is_plain('M'));
    reveal_strlit("D-A");
    assert(is_plain('D') && is_plain('-') && is_plain('A'));
    reveal_strlit("A-D");
    assert(is_plain('A') && is_plain('-') && is_plain('D'));
    reveal_strlit("D-M");
    assert(is_plain('D') && is_plain('-') && is_plain('M'));
    reveal_strlit("M-D");
    assert(is_plain('M') && is_plain('-') && is_plain('D'));
    reveal_strlit("D&A");
    assert(is_plain('D') && is_plain('&') && is_plain('A'));
    reveal_strlit("D&M");
    assert(is_plain('D') && is_plain('&') && is_plain('M'));
    reveal_strlit("D|A");
    assert(is_plain('D') && is_plain('|') && is_plain('A'));
    reveal_strlit("D|M");
    assert(is_plain('D') && is_plain('|') && is_plain('M'));
}

/// A destination is written with plain characters.
proof fn lemma_plain_dest(dest: Dest)
    ensures
        dest_text(dest).len() > 0,
        forall|i: int| 0 <= i < dest_text(dest).len() ==> is_plain(#[trigger] dest_text(dest)[i]),
{
    reveal_strlit("M");
    assert(is_plain('M'));
    reveal_strlit("D");
    assert(is_plain('D'));
    reveal_strlit("DM");
    assert(is_plain('D') && is_plain('M'));
    reveal_strlit("A");
    assert(is_plain('A'));
    reveal_strlit("AM");
    assert(is_plain('A') && is_plain('M'));
    reveal_strlit("AD");
    assert(is_plain('A') && is_plain('D'));
    reveal_strlit("ADM");
    assert(is_plain('A') && is_plain('D') && is_plain('M'));
}

/// A jump is written with plain characters.
proof fn lemma_plain_jump(jump: Jump)
    ensures
        jump_text(jump).len() > 0,
        forall|i: int| 0 <= i < jump_text(jump).len() ==> is_plain(#[trigger] jump_text(jump)[i]),
{
    reveal_strlit("JGT");
    assert(is_plain('J') && is_plain('G') && is_plain('T'));
    reveal_strlit("JEQ");
    assert(is_plain('J') && is_plain('E') && is_plain('Q'));
    reveal_strlit("JGE");
    assert(is_plain('J') && is_plain('G') && is_plain('E'));
    reveal_strlit("JLT");
    assert(is_plain('J') && is_plain('L') && is_plain('T'));
    reveal_strlit("JNE");
    assert(is_plain('J') && is_plain('N') && is_plain('E'));
    reveal_strlit("JLE");
    assert(is_plain('J') && is_plain('L') && is_plain('E'));
    reveal_strlit("JMP");
    assert(is_plain('J') && is_plain('M') && is_plain('P'));
}

} // verus!
