//! The instruction memory: 32768 words, read by an address of fifteen wires.

use crate::chip::mem::{address_value, lemma_weights, wires_value};
use crate::signal::{pack, Signal, Word};
use crate::text::{chars_of, line_texts};
use vstd::prelude::*;

verus! {

/// Why a program could not be loaded.
#[derive(Clone, Copy, Debug, PartialEq, Eq, Structural)]
pub enum RomError {
    /// The line with this index is not sixteen characters of `0` and `1`.
    MalformedLine(usize),
    /// There are more lines than the memory has words.
    TooManyLines,
}

/// Whether `t` is one word in binary: sixteen characters, each `0` or `1`.
pub open spec fn is_binary_word(t: Seq<char>) -> bool {
    &&& t.len() == 16
    &&& forall|i: int| 0 <= i < 16 ==> #[trigger] t[i] == '0' || t[i] == '1'
}

/// The word that a line of a program holds: the line is exactly sixteen
/// binary digits, the most significant first, or it holds no word.
pub open spec fn word_of_line(line: Seq<char>) -> Option<Word> {
    if is_binary_word(line) {
        Some(Word(pack(Seq::new(16, |i: int| line[i] == '1'))))
    } else {
        None
    }
}

/// The memory that holds the words of `lines` from address 0 on, and zeros behind them.
pub open spec fn image(lines: Seq<Seq<char>>) -> Seq<Word> {
    Seq::new(
        32768,
        |i: int|
            if i < lines.len() {
                word_of_line(lines[i]).unwrap()
            } else {
                Word(0)
            },
    )
}

pub struct Rom {
    data: [Word; 32768],
    address: usize,
}

/// Reads one line of a program.
fn parse_word(line: &str) -> (r: Option<Word>)
    ensures
        r == word_of_line(line@),
{
    let t = chars_of(line);
    if t.len() != 16 {
        return None;
    }
    let mut bits = [false; 16];
    let mut i: usize = 0;
    while i < 16
        invariant
            i <= 16,
            t.len() == 16,
            t@ == line@,
            forall|j: int| 0 <= j < i ==> #[trigger] t@[j] == '0' || t@[j] == '1',
            forall|j: int| 0 <= j < i ==> bits@[j] == (#[trigger] t@[j] == '1'),
        decreases 16 - i,
    {
        let c = t[i];
        if c != '0' && c != '1' {
            assert(!(t@[i as int] == '0' || t@[i as int] == '1'));
            return None;
        }
        bits[i] = c == '1';
        i += 1;
    }
    assert(bits@ =~= Seq::new(16, |i: int| t@[i] == '1'));
    Some(Word::from(bits))
}

impl Rom {
    #[verifier::type_invariant]
    spec fn inv(&self) -> bool {
        self.address < 32768
    }

    /// The 32768 words, by address.
    pub closed spec fn cells(&self) -> Seq<Word> {
        self.data@
    }

    /// The address that was set last.
    pub closed spec fn addr(&self) -> int {
        self.address as int
    }

    /// There are 32768 words.
    pub proof fn lemma_size(&self)
        ensures
            self.cells().len() == 32768,
    {
    }

    /// A memory of zeros, addressed at word 0.
    pub fn new() -> (r: Self)
        ensures
            r.addr() == 0,
            r.cells() == Seq::new(32768, |i: int| Word(0)),
    {
        let r = Self { data: [Word::zero(); 32768], address: 0 };
        assert(r.cells() =~= Seq::new(32768, |i: int| Word(0)));
        r
    }

    /// Loads a program: one word on each line, in binary, most significant bit
    /// first. Nothing is loaded unless every line holds a word and the
    /// program fits; else the error names the first line that holds none.
    pub fn from_binary(lines: &[&str]) -> (r: Result<Self, RomError>)
        ensures
            match r {
                Ok(rom) => {
                    &&& lines@.len() <= 32768
                    &&& forall|j: int|
                        0 <= j < lines@.len() ==> word_of_line(#[trigger] lines@[j]@) is Some
                    &&& rom.addr() == 0
                    &&& rom.cells() == image(line_texts(lines@))
                },
                Err(RomError::TooManyLines) => lines@.len() > 32768,
                Err(RomError::MalformedLine(i)) => {
                    &&& i < lines@.len() <= 32768
                    &&& word_of_line(lines@[i as int]@) is None
                    &&& forall|j: int| 0 <= j < i ==> word_of_line(#[trigger] lines@[j]@) is Some
                },
            },
    {
        if lines.len() > 32768 {
            return Err(RomError::TooManyLines);
        }
        let ghost texts = line_texts(lines@);
        let mut data = [Word::zero(); 32768];
        let mut i: usize = 0;
        while i < lines.len()
            invariant
                i <= lines@.len() <= 32768,
                texts == line_texts(lines@),
                forall|j: int| 0 <= j < i ==> word_of_line(#[trigger] lines@[j]@) is Some,
                forall|j: int|
                    0 <= j < i ==> #[trigger] data@[j] == word_of_line(lines@[j]@).unwrap(),
                forall|j: int| i <= j < 32768 ==> #[trigger] data@[j] == Word(0),
            decreases lines@.len() - i,
        {
            match parse_word(lines[i]) {
                Some(word) => {
                    data[i] = word;
                },
                None => {
                    return Err(RomError::MalformedLine(i));
                },
            }
            i += 1;
        }
        let r = Self { data, address: 0 };
        proof {
            assert(r.cells() =~= image(texts));
        }
        Ok(r)
    }

    /// Sets the address to read from.
    pub fn set_address(&mut self, address: &[bool; 15])
        ensures
            final(self).addr() == address_value(address@),
            final(self).cells() == old(self).cells(),
    {
        proof {
            lemma_weights();
        }
        self.address = wires_value(address);
    }

    /// The word at the address.
    pub fn get_output(&self) -> (r: Word)
        ensures
            0 <= self.addr() < 32768,
            r == self.cells()[self.addr()],
    {
        proof {
            use_type_invariant(self);
        }
        self.data[self.address]
    }
}

} // verus!
