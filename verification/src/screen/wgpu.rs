//! A screen that keeps, beside its memory, one level for each pixel, ready
//! to be handed to a renderer.

use crate::chip::mem::{address_value, lemma_weights, wires_value, Ram8k};
use crate::screen::Screen;
use crate::signal::{Signal, Word};
use vstd::prelude::*;

verus! {

/// The pixels after word `at` was written with `input`: the sixteen pixels of
/// a word stand side by side, the most significant bit leftmost.
pub open spec fn painted(pixels: Seq<bool>, at: int, input: Word) -> Seq<bool> {
    Seq::new(
        pixels.len(),
        |p: int|
            if at * 16 <= p < at * 16 + 16 {
                input.bit(p - at * 16)
            } else {
                pixels[p]
            },
    )
}

pub struct WgpuScreen {
    ram: Ram8k<Word>,
    colors: [bool; 131072],
}

impl WgpuScreen {
    /// The level of each of the 131072 pixels, row by row.
    pub closed spec fn pixels(&self) -> Seq<bool> {
        self.colors@
    }

    /// The level of each pixel, row by row from the top, left to right.
    pub fn colors(&self) -> (r: &[bool])
        ensures
            r@ == self.pixels(),
            r@.len() == 131072,
    {
        &self.colors
    }
}

impl Screen for WgpuScreen {
    closed spec fn cells(&self) -> Seq<Word> {
        self.ram.cells()
    }

    closed spec fn addr(&self) -> int {
        self.ram.addr()
    }

    proof fn lemma_size(&self) {
        self.ram.lemma_size();
    }

    fn new() -> (r: Self)
        ensures
            r.pixels() == Seq::new(131072, |p: int| false),
    {
        let r = Self { ram: Ram8k::new(), colors: [false; 131072] };
        assert(r.pixels() =~= Seq::new(131072, |p: int| false));
        r
    }

    fn get_output(&self) -> (r: Word) {
        self.ram.get_output()
    }

    fn tick(&mut self, address: &[bool; 13], load: bool, input: Word)
        ensures
            final(self).pixels() == if load {
                painted(old(self).pixels(), address_value(address@), input)
            } else {
                old(self).pixels()
            },
    {
        proof {
            self.ram.lemma_size();
            lemma_weights();
        }
        self.ram.tick(address, load, input);
        if load {
            let at = wires_value(address);
            let wires = input.split();
            let ghost ram = self.ram;
            let mut i: usize = 0;
            while i < 16
                invariant
                    i <= 16,
                    at < 8192,
                    self.ram == ram,
                    forall|k: int| 0 <= k < 16 ==> wires@[k] == #[trigger] input.bit(k),
                    forall|p: int|
                        0 <= p < 131072 ==> #[trigger] self.colors@[p] == if at * 16 <= p < at * 16
                            + i {
                            input.bit(p - at * 16)
                        } else {
                            old(self).colors@[p]
                        },
                decreases 16 - i,
            {
                self.colors[at * 16 + i] = wires[i];
                i += 1;
            }
            assert(final(self).pixels() =~= painted(
                old(self).pixels(),
                address_value(address@),
                input,
            ));
        }
    }
}

} // verus!
