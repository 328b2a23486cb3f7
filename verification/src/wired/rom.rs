//! The instruction memory, wire by wire.

use crate::chip::mem::{address_value, lemma_weights, wires_value};
use crate::wired::chip::mem::zeros;
use vstd::prelude::*;

verus! {

pub struct Rom {
    data: [[bool; 16]; 32768],
    address: usize,
}

impl Rom {
    #[verifier::type_invariant]
    spec fn inv(&self) -> bool {
        self.address < 32768
    }

    /// The 32768 words, by address.
    pub closed spec fn cells(&self) -> Seq<Seq<bool>> {
        Seq::new(32768, |i: int| self.data[i]@)
    }

    /// The address that was set last.
    pub closed spec fn addr(&self) -> int {
        self.address as int
    }

    /// A memory of zeros, addressed at word 0.
    pub fn new() -> (r: Self)
        ensures
            r.addr() == 0,
            r.cells() == Seq::new(32768, |i: int| zeros()),
    {
        let r = Self { data: [[false; 16]; 32768], address: 0 };
        proof {
            assert forall|i: int| 0 <= i < 32768 implies #[trigger] r.data[i]@ == zeros() by {
                assert(r.data[i]@ =~= zeros());
            }
            assert(r.cells() =~= Seq::new(32768, |i: int| zeros()));
        }
        r
    }

    /// Sets the address to read from.
    pub fn set_address(&mut self, address: &[bool; 15])
        ensures
            final(self).addr() == address_value(address@),
            final(self).cells() == old(self).cells(),
    {
        proof {
            lemma_weights();
        }
        self.address = wires_value(address);
    }

    /// The word at the address.
    pub fn get_output(&self) -> (r: [bool; 16])
        ensures
            0 <= self.addr() < 32768,
            r@ == self.cells()[self.addr()],
    {
        proof {
            use_type_invariant(self);
        }
        self.data[self.address]
    }
}

} // verus!
