//! Sequential chips: the flip-flop, the register, the RAM hierarchy and the
//! program counter. Each owns its state and advances it by one clock cycle
//! in `tick`; its output is stable between ticks.
//!
//! A RAM is seen as a sequence of cells and the address that the last tick
//! latched. Its output is the cell at that address; a tick with `load` high
//! writes the addressed cell and leaves every other cell as it was.

use crate::chip::arith::{inc, weight, wrapping_sum};
use crate::chip::basic::{mux, or};
use crate::signal::{Signal, Word};
use vstd::prelude::*;

verus! {

/// The number that address wires carry, the first wire being the most significant.
pub open spec fn address_value(a: Seq<bool>) -> int
    decreases a.len(),
{
    if a.len() == 0 {
        0
    } else {
        2 * address_value(a.drop_last()) + if a.last() { 1int } else { 0int }
    }
}

/// An address of `n` wires is below two to the `n`.
pub proof fn lemma_address_value_bound(a: Seq<bool>)
    ensures
        0 <= address_value(a) < weight(a.len() as int),
    decreases a.len(),
{
    if a.len() > 0 {
        lemma_address_value_bound(a.drop_last());
    }
}

/// The first `k` wires of an address count two to the number of the wires after them.
pub proof fn lemma_address_value_split(a: Seq<bool>, k: int)
    requires
        0 <= k <= a.len(),
    ensures
        address_value(a) == address_value(a.take(k)) * weight(a.len() - k) + address_value(
            a.skip(k),
        ),
    decreases a.len(),
{
    if k == a.len() {
        assert(a.take(k) =~= a);
        assert(a.skip(k).len() == 0);
    } else {
        let b = a.drop_last();
        lemma_address_value_split(b, k);
        assert(b.take(k) =~= a.take(k));
        assert(b.skip(k) =~= a.skip(k).drop_last());
        assert(a.skip(k).last() == a.last());
        let x = address_value(a.take(k));
        let w = weight(b.len() - k);
        assert(weight(a.len() - k) == 2 * w);
        assert(2 * (x * w) == x * (2 * w)) by (nonlinear_arith);
    }
}

/// Wires that are all low carry zero.
pub proof fn lemma_address_value_zero(a: Seq<bool>)
    requires
        forall|i: int| 0 <= i < a.len() ==> !a[i],
    ensures
        address_value(a) == 0,
    decreases a.len(),
{
    if a.len() > 0 {
        lemma_address_value_zero(a.drop_last());
    }
}

pub(crate) proof fn lemma_weights()
    ensures
        weight(0) == 1,
        weight(1) == 2,
        weight(3) == 8,
        weight(6) == 64,
        weight(9) == 512,
        weight(12) == 4096,
        weight(13) == 8192,
        weight(14) == 16384,
        weight(15) == 32768,
{
    reveal_with_fuel(weight, 16);
}

/// The number that the first `k` wires of an address carry.
pub(crate) fn high_wires<const N: usize>(address: &[bool; N], k: usize) -> (r: usize)
    requires
        k <= N,
        k <= 16,
    ensures
        r == address_value(address@.take(k as int)),
        r < weight(k as int),
{
    let mut r: usize = 0;
    let mut i: usize = 0;
    proof {
        assert(address@.take(0).len() == 0);
    }
    while i < k
        invariant
            i <= k <= N,
            k <= 16,
            r == address_value(address@.take(i as int)),
            r < weight(i as int),
            weight(i as int) <= 0x10000,
        decreases k - i,
    {
        proof {
            lemma_weight_grows(i as int + 1, 16);
            assert(weight(16) == 0x10000) by {
                reveal_with_fuel(weight, 18);
            }
            assert(address@.take(i as int + 1).drop_last() =~= address@.take(i as int));
        }
        r = 2 * r + if address[i] { 1 } else { 0 };
        i += 1;
    }
    r
}

/// The weights grow with the position.
pub proof fn lemma_weight_grows(j: int, k: int)
    requires
        0 <= j <= k,
    ensures
        1 <= weight(j) <= weight(k),
    decreases k,
{
    if j < k {
        lemma_weight_grows(j, k - 1);
    } else if k > 0 {
        lemma_weight_grows(j - 1, k - 1);
    }
}

/// The number that an address carries.
pub(crate) fn wires_value<const N: usize>(address: &[bool; N]) -> (r: usize)
    requires
        N <= 16,
    ensures
        r == address_value(address@),
        r < weight(N as int),
{
    proof {
        assert(address@.take(N as int) =~= address@);
    }
    high_wires(address, N)
}

/// The first `M` wires of an address.
pub(crate) fn high_part<const N: usize, const M: usize>(address: &[bool; N]) -> (r: [bool; M])
    requires
        M <= N,
    ensures
        r@ == address@.take(M as int),
{
    let mut r = [false; M];
    let mut i: usize = 0;
    while i < M
        invariant
            i <= M <= N,
            forall|j: int| 0 <= j < i ==> r@[j] == address@[j],
        decreases M - i,
    {
        r[i] = address[i];
        i += 1;
    }
    assert(r@ =~= address@.take(M as int));
    r
}

/// The last `M` wires of an address.
pub(crate) fn low_wires<const N: usize, const M: usize>(address: &[bool; N]) -> (r: [bool; M])
    requires
        M <= N,
    ensures
        r@ == address@.skip(N - M),
{
    let mut r = [false; M];
    let mut i: usize = 0;
    while i < M
        invariant
            i <= M <= N,
            forall|j: int| 0 <= j < i ==> r@[j] == address@[N - M + j],
        decreases M - i,
    {
        r[i] = address[N - M + i];
        i += 1;
    }
    assert(r@ =~= address@.skip(N - M));
    r
}

/// A delay flip-flop: its output is the input of the previous tick.
pub struct Dff<S: Signal> {
    output: S,
}

impl<S: Signal> Dff<S> {
    /// What the flip-flop holds.
    pub closed spec fn value(&self) -> S {
        self.output
    }

    /// A flip-flop that holds zero.
    pub fn new() -> (r: Self)
        ensures
            r.value() == S::fill(false),
    {
        Self { output: S::zero() }
    }

    pub fn get_output(&self) -> (r: S)
        ensures
            r == self.value(),
    {
        self.output
    }

    /// Latches the input.
    pub fn tick(&mut self, input: S)
        ensures
            final(self).value() == input,
    {
        self.output = input;
    }
}

/// A register: on a tick it takes the input if `load` is high and keeps its
/// value otherwise.
pub struct Register<S: Signal> {
    dff: Dff<S>,
}

impl<S: Signal> Register<S> {
    /// What the register holds.
    pub closed spec fn value(&self) -> S {
        self.dff.value()
    }

    /// A register that holds zero.
    pub fn new() -> (r: Self)
        ensures
            r.value() == S::fill(false),
    {
        Self { dff: Dff::new() }
    }

    pub fn get_output(&self) -> (r: S)
        ensures
            r == self.value(),
    {
        self.dff.get_output()
    }

    pub fn tick(&mut self, load: bool, input: S)
        ensures
            final(self).value() == if load { input } else { old(self).value() },
    {
        self.dff.tick(mux(self.get_output(), input, load));
    }
}

/// Eight registers behind an address of three wires.
pub struct Ram8<S: Signal> {
    registers: [Register<S>; 8],
    address: [bool; 3],
}

impl<S: Signal> Ram8<S> {
    /// The eight cells, by address.
    pub closed spec fn cells(&self) -> Seq<S> {
        Seq::new(8, |i: int| self.registers[i].value())
    }

    /// The address that the last tick latched.
    pub closed spec fn addr(&self) -> int {
        address_value(self.address@)
    }

    /// There are eight cells.
    pub proof fn lemma_size(&self)
        ensures
            self.cells().len() == 8,
    {
    }

    /// A RAM of zeros, addressed at cell 0.
    pub fn new() -> (r: Self)
        ensures
            r.addr() == 0,
            r.cells() == Seq::new(8, |i: int| S::fill(false)),
    {
        let r = Self {
            registers: [
                Register::new(),
                Register::new(),
                Register::new(),
                Register::new(),
                Register::new(),
                Register::new(),
                Register::new(),
                Register::new(),
            ],
            address: [false; 3],
        };
        proof {
            lemma_address_value_zero(r.address@);
        }
        assert(r.cells() =~= Seq::new(8, |i: int| S::fill(false)));
        r
    }

    /// The cell at the latched address.
    pub fn get_output(&self) -> (r: S)
        ensures
            0 <= self.addr() < 8,
            r == self.cells()[self.addr()],
    {
        proof {
            lemma_weights();
            assert(self.address@.take(3) =~= self.address@);
        }
        self.registers[high_wires(&self.address, 3)].get_output()
    }

    /// Latches the address and, if `load` is high, writes the input there.
    pub fn tick(&mut self, address: &[bool; 3], load: bool, input: S)
        ensures
            0 <= address_value(address@) < 8,
            final(self).addr() == address_value(address@),
            final(self).cells() == if load {
                old(self).cells().update(address_value(address@), input)
            } else {
                old(self).cells()
            },
    {
        proof {
            lemma_weights();
            assert(address@.take(3) =~= address@);
        }
        self.address = *address;
        self.registers[high_wires(address, 3)].tick(load, input);
        proof {
            lemma_address_value_bound(address@);
            if load {
                assert(final(self).cells() =~= old(self).cells().update(
                    address_value(address@),
                    input,
                ));
            } else {
                assert(final(self).cells() =~= old(self).cells());
            }
        }
    }
}

/// Eight `Ram8` behind an address of six wires: the first three pick the `Ram8`.
pub struct Ram64<S: Signal> {
    rams: [Ram8<S>; 8],
    address: [bool; 3],
}

impl<S: Signal> Ram64<S> {
    /// The 64 cells, by address.
    pub closed spec fn cells(&self) -> Seq<S> {
        Seq::new(64, |i: int| self.rams[i / 8].cells()[i % 8])
    }

    /// The address that the last tick latched.
    pub closed spec fn addr(&self) -> int {
        address_value(self.address@) * 8 + self.rams[address_value(self.address@)].addr()
    }

    /// There are 64 cells.
    pub proof fn lemma_size(&self)
        ensures
            self.cells().len() == 64,
    {
    }

    /// A RAM of zeros, addressed at cell 0.
    pub fn new() -> (r: Self)
        ensures
            r.addr() == 0,
            r.cells() == Seq::new(64, |i: int| S::fill(false)),
    {
        let r = Self {
            rams: [
                Ram8::new(),
                Ram8::new(),
                Ram8::new(),
                Ram8::new(),
                Ram8::new(),
                Ram8::new(),
                Ram8::new(),
                Ram8::new(),
            ],
            address: [false; 3],
        };
        proof {
            lemma_address_value_zero(r.address@);
        }
        assert(r.cells() =~= Seq::new(64, |i: int| S::fill(false)));
        r
    }

    /// The cell at the latched address.
    pub fn get_output(&self) -> (r: S)
        ensures
            0 <= self.addr() < 64,
            r == self.cells()[self.addr()],
    {
        proof {
            lemma_weights();
            lemma_address_value_bound(self.address@);
            assert(self.address@.take(self.address@.len() as int) =~= self.address@);
        }
        self.rams[high_wires(&self.address, 3)].get_output()
    }

    /// Latches the address and, if `load` is high, writes the input there.
    pub fn tick(&mut self, address: &[bool; 6], load: bool, input: S)
        ensures
            0 <= address_value(address@) < 64,
            final(self).addr() == address_value(address@),
            final(self).cells() == if load {
                old(self).cells().update(address_value(address@), input)
            } else {
                old(self).cells()
            },
    {
        let ad: [bool; 3] = low_wires(address);
        proof {
            lemma_weights();
        }
        self.address = high_part(address);
        self.rams[high_wires(address, 3)].tick(&ad, load, input);
        proof {
            lemma_weights();
            lemma_address_value_bound(address@);
            lemma_address_value_split(address@, 3);
            lemma_address_value_bound(ad@);
            let high = address_value(address@.take(3));
            let low = address_value(ad@);
            assert(address_value(address@) == high * 8 + low);
            old(self).rams[high].lemma_size();
            if load {
                assert(final(self).cells() =~= old(self).cells().update(
                    address_value(address@),
                    input,
                ));
            } else {
                assert(final(self).cells() =~= old(self).cells());
            }
        }
    }
}

/// Eight `Ram64` behind an address of nine wires.
pub struct Ram512<S: Signal> {
    rams: [Ram64<S>; 8],
    address: [bool; 3],
}

impl<S: Signal> Ram512<S> {
    /// The 512 cells, by address.
    pub closed spec fn cells(&self) -> Seq<S> {
        Seq::new(512, |i: int| self.rams[i / 64].cells()[i % 64])
    }

    /// The address that the last tick latched.
    pub closed spec fn addr(&self) -> int {
        address_value(self.address@) * 64 + self.rams[address_value(self.address@)].addr()
    }

    /// There are 512 cells.
    pub proof fn lemma_size(&self)
        ensures
            self.cells().len() == 512,
    {
    }

    /// A RAM of zeros, addressed at cell 0.
    pub fn new() -> (r: Self)
        ensures
            r.addr() == 0,
            r.cells() == Seq::new(512, |i: int| S::fill(false)),
    {
        let r = Self {
            rams: [
                Ram64::new(),
                Ram64::new(),
                Ram64::new(),
                Ram64::new(),
                Ram64::new(),
                Ram64::new(),
                Ram64::new(),
                Ram64::new(),
            ],
            address: [false; 3],
        };
        proof {
            lemma_address_value_zero(r.address@);
        }
        assert(r.cells() =~= Seq::new(512, |i: int| S::fill(false)));
        r
    }

    /// The cell at the latched address.
    pub fn get_output(&self) -> (r: S)
        ensures
            0 <= self.addr() < 512,
            r == self.cells()[self.addr()],
    {
        proof {
            lemma_weights();
            lemma_address_value_bound(self.address@);
            assert(self.address@.take(self.address@.len() as int) =~= self.address@);
        }
        self.rams[high_wires(&self.address, 3)].get_output()
    }

    /// Latches the address and, if `load` is high, writes the input there.
    pub fn tick(&mut self, address: &[bool; 9], load: bool, input: S)
        ensures
            0 <= address_value(address@) < 512,
            final(self).addr() == address_value(address@),
            final(self).cells() == if load {
                old(self).cells().update(address_value(address@), input)
            } else {
                old(self).cells()
            },
    {
        let ad: [bool; 6] = low_wires(address);
        proof {
            lemma_weights();
        }
        self.address = high_part(address);
        self.rams[high_wires(address, 3)].tick(&ad, load, input);
        proof {
            lemma_weights();
            lemma_address_value_bound(address@);
            lemma_address_value_split(address@, 3);
            lemma_address_value_bound(ad@);
            let high = address_value(address@.take(3));
            let low = address_value(ad@);
            assert(address_value(address@) == high * 64 + low);
            old(self).rams[high].lemma_size();
            if load {
                assert(final(self).cells() =~= old(self).cells().update(
                    address_value(address@),
                    input,
                ));
            } else {
                assert(final(self).cells() =~= old(self).cells());
            }
        }
    }
}

/// Eight `Ram512` behind an address of twelve wires.
pub struct Ram4k<S: Signal> {
    rams: [Ram512<S>; 8],
    address: [bool; 3],
}

impl<S: Signal> Ram4k<S> {
    /// The 4096 cells, by address.
    pub closed spec fn cells(&self) -> Seq<S> {
        Seq::new(4096, |i: int| self.rams[i / 512].cells()[i % 512])
    }

    /// The address that the last tick latched.
    pub closed spec fn addr(&self) -> int {
        address_value(self.address@) * 512 + self.rams[address_value(self.address@)].addr()
    }

    /// There are 4096 cells.
    pub proof fn lemma_size(&self)
        ensures
            self.cells().len() == 4096,
    {
    }

    /// A RAM of zeros, addressed at cell 0.
    pub fn new() -> (r: Self)
        ensures
            r.addr() == 0,
            r.cells() == Seq::new(4096, |i: int| S::fill(false)),
    {
        let r = Self {
            rams: [
                Ram512::new(),
                Ram512::new(),
                Ram512::new(),
                Ram512::new(),
                Ram512::new(),
                Ram512::new(),
                Ram512::new(),
                Ram512::new(),
            ],
            address: [false; 3],
        };
        proof {
            lemma_address_value_zero(r.address@);
        }
        assert(r.cells() =~= Seq::new(4096, |i: int| S::fill(false)));
        r
    }

    /// The cell at the latched address.
    pub fn get_output(&self) -> (r: S)
        ensures
            0 <= self.addr() < 4096,
            r == self.cells()[self.addr()],
    {
        proof {
            lemma_weights();
            lemma_address_value_bound(self.address@);
            assert(self.address@.take(self.address@.len() as int) =~= self.address@);
        }
        self.rams[high_wires(&self.address, 3)].get_output()
    }

    /// Latches the address and, if `load` is high, writes the input there.
    pub fn tick(&mut self, address: &[bool; 12], load: bool, input: S)
        ensures
            0 <= address_value(address@) < 4096,
            final(self).addr() == address_value(address@),
            final(self).cells() == if load {
                old(self).cells().update(address_value(address@), input)
            } else {
                old(self).cells()
            },
    {
        let ad: [bool; 9] = low_wires(address);
        proof {
            lemma_weights();
        }
        self.address = high_part(address);
        self.rams[high_wires(address, 3)].tick(&ad, load, input);
        proof {
            lemma_weights();
            lemma_address_value_bound(address@);
            lemma_address_value_split(address@, 3);
            lemma_address_value_bound(ad@);
            let high = address_value(address@.take(3));
            let low = address_value(ad@);
            assert(address_value(address@) == high * 512 + low);
            old(self).rams[high].lemma_size();
            if load {
                assert(final(self).cells() =~= old(self).cells().update(
                    address_value(address@),
                    input,
                ));
            } else {
                assert(final(self).cells() =~= old(self).cells());
            }
        }
    }
}

/// Two `Ram4k` behind an address of thirteen wires: the first picks the `Ram4k`.
pub struct Ram8k<S: Signal> {
    rams: [Ram4k<S>; 2],
    address: [bool; 1],
}

impl<S: Signal> Ram8k<S> {
    /// The 8192 cells, by address.
    pub closed spec fn cells(&self) -> Seq<S> {
        Seq::new(8192, |i: int| self.rams[i / 4096].cells()[i % 4096])
    }

    /// The address that the last tick latched.
    pub closed spec fn addr(&self) -> int {
        address_value(self.address@) * 4096 + self.rams[address_value(self.address@)].addr()
    }

    /// There are 8192 cells.
    pub proof fn lemma_size(&self)
        ensures
            self.cells().len() == 8192,
    {
    }

    /// A RAM of zeros, addressed at cell 0.
    pub fn new() -> (r: Self)
        ensures
            r.addr() == 0,
            r.cells() == Seq::new(8192, |i: int| S::fill(false)),
    {
        let r = Self {
            rams: [
                Ram4k::new(),
                Ram4k::new(),
            ],
            address: [false; 1],
        };
        proof {
            lemma_address_value_zero(r.address@);
        }
        assert(r.cells() =~= Seq::new(8192, |i: int| S::fill(false)));
        r
    }

    /// The cell at the latched address.
    pub fn get_output(&self) -> (r: S)
        ensures
            0 <= self.addr() < 8192,
            r == self.cells()[self.addr()],
    {
        proof {
            lemma_weights();
            lemma_address_value_bound(self.address@);
            assert(self.address@.take(self.address@.len() as int) =~= self.address@);
        }
        self.rams[high_wires(&self.address, 1)].get_output()
    }

    /// Latches the address and, if `load` is high, writes the input there.
    pub fn tick(&mut self, address: &[bool; 13], load: bool, input: S)
        ensures
            0 <= address_value(address@) < 8192,
            final(self).addr() == address_value(address@),
            final(self).cells() == if load {
                old(self).cells().update(address_value(address@), input)
            } else {
                old(self).cells()
            },
    {
        let ad: [bool; 12] = low_wires(address);
        proof {
            lemma_weights();
        }
        self.address = high_part(address);
        self.rams[high_wires(address, 1)].tick(&ad, load, input);
        proof {
            lemma_weights();
            lemma_address_value_bound(address@);
            lemma_address_value_split(address@, 1);
            lemma_address_value_bound(ad@);
            let high = address_value(address@.take(1));
            let low = address_value(ad@);
            assert(address_value(address@) == high * 4096 + low);
            old(self).rams[high].lemma_size();
            if load {
                assert(final(self).cells() =~= old(self).cells().update(
                    address_value(address@),
                    input,
                ));
            } else {
                assert(final(self).cells() =~= old(self).cells());
            }
        }
    }
}

/// Two `Ram8k` behind an address of fourteen wires.
pub struct Ram16k<S: Signal> {
    rams: [Ram8k<S>; 2],
    address: [bool; 1],
}

impl<S: Signal> Ram16k<S> {
    /// The 16384 cells, by address.
    pub closed spec fn cells(&self) -> Seq<S> {
        Seq::new(16384, |i: int| self.rams[i / 8192].cells()[i % 8192])
    }

    /// The address that the last tick latched.
    pub closed spec fn addr(&self) -> int {
        address_value(self.address@) * 8192 + self.rams[address_value(self.address@)].addr()
    }

    /// There are 16384 cells.
    pub proof fn lemma_size(&self)
        ensures
            self.cells().len() == 16384,
    {
    }

    /// A RAM of zeros, addressed at cell 0.
    pub fn new() -> (r: Self)
        ensures
            r.addr() == 0,
            r.cells() == Seq::new(16384, |i: int| S::fill(false)),
    {
        let r = Self {
            rams: [
                Ram8k::new(),
                Ram8k::new(),
            ],
            address: [false; 1],
        };
        proof {
            lemma_address_value_zero(r.address@);
        }
        assert(r.cells() =~= Seq::new(16384, |i: int| S::fill(false)));
        r
    }

    /// The cell at the latched address.
    pub fn get_output(&self) -> (r: S)
        ensures
            0 <= self.addr() < 16384,
            r == self.cells()[self.addr()],
    {
        proof {
            lemma_weights();
            lemma_address_value_bound(self.address@);
            assert(self.address@.take(self.address@.len() as int) =~= self.address@);
        }
        self.rams[high_wires(&self.address, 1)].get_output()
    }

    /// Latches the address and, if `load` is high, writes the input there.
    pub fn tick(&mut self, address: &[bool; 14], load: bool, input: S)
        ensures
            0 <= address_value(address@) < 16384,
            final(self).addr() == address_value(address@),
            final(self).cells() == if load {
                old(self).cells().update(address_value(address@), input)
            } else {
                old(self).cells()
            },
    {
        let ad: [bool; 13] = low_wires(address);
        proof {
            lemma_weights();
        }
        self.address = high_part(address);
        self.rams[high_wires(address, 1)].tick(&ad, load, input);
        proof {
            lemma_weights();
            lemma_address_value_bound(address@);
            lemma_address_value_split(address@, 1);
            lemma_address_value_bound(ad@);
            let high = address_value(address@.take(1));
            let low = address_value(ad@);
            assert(address_value(address@) == high * 8192 + low);
            old(self).rams[high].lemma_size();
            if load {
                assert(final(self).cells() =~= old(self).cells().update(
                    address_value(address@),
                    input,
                ));
            } else {
                assert(final(self).cells() =~= old(self).cells());
            }
        }
    }
}

/// The program counter.
pub struct Pc {
    register: Register<Word>,
}

impl Pc {
    /// The address that the counter holds.
    pub closed spec fn value(&self) -> Word {
        self.register.value()
    }

    /// A counter at zero.
    pub fn new() -> (r: Self)
        ensures
            r.value() == Word(0),
    {
        Self { register: Register::new() }
    }

    pub fn get_output(&self) -> (r: Word)
        ensures
            r == self.value(),
    {
        self.register.get_output()
    }

    /// Advances the counter: `reset` goes before `load`, `load` before
    /// `increment`, and with all three low the counter holds.
    pub fn tick(&mut self, reset: bool, load: bool, increment: bool, input: Word)
        ensures
            final(self).value() == if reset {
                Word(0)
            } else if load {
                input
            } else if increment {
                Word(wrapping_sum(old(self).value().0, 1))
            } else {
                old(self).value()
            },
    {
        self.register.tick(
            or(or(reset, load), increment),
            mux(
                mux(mux(self.get_output(), inc(self.get_output()), increment), input, load),
                Word::zero(),
                reset,
            ),
        );
    }
}

} // verus!
