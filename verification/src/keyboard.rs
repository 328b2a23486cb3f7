//! The keyboard: one register that shows the code of the key that is down.

use crate::chip::mem::Register;
use crate::signal::Word;
use vstd::prelude::*;

pub mod winit;

verus! {

/// What the memory map asks of a keyboard: it shows one word, and takes
/// whatever events drive it.
pub trait Keyboard: Sized {
    /// What drives the keyboard.
    type State;

    /// The code that the keyboard shows.
    spec fn code(&self) -> Word;

    /// Whether `after` is this keyboard once it has taken the event
    /// `state`. Each keyboard says for itself what an event does to it.
    spec fn takes(&self, state: Self::State, after: &Self) -> bool;

    /// A keyboard with no key down: it shows 0.
    fn new() -> (r: Self)
        ensures
            r.code() == Word(0),
    ;

    /// The code that the keyboard shows.
    fn get_output(&self) -> (r: Word)
        ensures
            r == self.code(),
    ;

    /// Takes one event.
    fn set_state(&mut self, state: Self::State)
        ensures
            old(self).takes(state, final(self)),
    ;
}

/// A keyboard that nobody types on.
pub struct DummyKeyboard {
    register: Register<Word>,
}

impl Keyboard for DummyKeyboard {
    type State = ();

    closed spec fn code(&self) -> Word {
        self.register.value()
    }

    /// No event changes what the keyboard shows.
    open spec fn takes(&self, state: Self::State, after: &Self) -> bool {
        after.code() == self.code()
    }

    fn new() -> (r: Self) {
        Self { register: Register::new() }
    }

    fn get_output(&self) -> (r: Word) {
        self.register.get_output()
    }

    fn set_state(&mut self, _state: Self::State) {
    }
}

} // verus!
