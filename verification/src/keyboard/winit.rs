//! A keyboard driven by the key events of a window: it remembers which keys
//! are down, the one pressed last first, and shows the code of the latest.

use crate::chip::mem::Register;
use crate::keyboard::Keyboard;
use crate::signal::Word;
use std::collections::VecDeque;
use vstd::prelude::*;

verus! {

/// The keys that the window system tells apart.
#[derive(Clone, Copy, Debug, PartialEq, Eq, Structural)]
pub enum VirtualKeyCode {
    Space,
    Asterisk,
    Plus,
    Comma,
    NumpadComma,
    Minus,
    Period,
    Slash,
    Key0,
    Numpad0,
    Key1,
    Numpad1,
    Key2,
    Numpad2,
    Key3,
    Numpad3,
    Key4,
    Numpad4,
    Key5,
    Numpad5,
    Key6,
    Numpad6,
    Key7,
    Numpad7,
    Key8,
    Numpad8,
    Key9,
    Numpad9,
    Colon,
    Equals,
    NumpadEquals,
    At,
    LBracket,
    RBracket,
    Caret,
    Underline,
    Backslash,
    A,
    B,
    C,
    D,
    E,
    F,
    G,
    H,
    I,
    J,
    K,
    L,
    M,
    N,
    O,
    P,
    Q,
    R,
    S,
    T,
    U,
    V,
    W,
    X,
    Y,
    Z,
    Return,
    Back,
    Left,
    Up,
    Right,
    Down,
    Home,
    End,
    PageUp,
    PageDown,
    Insert,
    Delete,
    Escape,
    F1,
    F2,
    F3,
    F4,
    F5,
    F6,
    F7,
    F8,
    F9,
    F10,
    F11,
    F12,
    /// A key that the machine has no code for, by the number that the
    /// window system gives it.
    Other(u32),
}

/// Whether a key went down or came up.
#[derive(Clone, Copy, Debug, PartialEq, Eq, Structural)]
pub enum ElementState {
    Pressed,
    Released,
}

/// One key event.
#[derive(Clone, Copy, Debug, PartialEq, Eq, Structural)]
pub struct KeyboardInput {
    pub state: ElementState,
    pub virtual_keycode: Option<VirtualKeyCode>,
}

/// The code that the machine has for a key, or 0 where it has none.
pub open spec fn key_code(keycode: VirtualKeyCode) -> u16 {
    match keycode {
        VirtualKeyCode::Space => 32,
        VirtualKeyCode::Asterisk => 42,
        VirtualKeyCode::Plus => 43,
        VirtualKeyCode::Comma | VirtualKeyCode::NumpadComma => 44,
        VirtualKeyCode::Minus => 45,
        VirtualKeyCode::Period => 46,
        VirtualKeyCode::Slash => 47,
        VirtualKeyCode::Key0 | VirtualKeyCode::Numpad0 => 48,
        VirtualKeyCode::Key1 | VirtualKeyCode::Numpad1 => 49,
        VirtualKeyCode::Key2 | VirtualKeyCode::Numpad2 => 50,
        VirtualKeyCode::Key3 | VirtualKeyCode::Numpad3 => 51,
        VirtualKeyCode::Key4 | VirtualKeyCode::Numpad4 => 52,
        VirtualKeyCode::Key5 | VirtualKeyCode::Numpad5 => 53,
        VirtualKeyCode::Key6 | VirtualKeyCode::Numpad6 => 54,
        VirtualKeyCode::Key7 | VirtualKeyCode::Numpad7 => 55,
        VirtualKeyCode::Key8 | VirtualKeyCode::Numpad8 => 56,
        VirtualKeyCode::Key9 | VirtualKeyCode::Numpad9 => 57,
        VirtualKeyCode::Colon => 58,
        VirtualKeyCode::Equals | VirtualKeyCode::NumpadEquals => 61,
        VirtualKeyCode::At => 64,
        VirtualKeyCode::LBracket => 91,
        VirtualKeyCode::RBracket => 93,
        VirtualKeyCode::Caret => 94,
        VirtualKeyCode::Underline => 95,
        VirtualKeyCode::Backslash => 96,
        VirtualKeyCode::A => 97,
        VirtualKeyCode::B => 98,
        VirtualKeyCode::C => 99,
        VirtualKeyCode::D => 100,
        VirtualKeyCode::E => 101,
        VirtualKeyCode::F => 102,
        VirtualKeyCode::G => 103,
        VirtualKeyCode::H => 104,
        VirtualKeyCode::I => 105,
        VirtualKeyCode::J => 106,
        VirtualKeyCode::K => 107,
        VirtualKeyCode::L => 108,
        VirtualKeyCode::M => 109,
        VirtualKeyCode::N => 110,
        VirtualKeyCode::O => 111,
        VirtualKeyCode::P => 112,
        VirtualKeyCode::Q => 113,
        VirtualKeyCode::R => 114,
        VirtualKeyCode::S => 115,
        VirtualKeyCode::T => 116,
        VirtualKeyCode::U => 117,
        VirtualKeyCode::V => 118,
        VirtualKeyCode::W => 119,
        VirtualKeyCode::X => 120,
        VirtualKeyCode::Y => 121,
        VirtualKeyCode::Z => 122,
        VirtualKeyCode::Return => 128,
        VirtualKeyCode::Back => 129,
        VirtualKeyCode::Left => 130,
        VirtualKeyCode::Up => 131,
        VirtualKeyCode::Right => 132,
        VirtualKeyCode::Down => 133,
        VirtualKeyCode::Home => 134,
        VirtualKeyCode::End => 135,
        VirtualKeyCode::PageUp => 136,
        VirtualKeyCode::PageDown => 137,
        VirtualKeyCode::Insert => 138,
        VirtualKeyCode::Delete => 139,
        VirtualKeyCode::Escape => 140,
        VirtualKeyCode::F1 => 141,
        VirtualKeyCode::F2 => 142,
        VirtualKeyCode::F3 => 143,
        VirtualKeyCode::F4 => 144,
        VirtualKeyCode::F5 => 145,
        VirtualKeyCode::F6 => 146,
        VirtualKeyCode::F7 => 147,
        VirtualKeyCode::F8 => 148,
        VirtualKeyCode::F9 => 149,
        VirtualKeyCode::F10 => 150,
        VirtualKeyCode::F11 => 151,
        VirtualKeyCode::F12 => 152,
        VirtualKeyCode::Other(_) => 0,
    }
}

/// The word that the keyboard register shows for a key, if the machine has a
/// code for it.
pub fn code_to_word(keycode: VirtualKeyCode) -> (r: Option<Word>)
    ensures
        r == if key_code(keycode) == 0 {
            None
        } else {
            Some(Word(key_code(keycode)))
        },
{
    let code: u16 = match keycode {
        VirtualKeyCode::Space => 32,
        VirtualKeyCode::Asterisk => 42,
        VirtualKeyCode::Plus => 43,
        VirtualKeyCode::Comma | VirtualKeyCode::NumpadComma => 44,
        VirtualKeyCode::Minus => 45,
        VirtualKeyCode::Period => 46,
        VirtualKeyCode::Slash => 47,
        VirtualKeyCode::Key0 | VirtualKeyCode::Numpad0 => 48,
        VirtualKeyCode::Key1 | VirtualKeyCode::Numpad1 => 49,
        VirtualKeyCode::Key2 | VirtualKeyCode::Numpad2 => 50,
        VirtualKeyCode::Key3 | VirtualKeyCode::Numpad3 => 51,
        VirtualKeyCode::Key4 | VirtualKeyCode::Numpad4 => 52,
        VirtualKeyCode::Key5 | VirtualKeyCode::Numpad5 => 53,
        VirtualKeyCode::Key6 | VirtualKeyCode::Numpad6 => 54,
        VirtualKeyCode::Key7 | VirtualKeyCode::Numpad7 => 55,
        VirtualKeyCode::Key8 | VirtualKeyCode::Numpad8 => 56,
        VirtualKeyCode::Key9 | VirtualKeyCode::Numpad9 => 57,
        VirtualKeyCode::Colon => 58,
        VirtualKeyCode::Equals | VirtualKeyCode::NumpadEquals => 61,
        VirtualKeyCode::At => 64,
        VirtualKeyCode::LBracket => 91,
        VirtualKeyCode::RBracket => 93,
        VirtualKeyCode::Caret => 94,
        VirtualKeyCode::Underline => 95,
        VirtualKeyCode::Backslash => 96,
        VirtualKeyCode::A => 97,
        VirtualKeyCode::B => 98,
        VirtualKeyCode::C => 99,
        VirtualKeyCode::D => 100,
        VirtualKeyCode::E => 101,
        VirtualKeyCode::F => 102,
        VirtualKeyCode::G => 103,
        VirtualKeyCode::H => 104,
        VirtualKeyCode::I => 105,
        VirtualKeyCode::J => 106,
        VirtualKeyCode::K => 107,
        VirtualKeyCode::L => 108,
        VirtualKeyCode::M => 109,
        VirtualKeyCode::N => 110,
        VirtualKeyCode::O => 111,
        VirtualKeyCode::P => 112,
        VirtualKeyCode::Q => 113,
        VirtualKeyCode::R => 114,
        VirtualKeyCode::S => 115,
        VirtualKeyCode::T => 116,
        VirtualKeyCode::U => 117,
        VirtualKeyCode::V => 118,
        VirtualKeyCode::W => 119,
        VirtualKeyCode::X => 120,
        VirtualKeyCode::Y => 121,
        VirtualKeyCode::Z => 122,
        VirtualKeyCode::Return => 128,
        VirtualKeyCode::Back => 129,
        VirtualKeyCode::Left => 130,
        VirtualKeyCode::Up => 131,
        VirtualKeyCode::Right => 132,
        VirtualKeyCode::Down => 133,
        VirtualKeyCode::Home => 134,
        VirtualKeyCode::End => 135,
        VirtualKeyCode::PageUp => 136,
        VirtualKeyCode::PageDown => 137,
        VirtualKeyCode::Insert => 138,
        VirtualKeyCode::Delete => 139,
        VirtualKeyCode::Escape => 140,
        VirtualKeyCode::F1 => 141,
        VirtualKeyCode::F2 => 142,
        VirtualKeyCode::F3 => 143,
        VirtualKeyCode::F4 => 144,
        VirtualKeyCode::F5 => 145,
        VirtualKeyCode::F6 => 146,
        VirtualKeyCode::F7 => 147,
        VirtualKeyCode::F8 => 148,
        VirtualKeyCode::F9 => 149,
        VirtualKeyCode::F10 => 150,
        VirtualKeyCode::F11 => 151,
        VirtualKeyCode::F12 => 152,
        VirtualKeyCode::Other(_) => 0,
    };
    if code == 0 {
        None
    } else {
        Some(Word::from(code))
    }
}

/// The place of the first `key` in `held`, if it is there.
pub open spec fn first_place(held: Seq<VirtualKeyCode>, key: VirtualKeyCode) -> Option<int> {
    held.index_of_first(key)
}

/// What the register shows once `key` has become the latest key.
pub open spec fn shown(code: Word, key: VirtualKeyCode) -> Word {
    if key_code(key) == 0 {
        code
    } else {
        Word(key_code(key))
    }
}

/// The keys held and the code shown after a key went down: the key moves to
/// the front, and its code is shown if the machine has one for it.
pub open spec fn after_press(
    held: Seq<VirtualKeyCode>,
    code: Word,
    key: VirtualKeyCode,
) -> (Seq<VirtualKeyCode>, Word) {
    let rest = match first_place(held, key) {
        Some(at) => held.remove(at),
        None => held,
    };
    (seq![key] + rest, shown(code, key))
}

/// The keys held and the code shown after a key came up. If it was the
/// latest key, the one pressed before it leaves the list too, and its code
/// is shown if the machine has one for it.
pub open spec fn after_release(
    held: Seq<VirtualKeyCode>,
    code: Word,
    key: VirtualKeyCode,
) -> (Seq<VirtualKeyCode>, Word) {
    match first_place(held, key) {
        Some(at) => {
            let rest = held.remove(at);
            if at == 0 && rest.len() > 0 {
                (rest.drop_first(), shown(code, rest[0]))
            } else {
                (rest, code)
            }
        },
        None => (held, code),
    }
}

/// The keys held and the code shown after one key event.
pub open spec fn after_event(
    held: Seq<VirtualKeyCode>,
    code: Word,
    event: KeyboardInput,
) -> (Seq<VirtualKeyCode>, Word) {
    match event.virtual_keycode {
        Some(key) => match event.state {
            ElementState::Pressed => after_press(held, code, key),
            ElementState::Released => after_release(held, code, key),
        },
        None => (held, code),
    }
}

pub struct WinitKeyboard {
    register: Register<Word>,
    states: VecDeque<VirtualKeyCode>,
}

/// Where `key` stands first in `states`.
fn position(states: &VecDeque<VirtualKeyCode>, key: VirtualKeyCode) -> (r: Option<usize>)
    ensures
        match r {
            Some(at) => first_place(states@, key) == Some(at as int) && at < states@.len(),
            None => first_place(states@, key) is None,
        },
{
    let mut i: usize = 0;
    while i < states.len()
        invariant
            i <= states@.len(),
            forall|j: int| 0 <= j < i ==> states@[j] != key,
        decreases states@.len() - i,
    {
        if states[i] == key {
            proof {
                assert(states@[i as int] == key);
                states@.index_of_first_ensures(key);
            }
            return Some(i);
        }
        i += 1;
    }
    proof {
        states@.index_of_first_ensures(key);
    }
    None
}

impl WinitKeyboard {
    /// The keys that are down, the one pressed last first.
    pub closed spec fn held(&self) -> Seq<VirtualKeyCode> {
        self.states@
    }
}

impl Keyboard for WinitKeyboard {
    type State = KeyboardInput;

    closed spec fn code(&self) -> Word {
        self.register.value()
    }

    /// The keys held and the code shown go as `after_event` says.
    open spec fn takes(&self, state: Self::State, after: &Self) -> bool {
        (after.held(), after.code()) == after_event(self.held(), self.code(), state)
    }

    fn new() -> (r: Self)
        ensures
            r.held() == Seq::<VirtualKeyCode>::empty(),
    {
        Self { register: Register::new(), states: VecDeque::new() }
    }

    fn get_output(&self) -> (r: Word) {
        self.register.get_output()
    }

    fn set_state(&mut self, state: Self::State) {
        if let Some(virtual_keycode) = state.virtual_keycode {
            match state.state {
                ElementState::Pressed => {
                    if let Some(pos) = position(&self.states, virtual_keycode) {
                        self.states.remove(pos);
                    }
                    self.states.push_front(virtual_keycode);
                    if let Some(bits) = code_to_word(virtual_keycode) {
                        self.register.tick(true, bits);
                    }
                },
                ElementState::Released => {
                    if let Some(pos) = position(&self.states, virtual_keycode) {
                        self.states.remove(pos);
                        if pos == 0 {
                            if let Some(code) = self.states.pop_front() {
                                if let Some(bits) = code_to_word(code) {
                                    self.register.tick(true, bits);
                                }
                            }
                        }
                    }
                },
            }
        }
    }
}

} // verus!
