//! The key-press model: the discrete input events the mode state machine
//! dispatches on, reduced to what the bindings distinguish — a key code and
//! whether the control modifier is held.

use vstd::prelude::*;

verus! {

/// A key code, as far as the bindings care.
#[derive(Debug, Clone, Copy, PartialEq, Eq, Structural)]
pub enum Key {
    /// A printable character, digits included.
    Char(char),
    Up,
    Down,
    PageUp,
    PageDown,
    Enter,
    Backspace,
    Esc,
    /// Any other key; ignored in every mode.
    Other,
}

/// One key press: the code and the control modifier.
#[derive(Debug, Clone, Copy, PartialEq, Eq, Structural)]
pub struct KeyPress {
    pub code: Key,
    pub ctrl: bool,
}

impl KeyPress {
    pub fn new(code: Key, ctrl: bool) -> (r: Self)
        ensures
            r.code == code,
            r.ctrl == ctrl,
    {
        KeyPress { code, ctrl }
    }

    /// A plain (unmodified) key press.
    pub fn plain(code: Key) -> (r: Self)
        ensures
            r.code == code,
            !r.ctrl,
    {
        KeyPress { code, ctrl: false }
    }
}

/// The decimal value of an ASCII digit key, if the key is one.
pub open spec fn spec_digit_of(k: Key) -> Option<u8> {
    match k {
        Key::Char(c) => if '0' as u32 <= c as u32 <= '9' as u32 {
            Some((c as u32 - '0' as u32) as u8)
        } else {
            None
        },
        _ => None,
    }
}

/// Recognise a digit key and return its decimal value.
pub fn digit_of(k: Key) -> (r: Option<u8>)
    ensures
        r == spec_digit_of(k),
{
    match k {
        Key::Char(c) => {
            if '0' <= c && c <= '9' {
                Some((c as u32 - '0' as u32) as u8)
            } else {
                None
            }
        }
        _ => None,
    }
}

} // verus!
