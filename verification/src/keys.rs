//! Logical keys, apart from the characters that they type.

use vstd::prelude::*;

verus! {

/// The identity of a key on the keyboard.
#[derive(Clone, Copy, Debug, PartialEq, Eq, Hash, Structural)]
pub enum Key {
    Backspace,
    Quote,
    Enter,
    Tab,
    Escape,
    Left,
    Right,
    Up,
    Down,
    Home,
    End,
    PageUp,
    PageDown,
    /// Any key that the engine gives no meaning of its own.
    Other,
}

/// Whether pressing `key` moves the caret or the focus away from the text
/// that was just typed.
pub open spec fn changes_focus(key: Key) -> bool {
    match key {
        Key::Enter
        | Key::Tab
        | Key::Escape
        | Key::Left
        | Key::Right
        | Key::Up
        | Key::Down
        | Key::Home
        | Key::End
        | Key::PageUp
        | Key::PageDown => true,
        Key::Backspace | Key::Quote | Key::Other => false,
    }
}

impl Key {
    /// Whether pressing this key moves the caret or the focus away from the
    /// text that was just typed.
    pub fn is_change_focus(&self) -> (b: bool)
        ensures
            b == changes_focus(*self),
    {
        match self {
            Key::Enter
            | Key::Tab
            | Key::Escape
            | Key::Left
            | Key::Right
            | Key::Up
            | Key::Down
            | Key::Home
            | Key::End
            | Key::PageUp
            | Key::PageDown => true,
            Key::Backspace | Key::Quote | Key::Other => false,
        }
    }
}

} // verus!
