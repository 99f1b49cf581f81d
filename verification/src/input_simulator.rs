//! The keystrokes that the engine asks a simulator of input to type.

use vstd::prelude::*;

verus! {

/// One keystroke for the simulator.
#[derive(Clone, Copy, Debug, PartialEq, Eq, Structural)]
pub enum Keystroke {
    /// Deletes the character before the caret.
    Backspace,
    /// Types a character.
    Character(char),
}

} // verus!
