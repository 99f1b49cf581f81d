//! The events that a source of input delivers.

use crate::keys::Key;
use vstd::prelude::*;

verus! {

/// One event from the mouse or the keyboard.
#[derive(Clone, Copy, Debug, PartialEq, Eq, Structural)]
pub enum MouseKeyEvent {
    /// A button of the mouse went down or up.
    Mouse,
    /// A key went down. `unicode_char` is the character that the key types,
    /// if it types one.
    Key { unicode_char: Option<char>, key: Key },
}

} // verus!
