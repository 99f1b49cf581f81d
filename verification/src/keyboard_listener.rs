//! What a keyboard listener reports of one key press.

use crate::keys::Key;
use vstd::prelude::*;

verus! {

/// A key press: the key, and the text that it types, if it types any.
pub struct KeyEvent {
    pub unicode_chars: Option<String>,
    pub key: Key,
}

impl KeyEvent {
    /// The press of `key`, which types `unicode_chars`.
    pub fn new(unicode_chars: Option<String>, key: Key) -> (event: Self)
        ensures
            event.unicode_chars == unicode_chars,
            event.key == key,
    {
        KeyEvent { unicode_chars, key }
    }
}

} // verus!
