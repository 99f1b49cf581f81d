//! Detection of two-keystroke accent combinations in a stream of typed
//! characters.

pub mod char_buffer;
pub mod engine;
pub mod input_controller;
pub mod input_listener;
pub mod input_simulator;
pub mod keyboard_listener;
pub mod keys;
