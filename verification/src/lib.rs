//! A modal keyboard-to-mouse input engine.
//!
//! A chord of Control and Space switches the engine from idle into cursor
//! mode; in cursor mode single keys (or Control-augmented keys) translate
//! into relative cursor movement, a click, or a return to idle. The engine
//! itself only decides which event a key chord produces: actually polling
//! the keyboard and moving the mouse is left to the caller.

pub mod command;
pub mod engine;
pub mod laws;
