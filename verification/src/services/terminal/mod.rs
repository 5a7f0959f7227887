//! The terminal: a line editor with history and a few built-in commands,
//! a small full-screen editor, and everything else handed to the shell.

pub mod model;
pub mod keys;
pub mod process;
pub mod laws;

pub use model::TerminalProcess;
