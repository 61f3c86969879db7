//! A minimal interactive command interpreter, verified with Verus.
//!
//! The crate holds the interpreter's logic: splitting an input line into
//! words, expanding the home-directory shortcut, looking a command name up
//! in the builtin registry, and deciding for each line what the session
//! must do next. The surrounding program performs the terminal and process
//! I/O and consults this crate for every decision.

pub mod parse;
pub mod shell;
