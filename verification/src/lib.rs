//! Core of a line-oriented command interpreter: tokenizing, classifying and
//! planning the execution of one command line at a time.
//!
//! The library decides; it performs no input or output. A caller reads a
//! line, asks [`interpreter::interpret_line`] what it means, does the reading
//! and writing that the command needs, and hands what it read to the
//! function of the built-in, which returns the text to emit.

pub mod text;
pub mod tokenizer;
pub mod command;
pub mod redirect;
pub mod resolver;
pub mod builtins;
pub mod context;
pub mod launcher;
pub mod interpreter;

pub use command::{parse_exit_command, Command, ParseError};
pub use redirect::split_redirect_input;
pub use tokenizer::parse_shell_arguments;
