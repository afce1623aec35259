//! A verified core for a small POSIX-like shell: a tokenizer that resolves
//! quoting and escaping, a splitter and parser for trailing output
//! redirections, a builder that maps tokens to a command variant, and a pure
//! model of the output router that decides whether a chunk of command output
//! lands in a file or on the terminal.

pub mod chars;
pub mod command;
pub mod lexer;
pub mod lexer_laws;
pub mod numbers;
pub mod output;
pub mod parser;
pub mod router;
pub mod utils;
