//! A small expression language for an interactive shell.
//!
//! A line of text is cut into segments at `;` and each segment into tokens
//! (`lexer`, `token`); the tokens of a segment are parsed into an expression
//! tree (`grammar`, `parser`, `ast`); the tree is evaluated to a value
//! (`eval`, `value`), which is shown with its kind (`report`). A line that
//! starts with none of `if`, `:`, `!`, `-` is a command: the name of a
//! program and its arguments. The evaluator does not run programs; it hands
//! out what is to be run and takes back what was printed.
//!
//! `rounds` proves that evaluating in rounds, with the programs run between
//! them, gives what evaluating in one go would give. `laws` holds what is
//! proved of parsing and evaluation together.

pub mod value;
pub mod env;
pub mod text;
pub mod ast;
pub mod token;
pub mod pattern;
pub mod lexer;
pub mod grammar;
pub mod parser;
pub mod eval;
pub mod rounds;
pub mod report;
pub mod laws;
pub mod trie;
