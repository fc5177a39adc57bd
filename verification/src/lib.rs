//! Kismet: a small dice-rolling expression language.
//!
//! The crate is a pipeline: `lexer` turns source bytes into tokens, `parser`
//! builds the syntax tree of `ast`, `hir` compiles the tree into instructions
//! and runs them against a table of variables, and `render` prints trees and
//! values.  `repl` holds the settings of the interactive shell.
pub mod ast;
pub mod hir;
pub mod lexer;
pub mod parser;
pub mod render;
pub mod repl;
pub mod types;
