//! A compiler from a declared command-line interface and an argument vector
//! to shell source text.
//!
//! A declaration names commands, subcommands, flags, options and positional
//! arguments, and the handlers to call. The compiler matches the arguments
//! that a user typed against the declaration and writes, in one of two shell
//! dialects, the assignments and handler calls that a wrapping script
//! evaluates, or the statements that report why the arguments were refused.

pub mod text;
pub mod config;
pub mod matcher;
pub mod error;
pub mod builder;
pub mod validate;
pub mod resolve;
pub mod quote;
pub mod shell;
pub mod compile;
