//! A minimal command-line literal substring search library.
//!
//! Given a pattern and the lines of a text file, it selects every line that
//! contains the pattern, optionally prefixed with a line number and with each
//! occurrence of the pattern wrapped in terminal color codes. Argument
//! parsing, line splitting, matching and output formatting are all verified;
//! the thin shell that touches the process environment and the file system
//! lives outside this crate.

pub mod args;
pub mod errors;
pub mod lines;
pub mod matcher;
pub mod printer;
