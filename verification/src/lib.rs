//! Command-interpretation engine of an interactive shell.
//!
//! The library covers everything between a raw input line and the operating
//! system: splitting lines into statements, tokenizing statements into
//! arguments, recognising pipe and redirect operators, parsing flag
//! arguments, dispatching builtins, and the state machine that schedules a
//! pipeline of external processes (spawn everything first, then reap
//! everything).  The surrounding binary performs the actual input, output
//! and process work and feeds the results back in as plain values.

pub mod builtin;
pub mod commands;
pub mod engine;
pub mod flags;
pub mod shell;
pub mod strutil;
pub mod utils;
