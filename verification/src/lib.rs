//! A small Unix shell: the lexer and parser that turn a command line into a
//! syntax tree, the decisions taken while running that tree, and the
//! bookkeeping of background jobs.

pub mod command;
pub mod command_analysis;
pub mod cli;
