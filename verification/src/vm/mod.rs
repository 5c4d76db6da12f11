//! The bytecode side: chunks of instructions, the table that drives the
//! single-pass compiler, and the command line of the bytecode interpreter.
pub mod chunk;
pub mod cli;
pub mod rule;
