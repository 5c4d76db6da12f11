use vstd::prelude::*;

pub mod pratt;
pub mod text;
pub mod assoc;
pub mod class;
pub mod native;
pub mod token;
pub mod scanner;
pub mod expr;
pub mod stmt;
pub mod parser;
pub mod ast_printer;
pub mod resolver;
pub mod env;
pub mod cli;
pub mod vm;

verus! {

} // verus!
