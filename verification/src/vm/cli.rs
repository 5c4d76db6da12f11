//! The command line of the bytecode interpreter.
use vstd::prelude::*;

verus! {

/// What the command line asks for: a file to run, or a prompt.
#[derive(Clone, Debug, Default, PartialEq, Eq, PartialOrd, Ord)]
pub struct Cli {
    pub file_path: Option<String>,
    pub repl: bool,
}

impl Cli {
    /// Whether a prompt was asked for.
    pub fn repl(&self) -> (r: bool)
        ensures
            r == self.repl,
    {
        self.repl
    }

    /// The file to run, if one was given.
    pub fn file_path(&self) -> (r: Option<&String>)
        ensures
            r == match &self.file_path {
                Some(p) => Some(p),
                None => None::<&String>,
            },
    {
        match &self.file_path {
            Some(p) => Some(p),
            None => None,
        }
    }
}

} // verus!
