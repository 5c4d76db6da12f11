//! The command line of the tree-walking interpreter.
use vstd::prelude::*;

verus! {

/// What the command line asks for: a file to run, or a prompt.
#[derive(Clone, Debug, Default, PartialEq, Eq, PartialOrd, Ord)]
pub struct Cli {
    pub file_path: Option<String>,
    pub prompt: bool,
}

impl Cli {
    /// Whether a prompt was asked for.
    pub fn prompt(&self) -> (r: bool)
        ensures
            r == self.prompt,
    {
        self.prompt
    }
}

} // verus!
