//! The functions that every program can call without declaring them.
use vstd::prelude::*;

verus! {

/// `clock()`: the time in milliseconds. Reading the clock is left to the
/// evaluator; what it is as a value is stated here.
#[derive(Clone, Copy, Debug, PartialEq, Eq, PartialOrd, Ord, Hash)]
pub struct ClockFunction;

impl ClockFunction {
    /// How many arguments it takes: none.
    pub fn arity(&self) -> (n: usize)
        ensures
            n == 0,
    {
        0
    }

    /// The text shown for it (what its `Display` writes).
    pub fn to_string(&self) -> (r: String)
        ensures
            r@ == "<fn clock>(inner)"@,
    {
        String::from_str("<fn clock>(inner)")
    }
}

} // verus!
