//! Small self-contained helpers: checked addition, a constant predicate, and a
//! guessed value holder.

use vstd::prelude::*;

verus! {

/// Sum of two numbers; the caller rules out overflow.
pub fn add(left: u64, right: u64) -> (r: u64)
    requires
        left + right <= u64::MAX,
    ensures
        r == left + right,
{
    left + right
}

/// Always holds.
pub fn true_bool() -> (r: bool)
    ensures
        r,
{
    true
}

/// A wrapped guessed value.
pub struct Guess {
    pub value: i32,
}

impl Guess {
    /// Wraps a value as a guess.
    pub fn new(value: i32) -> (r: Guess)
        ensures
            r.value == value,
    {
        Guess { value }
    }
}

} // verus!
