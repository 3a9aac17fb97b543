//! A guess for the guessing game, kept between 1 and 100 by construction.

use vstd::prelude::*;

verus! {

/// A number between 1 and 100 inclusive.
#[derive(Clone, Copy, Debug, PartialEq, Eq, Structural)]
pub struct Guess {
    value: i32,
}

impl Guess {
    /// The number the guess holds.
    pub closed spec fn spec_value(&self) -> int {
        self.value as int
    }

    #[verifier::type_invariant]
    spec fn in_range(self) -> bool {
        1 <= self.value <= 100
    }

    /// Wraps a number as a guess; numbers outside 1 to 100 are not guesses.
    pub fn new(value: i32) -> (g: Guess)
        requires
            1 <= value <= 100,
        ensures
            g.spec_value() == value,
    {
        Guess { value }
    }

    /// Reads the number back; it is always between 1 and 100.
    pub fn value(&self) -> (v: i32)
        ensures
            v == self.spec_value(),
            1 <= v <= 100,
    {
        proof {
            use_type_invariant(self);
        }
        self.value
    }
}

} // verus!
