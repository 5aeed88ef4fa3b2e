//! A bounded guessing game: a secret between fixed bounds, guesses that are
//! validated against the bounds, and a three-way comparison.

use vstd::prelude::*;

verus! {

use crate::rng::random_i8_range;

/// The smallest value a secret or guess may take.
pub const MIN: i32 = 1;

/// The largest value a secret or guess may take.
pub const MAX: i32 = 20;

/// Why a guess was rejected.
#[derive(Debug, Clone, Copy, PartialEq, Eq, Structural)]
pub enum OutOfBounds {
    TooSmall { min: i32 },
    TooBig { max: i32 },
}

/// How a guess compares to the secret.
#[derive(Debug, Clone, Copy, PartialEq, Eq, Structural)]
pub enum IsSecret {
    Yes,
    Less,
    Greater,
}

/// The number to be guessed, always within the bounds.
#[derive(Debug)]
pub struct Secret(i32);

impl Secret {
    /// A secret always lies within the bounds.
    #[verifier::type_invariant]
    spec fn wf(self) -> bool {
        MIN <= self.0 <= MAX
    }

    /// The secret's value.
    pub closed spec fn spec_value(self) -> i32 {
        self.0
    }

    /// Draw a fresh secret; whatever comes out lies within the bounds.
    pub fn random() -> (r: Secret)
        ensures
            MIN <= r.spec_value() <= MAX,
    {
        let draw = random_i8_range(1, 21);
        Secret(draw as i32)
    }

    /// Read the secret's value back.
    pub fn value(&self) -> (r: i32)
        ensures
            r == self.spec_value(),
    {
        self.0
    }
}

/// A validated guess: only values within the bounds can be constructed.
#[derive(Debug)]
pub struct Guess {
    value: i32,
}

impl Guess {
    /// The guessed value.
    pub closed spec fn spec_value(self) -> i32 {
        self.value
    }

    /// Validate a guess: a value below the bounds is rejected as too small,
    /// one above as too big, and anything in between is accepted unchanged.
    pub fn new(value: i32) -> (r: Result<Guess, OutOfBounds>)
        ensures
            value < MIN ==> r == Err::<Guess, OutOfBounds>(OutOfBounds::TooSmall { min: MIN }),
            value > MAX ==> r == Err::<Guess, OutOfBounds>(OutOfBounds::TooBig { max: MAX }),
            MIN <= value <= MAX ==> (r matches Ok(g) && g.spec_value() == value),
    {
        if value < MIN {
            Err(OutOfBounds::TooSmall { min: MIN })
        } else if value > MAX {
            Err(OutOfBounds::TooBig { max: MAX })
        } else {
            Ok(Guess { value })
        }
    }

    /// Compare the guess to the secret.
    pub fn is(&self, s: &Secret) -> (r: IsSecret)
        ensures
            self.spec_value() == s.spec_value() ==> r == IsSecret::Yes,
            self.spec_value() > s.spec_value() ==> r == IsSecret::Greater,
            self.spec_value() < s.spec_value() ==> r == IsSecret::Less,
    {
        let sv = s.value();
        if self.value == sv {
            IsSecret::Yes
        } else if self.value > sv {
            IsSecret::Greater
        } else {
            IsSecret::Less
        }
    }
}

} // verus!
