//! An associative combine operation, with instances for strings (which
//! concatenate), pairs (componentwise), and results (errors accumulate).

use vstd::prelude::*;

verus! {

/// A type whose values can be combined.  Each instance says, as a relation,
/// what the combination of two values is.
pub trait Semigroup: Sized {
    /// What it means for `out` to be the combination of `self` and `rhs`.
    spec fn combined(self, rhs: Self, out: Self) -> bool;

    /// Combine two values.
    fn combine(self, rhs: Self) -> (r: Self)
        ensures
            self.combined(rhs, r),
    ;
}

impl Semigroup for String {
    /// Strings combine by concatenation.
    open spec fn combined(self, rhs: String, out: String) -> bool {
        out@ == self@ + rhs@
    }

    fn combine(self, rhs: String) -> (r: String) {
        self.concat(rhs.as_str())
    }
}

impl<L: Semigroup, R: Semigroup> Semigroup for (L, R) {
    /// Pairs combine componentwise.
    open spec fn combined(self, rhs: (L, R), out: (L, R)) -> bool {
        self.0.combined(rhs.0, out.0) && self.1.combined(rhs.1, out.1)
    }

    fn combine(self, rhs: (L, R)) -> (r: (L, R)) {
        (self.0.combine(rhs.0), self.1.combine(rhs.1))
    }
}

impl<T: Semigroup, E: Semigroup> Semigroup for Result<T, E> {
    /// Two successes combine their values; errors win over successes and
    /// combine with each other.
    open spec fn combined(self, rhs: Result<T, E>, out: Result<T, E>) -> bool {
        match (self, rhs) {
            (Ok(l), Ok(r2)) => out matches Ok(o) && l.combined(r2, o),
            (Ok(_), Err(e)) => out matches Err(oe) && oe == e,
            (Err(l), Ok(_)) => out matches Err(oe) && oe == l,
            (Err(l), Err(r2)) => out matches Err(oe) && l.combined(r2, oe),
        }
    }

    fn combine(self, rhs: Result<T, E>) -> (r: Result<T, E>) {
        match self {
            Ok(l) => match rhs {
                Ok(r2) => Ok(l.combine(r2)),
                Err(e) => Err(e),
            },
            Err(l) => match rhs {
                Ok(_) => Err(l),
                Err(r2) => Err(l.combine(r2)),
            },
        }
    }
}

} // verus!
