//! Monad-style combinators over `Result` with a fixed error channel: errors
//! pass through untouched, and each combinator's result is pinned to the
//! callback's contract.

use vstd::prelude::*;

verus! {

/// Combinators over a fallible value whose error type stays fixed.
pub trait ResultMonad<T0, E>: Sized {
    /// The fallible value the combinators act on.
    spec fn res_spec(self) -> Result<T0, E>;

    /// Feed the value, if any, to a fallible continuation.
    fn flat_map<T1, F: FnOnce(T0) -> Result<T1, E>>(self, f: F) -> (r: Result<T1, E>)
        requires
            self.res_spec() matches Ok(v) ==> call_requires(f, (v,)),
        ensures
            self.res_spec() matches Ok(v) ==> call_ensures(f, (v,), r),
            self.res_spec() matches Err(e) ==> r == Err::<T1, E>(e),
    ;

    /// Transform the value, if any.
    fn map<T1, F: FnOnce(T0) -> T1>(self, f: F) -> (r: Result<T1, E>)
        requires
            self.res_spec() matches Ok(v) ==> call_requires(f, (v,)),
        ensures
            self.res_spec() matches Ok(v) ==> (r matches Ok(y) && call_ensures(f, (v,), y)),
            self.res_spec() matches Err(e) ==> r == Err::<T1, E>(e),
    ;

    /// Pair the value with the outcome of a fallible function of it.
    fn m_product<T1, F: FnOnce(&T0) -> Result<T1, E>>(self, f: F) -> (r: Result<(T0, T1), E>)
        requires
            self.res_spec() matches Ok(v) ==> call_requires(f, (&v,)),
        ensures
            self.res_spec() matches Ok(v) ==> exists|o: Result<T1, E>|
                {
                    &&& #[trigger] call_ensures(f, (&v,), o)
                    &&& (o matches Ok(t1) ==> r == Ok::<(T0, T1), E>((v, t1)))
                    &&& (o matches Err(e) ==> r == Err::<(T0, T1), E>(e))
                },
            self.res_spec() matches Err(e) ==> r == Err::<(T0, T1), E>(e),
    ;

    /// Pair the value with a function of it.
    fn f_product<T1, F: FnOnce(&T0) -> T1>(self, f: F) -> (r: Result<(T0, T1), E>)
        requires
            self.res_spec() matches Ok(v) ==> call_requires(f, (&v,)),
        ensures
            self.res_spec() matches Ok(v) ==> (r matches Ok(p) && p.0 == v && call_ensures(
                f,
                (&v,),
                p.1,
            )),
            self.res_spec() matches Err(e) ==> r == Err::<(T0, T1), E>(e),
    ;

    /// Pair two fallible values; the first error wins.
    fn product<T1>(self, other: Result<T1, E>) -> (r: Result<(T0, T1), E>)
        ensures
            self.res_spec() matches Ok(a) ==> other matches Ok(b) ==> r == Ok::<(T0, T1), E>(
                (a, b),
            ),
            self.res_spec() matches Ok(a) ==> other matches Err(e) ==> r == Err::<(T0, T1), E>(e),
            self.res_spec() matches Err(e) ==> r == Err::<(T0, T1), E>(e),
    ;

    /// Replace the value, if any, by a fresh one.
    fn m_as<T1, F: FnOnce() -> T1>(self, f: F) -> (r: Result<T1, E>)
        requires
            self.res_spec() is Ok ==> call_requires(f, ()),
        ensures
            self.res_spec() is Ok ==> (r matches Ok(y) && call_ensures(f, (), y)),
            self.res_spec() matches Err(e) ==> r == Err::<T1, E>(e),
    ;

    /// Keep only whether the computation succeeded.
    fn void(self) -> (r: Result<(), E>)
        ensures
            self.res_spec() is Ok ==> r == Ok::<(), E>(()),
            self.res_spec() matches Err(e) ==> r == Err::<(), E>(e),
    ;
}

impl<T0, E> ResultMonad<T0, E> for Result<T0, E> {
    open spec fn res_spec(self) -> Result<T0, E> {
        self
    }

    fn flat_map<T1, F: FnOnce(T0) -> Result<T1, E>>(self, f: F) -> (r: Result<T1, E>) {
        match self {
            Ok(v) => f(v),
            Err(e) => Err(e),
        }
    }

    fn map<T1, F: FnOnce(T0) -> T1>(self, f: F) -> (r: Result<T1, E>) {
        match self {
            Ok(v) => Ok(f(v)),
            Err(e) => Err(e),
        }
    }

    fn m_product<T1, F: FnOnce(&T0) -> Result<T1, E>>(self, f: F) -> (r: Result<(T0, T1), E>) {
        match self {
            Ok(v) => match f(&v) {
                Ok(t1) => Ok((v, t1)),
                Err(e) => Err(e),
            },
            Err(e) => Err(e),
        }
    }

    fn f_product<T1, F: FnOnce(&T0) -> T1>(self, f: F) -> (r: Result<(T0, T1), E>) {
        match self {
            Ok(v) => {
                let t1 = f(&v);
                Ok((v, t1))
            },
            Err(e) => Err(e),
        }
    }

    fn product<T1>(self, other: Result<T1, E>) -> (r: Result<(T0, T1), E>) {
        match (self, other) {
            (Ok(a), Ok(b)) => Ok((a, b)),
            (Ok(_), Err(e)) => Err(e),
            (Err(e), _) => Err(e),
        }
    }

    fn m_as<T1, F: FnOnce() -> T1>(self, f: F) -> (r: Result<T1, E>) {
        match self {
            Ok(_) => Ok(f()),
            Err(e) => Err(e),
        }
    }

    fn void(self) -> (r: Result<(), E>) {
        match self {
            Ok(_) => Ok(()),
            Err(e) => Err(e),
        }
    }
}

} // verus!
