//! Monad-style combinators over `Option`, with each combinator's result
//! pinned to the callback's contract.

use vstd::prelude::*;

verus! {

/// Combinators over an optional value.
pub trait OptionMonad<T0>: Sized {
    /// The optional value the combinators act on.
    spec fn opt_spec(self) -> Option<T0>;

    /// Feed the value, if any, to a fallible continuation.
    fn flat_map<T1, F: FnOnce(T0) -> Option<T1>>(self, f: F) -> (r: Option<T1>)
        requires
            self.opt_spec() matches Some(v) ==> call_requires(f, (v,)),
        ensures
            self.opt_spec() matches Some(v) ==> call_ensures(f, (v,), r),
            self.opt_spec() is None ==> r is None,
    ;

    /// Transform the value, if any.
    fn map<T1, F: FnOnce(T0) -> T1>(self, f: F) -> (r: Option<T1>)
        requires
            self.opt_spec() matches Some(v) ==> call_requires(f, (v,)),
        ensures
            self.opt_spec() matches Some(v) ==> (r matches Some(y) && call_ensures(f, (v,), y)),
            self.opt_spec() is None ==> r is None,
    ;

    /// Pair the value with the outcome of a fallible function of it.
    fn m_product<T1, F: FnOnce(&T0) -> Option<T1>>(self, f: F) -> (r: Option<(T0, T1)>)
        requires
            self.opt_spec() matches Some(v) ==> call_requires(f, (&v,)),
        ensures
            self.opt_spec() matches Some(v) ==> exists|o: Option<T1>|
                {
                    &&& #[trigger] call_ensures(f, (&v,), o)
                    &&& (o matches Some(t1) ==> r == Some((v, t1)))
                    &&& (o is None ==> r is None)
                },
            self.opt_spec() is None ==> r is None,
    ;

    /// Pair the value with a function of it.
    fn f_product<T1, F: FnOnce(&T0) -> T1>(self, f: F) -> (r: Option<(T0, T1)>)
        requires
            self.opt_spec() matches Some(v) ==> call_requires(f, (&v,)),
        ensures
            self.opt_spec() matches Some(v) ==> (r matches Some(p) && p.0 == v && call_ensures(
                f,
                (&v,),
                p.1,
            )),
            self.opt_spec() is None ==> r is None,
    ;

    /// Pair two optional values; either absence wins.
    fn product<T1>(self, other: Option<T1>) -> (r: Option<(T0, T1)>)
        ensures
            self.opt_spec() matches Some(a) ==> other matches Some(b) ==> r == Some((a, b)),
            (self.opt_spec() is None || other is None) ==> r is None,
    ;

    /// Replace the value, if any, by a fresh one.
    fn m_as<T1, F: FnOnce() -> T1>(self, f: F) -> (r: Option<T1>)
        requires
            self.opt_spec() is Some ==> call_requires(f, ()),
        ensures
            self.opt_spec() is Some ==> (r matches Some(y) && call_ensures(f, (), y)),
            self.opt_spec() is None ==> r is None,
    ;

    /// Keep only whether a value was present.
    fn void(self) -> (r: Option<()>)
        ensures
            r == (if self.opt_spec() is Some {
                Some(())
            } else {
                None::<()>
            }),
    ;
}

impl<T0> OptionMonad<T0> for Option<T0> {
    open spec fn opt_spec(self) -> Option<T0> {
        self
    }

    fn flat_map<T1, F: FnOnce(T0) -> Option<T1>>(self, f: F) -> (r: Option<T1>) {
        match self {
            Some(v) => f(v),
            None => None,
        }
    }

    fn map<T1, F: FnOnce(T0) -> T1>(self, f: F) -> (r: Option<T1>) {
        match self {
            Some(v) => Some(f(v)),
            None => None,
        }
    }

    fn m_product<T1, F: FnOnce(&T0) -> Option<T1>>(self, f: F) -> (r: Option<(T0, T1)>) {
        match self {
            Some(v) => match f(&v) {
                Some(t1) => Some((v, t1)),
                None => None,
            },
            None => None,
        }
    }

    fn f_product<T1, F: FnOnce(&T0) -> T1>(self, f: F) -> (r: Option<(T0, T1)>) {
        match self {
            Some(v) => {
                let t1 = f(&v);
                Some((v, t1))
            },
            None => None,
        }
    }

    fn product<T1>(self, other: Option<T1>) -> (r: Option<(T0, T1)>) {
        match (self, other) {
            (Some(a), Some(b)) => Some((a, b)),
            _ => None,
        }
    }

    fn m_as<T1, F: FnOnce() -> T1>(self, f: F) -> (r: Option<T1>) {
        match self {
            Some(_) => Some(f()),
            None => None,
        }
    }

    fn void(self) -> (r: Option<()>) {
        match self {
            Some(_) => Some(()),
            None => None,
        }
    }
}

} // verus!
