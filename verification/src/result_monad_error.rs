//! Monad-style combinators over `Result` that convert the callback's error
//! type into the caller's through `Into`, so fallible steps with different
//! error types can be chained.

use vstd::prelude::*;

verus! {

use vstd::std_specs::convert::IntoSpec;

/// Combinators over a fallible value that absorb foreign error types.
pub trait ResultMonadError<T0, E0>: Sized {
    /// The fallible value the combinators act on.
    spec fn res_spec(self) -> Result<T0, E0>;

    /// Feed the value, if any, to a continuation whose error converts into
    /// this one's.
    fn flat_map<T1, E1: Into<E0>, F: FnOnce(T0) -> Result<T1, E1>>(self, f: F) -> (r: Result<
        T1,
        E0,
    >)
        requires
            self.res_spec() matches Ok(v) ==> call_requires(f, (v,)),
        ensures
            self.res_spec() matches Ok(v) ==> exists|o: Result<T1, E1>|
                {
                    &&& #[trigger] call_ensures(f, (v,), o)
                    &&& (o matches Ok(t1) ==> r == Ok::<T1, E0>(t1))
                    &&& (o matches Err(e1) ==> (r matches Err(e0)
                        && (<E1 as IntoSpec<E0>>::obeys_into_spec() ==> e0 == e1.into_spec())))
                },
            self.res_spec() matches Err(e) ==> r == Err::<T1, E0>(e),
    ;

    /// Transform the value, if any.
    fn map<T1, F: FnOnce(T0) -> T1>(self, f: F) -> (r: Result<T1, E0>)
        requires
            self.res_spec() matches Ok(v) ==> call_requires(f, (v,)),
        ensures
            self.res_spec() matches Ok(v) ==> (r matches Ok(y) && call_ensures(f, (v,), y)),
            self.res_spec() matches Err(e) ==> r == Err::<T1, E0>(e),
    ;

    /// Pair the value with the outcome of a fallible function of it.
    fn m_product<T1, E1: Into<E0>, F: FnOnce(&T0) -> Result<T1, E1>>(self, f: F) -> (r: Result<
        (T0, T1),
        E0,
    >)
        requires
            self.res_spec() matches Ok(v) ==> call_requires(f, (&v,)),
        ensures
            self.res_spec() matches Ok(v) ==> exists|o: Result<T1, E1>|
                {
                    &&& #[trigger] call_ensures(f, (&v,), o)
                    &&& (o matches Ok(t1) ==> r == Ok::<(T0, T1), E0>((v, t1)))
                    &&& (o matches Err(e1) ==> (r matches Err(e0)
                        && (<E1 as IntoSpec<E0>>::obeys_into_spec() ==> e0 == e1.into_spec())))
                },
            self.res_spec() matches Err(e) ==> r == Err::<(T0, T1), E0>(e),
    ;

    /// Pair the value with a function of it.
    fn f_product<T1, F: FnOnce(&T0) -> T1>(self, f: F) -> (r: Result<(T0, T1), E0>)
        requires
            self.res_spec() matches Ok(v) ==> call_requires(f, (&v,)),
        ensures
            self.res_spec() matches Ok(v) ==> (r matches Ok(p) && p.0 == v && call_ensures(
                f,
                (&v,),
                p.1,
            )),
            self.res_spec() matches Err(e) ==> r == Err::<(T0, T1), E0>(e),
    ;

    /// Pair two fallible values; the first error wins, converted if it is
    /// the other's.
    fn product<T1, E1: Into<E0>>(self, other: Result<T1, E1>) -> (r: Result<(T0, T1), E0>)
        ensures
            self.res_spec() matches Ok(a) ==> other matches Ok(b) ==> r == Ok::<(T0, T1), E0>(
                (a, b),
            ),
            self.res_spec() matches Ok(a) ==> other matches Err(e1) ==> (r matches Err(e0) && (<
            E1 as IntoSpec<E0>>::obeys_into_spec() ==> e0 == e1.into_spec())),
            self.res_spec() matches Err(e) ==> r == Err::<(T0, T1), E0>(e),
    ;

    /// Replace the value, if any, by a fresh one.
    fn m_as<T1, F: FnOnce() -> T1>(self, f: F) -> (r: Result<T1, E0>)
        requires
            self.res_spec() is Ok ==> call_requires(f, ()),
        ensures
            self.res_spec() is Ok ==> (r matches Ok(y) && call_ensures(f, (), y)),
            self.res_spec() matches Err(e) ==> r == Err::<T1, E0>(e),
    ;

    /// Keep only whether the computation succeeded.
    fn void(self) -> (r: Result<(), E0>)
        ensures
            self.res_spec() is Ok ==> r == Ok::<(), E0>(()),
            self.res_spec() matches Err(e) ==> r == Err::<(), E0>(e),
    ;
}

impl<T0, E0> ResultMonadError<T0, E0> for Result<T0, E0> {
    open spec fn res_spec(self) -> Result<T0, E0> {
        self
    }

    fn flat_map<T1, E1: Into<E0>, F: FnOnce(T0) -> Result<T1, E1>>(self, f: F) -> (r: Result<
        T1,
        E0,
    >) {
        match self {
            Ok(v) => match f(v) {
                Ok(t1) => Ok(t1),
                Err(e1) => Err(e1.into()),
            },
            Err(e) => Err(e),
        }
    }

    fn map<T1, F: FnOnce(T0) -> T1>(self, f: F) -> (r: Result<T1, E0>) {
        match self {
            Ok(v) => Ok(f(v)),
            Err(e) => Err(e),
        }
    }

    fn m_product<T1, E1: Into<E0>, F: FnOnce(&T0) -> Result<T1, E1>>(self, f: F) -> (r: Result<
        (T0, T1),
        E0,
    >) {
        match self {
            Ok(v) => match f(&v) {
                Ok(t1) => Ok((v, t1)),
                Err(e1) => Err(e1.into()),
            },
            Err(e) => Err(e),
        }
    }

    fn f_product<T1, F: FnOnce(&T0) -> T1>(self, f: F) -> (r: Result<(T0, T1), E0>) {
        match self {
            Ok(v) => {
                let t1 = f(&v);
                Ok((v, t1))
            },
            Err(e) => Err(e),
        }
    }

    fn product<T1, E1: Into<E0>>(self, other: Result<T1, E1>) -> (r: Result<(T0, T1), E0>) {
        match (self, other) {
            (Ok(a), Ok(b)) => Ok((a, b)),
            (Ok(_), Err(e1)) => Err(e1.into()),
            (Err(e), _) => Err(e),
        }
    }

    fn m_as<T1, F: FnOnce() -> T1>(self, f: F) -> (r: Result<T1, E0>) {
        match self {
            Ok(_) => Ok(f()),
            Err(e) => Err(e),
        }
    }

    fn void(self) -> (r: Result<(), E0>) {
        match self {
            Ok(_) => Ok(()),
            Err(e) => Err(e),
        }
    }
}

} // verus!
