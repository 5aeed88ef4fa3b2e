//! Bracketed use of a resource: an acquire step, a use step, and a release
//! step that always runs after a successful acquire, with errors from the
//! use and release steps combined.

use vstd::prelude::*;

verus! {

use crate::semigroup::Semigroup;

/// How the outcome of the use step and the outcome of the release step are
/// reported as one result: the first error wins, two errors combine.
pub open spec fn joined_outcome<T2, E: Semigroup>(
    f_result: Result<T2, E>,
    close_result: Result<(), E>,
    out: Result<T2, E>,
) -> bool {
    match (f_result, close_result) {
        (Ok(v), Ok(_)) => out == Ok::<T2, E>(v),
        (Ok(_), Err(e)) => out == Err::<T2, E>(e),
        (Err(e), Ok(_)) => out == Err::<T2, E>(e),
        (Err(e0), Err(e1)) => out matches Err(e) && e0.combined(e1, e),
    }
}

/// A resource defined by how to acquire it and how to release it.  Nothing
/// runs until a caller uses the value.
#[verifier::reject_recursive_types(T)]
#[verifier::reject_recursive_types(E)]
pub struct Resource<T, E, Init, Close> where
    Init: Fn() -> Result<T, E>,
    Close: Fn(&T) -> Result<(), E>,
 {
    init: Init,
    close: Close,
}

impl<T, E, Init, Close> Resource<T, E, Init, Close> where
    Init: Fn() -> Result<T, E>,
    Close: Fn(&T) -> Result<(), E>,
    E: Semigroup,
 {
    /// The acquire step.
    pub closed spec fn init_of(self) -> Init {
        self.init
    }

    /// The release step.
    pub closed spec fn close_of(self) -> Close {
        self.close
    }

    /// Package an acquire and a release step; neither runs yet.
    pub fn new(init: Init, close: Close) -> (r: Resource<T, E, Init, Close>)
        ensures
            r.init_of() == init,
            r.close_of() == close,
    {
        Resource { init, close }
    }

    /// Acquire the value, feed it to `f`, then release it.  A failed
    /// acquire is returned as it is and nothing else runs; otherwise the
    /// release step always runs, even when `f` fails, and the outcomes are
    /// joined with the first error winning and two errors combining.
    pub fn use_value<T2, F: FnOnce(&T) -> Result<T2, E>>(&self, f: F) -> (r: Result<T2, E>)
        requires
            call_requires(self.init_of(), ()),
            forall|v: &T|
                #[trigger] call_ensures(self.init_of(), (), Ok::<T, E>(*v)) ==> call_requires(
                    f,
                    (v,),
                ) && call_requires(self.close_of(), (v,)),
        ensures
            exists|ir: Result<T, E>|
                {
                    &&& #[trigger] call_ensures(self.init_of(), (), ir)
                    &&& match ir {
                        Err(e) => r == Err::<T2, E>(e),
                        Ok(v) => exists|fr: Result<T2, E>, cr: Result<(), E>|
                            {
                                &&& #[trigger] call_ensures(f, (&v,), fr)
                                &&& #[trigger] call_ensures(self.close_of(), (&v,), cr)
                                &&& joined_outcome(fr, cr, r)
                            },
                    }
                },
    {
        match (self.init)() {
            Ok(value) => {
                let f_result = f(&value);
                let close_result = (self.close)(&value);
                match (f_result, close_result) {
                    (Ok(v), Ok(_)) => Ok(v),
                    (Ok(_), Err(e)) => Err(e),
                    (Err(e), Ok(_)) => Err(e),
                    (Err(e0), Err(e1)) => Err(e0.combine(e1)),
                }
            },
            Err(err) => Err(err),
        }
    }
}

} // verus!
