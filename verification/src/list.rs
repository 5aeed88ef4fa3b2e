//! An immutable, structurally shared cons list: pushing builds a new head
//! cell pointing at the old list, so many lists can share one tail.
//!
//! The cells themselves are immutable.  A variant whose heads are shared
//! mutable slots (`Rc<RefCell<..>>`), observable through reference counts,
//! is deliberately absent: reasoning about `RefCell` borrows and `Rc`
//! strong counts is outside what the verifier's standard library specifies,
//! so such a list could not carry honest contracts here.

use vstd::prelude::*;

verus! {

use std::rc::Rc;

/// A list: empty, or a shared cons cell.
#[derive(Debug, PartialEq)]
pub enum List<T> {
    Nil,
    ConsRef(Rc<Cons<T>>),
}

/// One cell: a head element and the shared rest of the list.
#[derive(Debug, PartialEq)]
pub struct Cons<T> {
    pub head: T,
    pub tail: Rc<List<T>>,
}

impl<T> List<T> {
    /// The elements, front first.
    pub open spec fn elems(self) -> Seq<T>
        decreases self,
    {
        match self {
            List::Nil => Seq::empty(),
            List::ConsRef(cons) => seq![cons.head] + cons.tail.elems(),
        }
    }

    /// The empty list.
    pub fn nil() -> (r: List<T>)
        ensures
            r.elems() == Seq::<T>::empty(),
    {
        List::Nil
    }

    /// A new list with `head` in front of this one.
    pub fn push(self, head: T) -> (r: List<T>)
        ensures
            r.elems() == seq![head] + self.elems(),
    {
        List::ConsRef(Rc::new(Cons { head, tail: Rc::new(self) }))
    }

    /// The first cell, if there is one, sharing its allocation.
    pub fn pop(&self) -> (r: Option<Rc<Cons<T>>>)
        ensures
            (r is None) == (self.elems().len() == 0),
            r matches Some(cons) ==> seq![cons.head] + cons.tail.elems() == self.elems(),
    {
        match &self {
            List::Nil => None,
            List::ConsRef(cons) => Some(Rc::clone(cons)),
        }
    }
}

impl<T: Copy> List<T> {
    /// The elements copied out, front first.
    pub fn items(&self) -> (r: Vec<T>)
        ensures
            r@ == self.elems(),
    {
        let mut out: Vec<T> = Vec::new();
        let mut cur: &List<T> = self;
        loop
            invariant
                out@ + cur.elems() == self.elems(),
            decreases cur.elems().len(),
        {
            match cur {
                List::Nil => {
                    proof {
                        assert(out@ + cur.elems() =~= out@);
                    }
                    return out;
                },
                List::ConsRef(cons) => {
                    out.push(cons.head);
                    proof {
                        assert(out@ + cons.tail.elems() =~= self.elems());
                    }
                    cur = &cons.tail;
                },
            }
        }
    }
}

/// Building lists by consing an element onto a tail.
pub trait CanBeConned<T>: Sized {
    /// The element `self` stands for.
    spec fn as_elem(self) -> T;

    /// `self` in front of `tail`.
    fn cons(self, tail: List<T>) -> (r: List<T>)
        ensures
            r.elems() == seq![self.as_elem()] + tail.elems(),
    ;

    /// The one-element list holding `self`.
    fn nil(self) -> (r: List<T>)
        ensures
            r.elems() == seq![self.as_elem()],
    ;
}

impl<T> CanBeConned<T> for T {
    open spec fn as_elem(self) -> T {
        self
    }

    fn cons(self, tail: List<T>) -> (r: List<T>) {
        tail.push(self)
    }

    fn nil(self) -> (r: List<T>) {
        let r = self.cons(List::Nil);
        proof {
            assert(seq![r.elems()[0]] + Seq::<T>::empty() =~= seq![r.elems()[0]]);
            assert(r.elems() =~= seq![self.as_elem()]);
        }
        r
    }
}

} // verus!
