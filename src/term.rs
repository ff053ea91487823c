use vstd::prelude::*;
use std::rc::Rc;

verus! {

/// A program of the combinator language, as a tree.
///
/// Sub-terms are shared through `Rc`, so a machine can keep a handle on a
/// sub-term without copying it.
pub enum Term {
    I,
    S,
    K,
    V,
    D,
    C,
    R,
    Put(char),
    App(Rc<Term>, Rc<Term>),
}

/// Builds the application of `a` to `b`.
pub fn app(a: Term, b: Term) -> (r: Term)
    ensures
        r == Term::App(Rc::new(a), Rc::new(b)),
{
    Term::App(Rc::new(a), Rc::new(b))
}

} // verus!
