//! What calls of a function can result in, as a relation.

use vstd::prelude::*;

verus! {

/// Which results a call of `f` with a given argument can have.
pub open spec fn outcomes_1<X, Y, F: Fn(X) -> Y>(f: F) -> spec_fn(X, Y) -> bool {
    |x: X, y: Y| call_ensures(f, (x,), y)
}

/// Which results a call of `f` with a given argument, lent to it, can have.
pub open spec fn outcomes_of_view<X, Y, F: Fn(&X) -> Y>(f: F) -> spec_fn(X, Y) -> bool {
    |x: X, y: Y| call_ensures(f, (&x,), y)
}

/// Which results a call of `f` with two given arguments can have.
pub open spec fn outcomes_2<W, X, Y, F: Fn(W, X) -> Y>(f: F) -> spec_fn(W, X, Y) -> bool {
    |w: W, x: X, y: Y| call_ensures(f, (w, x), y)
}

/// Whether each argument has one outcome at most.
pub open spec fn single_1<X, Y>(outcomes: spec_fn(X, Y) -> bool) -> bool {
    forall|x: X, a: Y, b: Y| #[trigger] outcomes(x, a) && #[trigger] outcomes(x, b) ==> a == b
}

/// Whether each two arguments have one outcome at most.
pub open spec fn single_2<W, X, Y>(outcomes: spec_fn(W, X, Y) -> bool) -> bool {
    forall|w: W, x: X, a: Y, b: Y| #[trigger]
        outcomes(w, x, a) && #[trigger] outcomes(w, x, b) ==> a == b
}

/// Whether a clone is always equal to what it was made from.
pub open spec fn clones_are_equal<P: Clone>() -> bool {
    forall|p: P, copy: P| #[trigger] cloned(p, copy) ==> copy == p
}

} // verus!
