//! The first answer of a scan over positions, as a spec function.

use vstd::prelude::*;

verus! {

/// The first `Some` among `f(i), f(i + 1), ..., f(n - 1)`.
pub open spec fn first_some_from<T>(i: int, n: int, f: spec_fn(int) -> Option<T>) -> Option<T>
    decreases n - i,
{
    if i >= n {
        None
    } else {
        match f(i) {
            Some(x) => Some(x),
            None => first_some_from(i + 1, n, f),
        }
    }
}

/// The first `Some` among `f(0), ..., f(n - 1)`.
pub open spec fn first_some<T>(n: int, f: spec_fn(int) -> Option<T>) -> Option<T> {
    first_some_from(0, n, f)
}

/// `a` if it is `Some`, else `b`.
pub open spec fn or_else<T>(a: Option<T>, b: Option<T>) -> Option<T> {
    match a {
        Some(x) => Some(x),
        None => b,
    }
}

/// The first answer is `None` exactly when every position answers `None`.
pub proof fn lemma_first_some_none<T>(i: int, n: int, f: spec_fn(int) -> Option<T>)
    ensures
        first_some_from(i, n, f) is None <==> (forall|j: int| i <= j < n ==> #[trigger] f(j) is None),
    decreases n - i,
{
    if i < n {
        lemma_first_some_none(i + 1, n, f);
        if f(i) is None {
            assert forall|j: int| i <= j < n && (forall|k: int| i + 1 <= k < n ==> #[trigger] f(k) is None)
                implies #[trigger] f(j) is None by {
                if j > i {
                    assert(f(j) is None);
                }
            }
        }
    }
}

/// The values of the `Some`s among `f(0), ..., f(n - 1)`, in order.
pub open spec fn somes<T>(n: int, f: spec_fn(int) -> Option<T>) -> Seq<T>
    decreases n,
{
    if n <= 0 {
        Seq::empty()
    } else {
        let rest = somes(n - 1, f);
        match f(n - 1) {
            Some(x) => rest.push(x),
            None => rest,
        }
    }
}

} // verus!
