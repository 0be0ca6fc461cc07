//! Binary search over a monotone test on indices.
//!
//! Both the segment lookup of a piecewise curve (which cut range holds a
//! parameter) and the arc-length table lookup (the last entry not above a
//! target length) search a non-decreasing table for the last index whose
//! entry is at most a target. The comparison itself is made by the caller.
use vstd::prelude::*;

verus! {

/// The test says yes at index `i`.
pub open spec fn passes<F: Fn(usize) -> bool>(test: &F, i: usize) -> bool {
    test.ensures((i,), true)
}

/// Finds the last of the indices `0..n` at which `test` passes, where the
/// indices that pass come first; gives 0 when none passes. `test` must give
/// one answer per index.
pub fn last_index_where<F: Fn(usize) -> bool>(n: usize, test: &F) -> (r: usize)
    requires
        n > 0,
        forall|i: usize| i < n ==> #[trigger] test.requires((i,)),
        forall|i: usize, b: bool| i < n && #[trigger] test.ensures((i,), b) ==> b == passes(test, i),
        forall|i: usize, j: usize| i <= j < n && #[trigger] passes(test, j) ==> #[trigger] passes(test, i),
    ensures
        r < n,
        r > 0 ==> passes(test, r),
        r + 1 < n ==> !passes(test, (r + 1) as usize),
        forall|j: usize| r < j < n ==> !#[trigger] passes(test, j),
        r > 0 ==> forall|j: usize| j <= r ==> #[trigger] passes(test, j),
{
    let mut lo: usize = 0;
    let mut hi: usize = n;
    while hi - lo > 1
        invariant
            lo < hi <= n,
            lo > 0 ==> passes(test, lo),
            hi < n ==> !passes(test, hi),
            forall|i: usize| i < n ==> #[trigger] test.requires((i,)),
            forall|i: usize, b: bool| i < n && #[trigger] test.ensures((i,), b) ==> b == passes(test, i),
        decreases hi - lo,
    {
        let mid = lo + (hi - lo) / 2;
        if test(mid) {
            lo = mid;
        } else {
            hi = mid;
        }
    }
    assert forall|j: usize| lo < j < n implies !#[trigger] passes(test, j) by {
        if passes(test, j) {
            assert(passes(test, hi));
        }
    }
    lo
}

/// `r` is what `last_index_where(n, test)` may return.
pub open spec fn is_last_index<F: Fn(usize) -> bool>(n: usize, test: &F, r: usize) -> bool {
    &&& r < n
    &&& r > 0 ==> passes(test, r)
    &&& forall|j: usize| r < j < n ==> !#[trigger] passes(test, j)
}

/// The search is monotone in its test: where every index that passes the
/// first test also passes the second (a smaller target against the same
/// non-decreasing table), the first search ends no later than the second.
pub proof fn lemma_search_monotone<F: Fn(usize) -> bool, G: Fn(usize) -> bool>(
    n: usize,
    first: &F,
    second: &G,
    r1: usize,
    r2: usize,
)
    requires
        forall|i: usize| i < n && #[trigger] passes(first, i) ==> passes(second, i),
        is_last_index(n, first, r1),
        is_last_index(n, second, r2),
    ensures
        r1 <= r2,
{
    if r1 > r2 {
        assert(passes(first, r1));
        assert(passes(second, r1));
    }
}

} // verus!
