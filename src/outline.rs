//! How the points of an outline contour pair up into curve segments.
use vstd::prelude::*;
use crate::handles::StrokeError;

verus! {

/// The point pairs that form the segments of a contour of `n` points: each
/// point with the next, and, unless the contour is open (its first point is a
/// move), the last point with the first.
pub open spec fn contour_pairs(n: int, open: bool) -> Seq<(usize, usize)> {
    let count = if open { n - 1 } else { n };
    Seq::new(count as nat, |k: int| (k as usize, if k + 1 < n { (k + 1) as usize } else { 0usize }))
}

/// The segments of a contour of `n` points, as pairs of point indices (see
/// `contour_pairs`). A contour without points has no segments to make.
pub fn contour_segments(n: usize, open: bool) -> (r: Result<Vec<(usize, usize)>, StrokeError>)
    ensures
        n == 0 <==> r is Err,
        r matches Err(e) ==> e == StrokeError::EmptyCurve,
        r matches Ok(pairs) ==> pairs@ == contour_pairs(n as int, open),
{
    if n == 0 {
        return Err(StrokeError::EmptyCurve);
    }
    let count: usize = if open { n - 1 } else { n };
    let mut pairs: Vec<(usize, usize)> = Vec::new();
    let mut k: usize = 0;
    while k < count
        invariant
            0 < n,
            count == (if open { n - 1 } else { n as int }),
            k <= count,
            pairs@ == contour_pairs(n as int, open).subrange(0, k as int),
        decreases count - k,
    {
        let next: usize = if k + 1 < n { k + 1 } else { 0 };
        pairs.push((k, next));
        k = k + 1;
        assert(pairs@ =~= contour_pairs(n as int, open).subrange(0, k as int));
    }
    assert(pairs@ =~= contour_pairs(n as int, open));
    Ok(pairs)
}

} // verus!
