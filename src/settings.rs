//! Plain configuration values shared with the application.
use vstd::prelude::*;

verus! {

/// Per-point data attached to output points; strokes attach none.
#[derive(Clone, Copy, Debug, PartialEq, Eq, Structural)]
pub struct PointData;

/// What a nib stroke reads: the nib outline file, the path outline file, and
/// whether progress messages are kept quiet.
#[derive(Clone, Debug)]
pub struct NibSettings {
    pub nib: String,
    pub path: String,
    pub quiet: bool,
}

/// The width handles of every contour of a constant-width stroke: contour `i`
/// with `point_counts[i]` points receives that many copies of `handle` and one
/// more, for the segment that closes it.
pub fn handles_per_contour<H: Copy>(point_counts: &Vec<usize>, handle: H) -> (r: Vec<Vec<H>>)
    requires
        forall|i: int| 0 <= i < point_counts@.len() ==> #[trigger] point_counts@[i] < usize::MAX,
    ensures
        r@.len() == point_counts@.len(),
        forall|i: int|
            0 <= i < r@.len() ==> #[trigger] r@[i]@ == Seq::new((point_counts@[i] + 1) as nat, |k: int| handle),
{
    let mut out: Vec<Vec<H>> = Vec::new();
    let mut c: usize = 0;
    while c < point_counts.len()
        invariant
            c <= point_counts@.len(),
            forall|i: int| 0 <= i < point_counts@.len() ==> #[trigger] point_counts@[i] < usize::MAX,
            out@.len() == c,
            forall|i: int|
                0 <= i < c ==> #[trigger] out@[i]@ == Seq::new((point_counts@[i] + 1) as nat, |k: int| handle),
        decreases point_counts@.len() - c,
    {
        let count = point_counts[c] + 1;
        let mut hs: Vec<H> = Vec::new();
        let mut k: usize = 0;
        while k < count
            invariant
                k <= count,
                hs@ == Seq::new(k as nat, |j: int| handle),
            decreases count - k,
        {
            hs.push(handle);
            k = k + 1;
            assert(hs@ =~= Seq::new(k as nat, |j: int| handle));
        }
        out.push(hs);
        c = c + 1;
    }
    out
}

} // verus!
