//! The width profile of one side: offset pieces over the path's parameter.
use vstd::prelude::*;
use crate::handles::{InterpolationType, InternalVWSHandle};

verus! {

/// A boundary between two pieces of a width profile.
#[derive(Clone, Copy, Debug)]
pub enum Cut<N> {
    /// The start of the path, parameter 0.
    Start,
    /// The position of a handle.
    At(N),
    /// The end of the path, parameter 1.
    End,
}

/// One piece of a width profile: an offset that goes from `start` to `finish`
/// in the manner `kind`.
#[derive(Clone, Copy, Debug)]
pub struct Interpolator<N> {
    pub start: N,
    pub finish: N,
    pub kind: InterpolationType,
}

/// Piece `i` covers the parameters from `cuts[i]` to `cuts[i + 1]`.
#[derive(Clone, Debug)]
pub struct WidthProfile<N> {
    pub segs: Vec<Interpolator<N>>,
    pub cuts: Vec<Cut<N>>,
}

/// A profile ends in a flat piece that carries the last offset on to the end
/// of the path when its last handle stops short of the end, and when there is
/// a single handle.
pub open spec fn has_flat_end(n: int, reaches_end: bool) -> bool {
    n == 1 || !reaches_end
}

/// The piece from handle `i` to handle `i + 1`.
pub open spec fn piece_between<N>(hs: Seq<InternalVWSHandle<N>>, i: int) -> Interpolator<N> {
    Interpolator { start: hs[i].offset, finish: hs[i + 1].offset, kind: hs[i].interpolation }
}

/// The flat piece that holds the offset of `h`.
pub open spec fn flat_piece<N>(h: InternalVWSHandle<N>) -> Interpolator<N> {
    Interpolator { start: h.offset, finish: h.offset, kind: h.interpolation }
}

/// The pieces of the profile of handles `hs`: one between each two
/// consecutive handles, then the flat end piece where there is one.
pub open spec fn profile_segs<N>(hs: Seq<InternalVWSHandle<N>>, reaches_end: bool) -> Seq<Interpolator<N>> {
    Seq::new((hs.len() - 1) as nat, |i: int| piece_between(hs, i)) + if has_flat_end(hs.len() as int, reaches_end) {
        seq![flat_piece(hs.last())]
    } else {
        Seq::empty()
    }
}

/// The number of handle positions that stand as inner cuts.
pub open spec fn inner_cut_count(n: int, reaches_end: bool) -> int {
    if has_flat_end(n, reaches_end) { n - 1 } else { n - 2 }
}

/// The cuts of the profile of handles `hs`: the first piece is anchored at the
/// start of the path whatever the first handle's position, each later handle
/// that begins a piece gives its position, and the last cut is the end of the
/// path.
pub open spec fn profile_cuts<N>(hs: Seq<InternalVWSHandle<N>>, reaches_end: bool) -> Seq<Cut<N>> {
    seq![Cut::Start] + Seq::new(
        inner_cut_count(hs.len() as int, reaches_end) as nat,
        |i: int| Cut::At(hs[i + 1].t),
    ) + seq![Cut::End]
}

/// Builds the width profile of one side from its handles, which are in order
/// of position. `reaches_end` tells whether the last handle stands at the end
/// of the path.
pub fn width_profile<N: Copy>(hs: &Vec<InternalVWSHandle<N>>, reaches_end: bool) -> (r: WidthProfile<N>)
    requires
        hs@.len() > 0,
    ensures
        r.segs@ == profile_segs(hs@, reaches_end),
        r.cuts@ == profile_cuts(hs@, reaches_end),
{
    let n = hs.len();
    let flat_end = n == 1 || !reaches_end;
    let mut segs: Vec<Interpolator<N>> = Vec::new();
    let mut cuts: Vec<Cut<N>> = Vec::new();
    cuts.push(Cut::Start);
    let inner: usize = if flat_end { n - 1 } else { n - 2 };
    let mut i: usize = 0;
    while i + 1 < n
        invariant
            n == hs@.len(),
            n > 0,
            flat_end == has_flat_end(n as int, reaches_end),
            inner == inner_cut_count(n as int, reaches_end),
            i + 1 <= n,
            segs@ == Seq::new(i as nat, |k: int| piece_between(hs@, k)),
            cuts@ == seq![Cut::Start] + Seq::new(
                if i < inner { i as nat } else { inner as nat },
                |k: int| Cut::At(hs@[k + 1].t),
            ),
        decreases n - i,
    {
        let h = hs[i];
        let next = hs[i + 1];
        segs.push(Interpolator { start: h.offset, finish: next.offset, kind: h.interpolation });
        if i < inner {
            cuts.push(Cut::At(next.t));
        }
        proof {
            assert(segs@ =~= Seq::new((i + 1) as nat, |k: int| piece_between(hs@, k)));
            assert(cuts@ =~= seq![Cut::Start] + Seq::new(
                if i + 1 < inner { (i + 1) as nat } else { inner as nat },
                |k: int| Cut::At(hs@[k + 1].t),
            ));
        }
        i = i + 1;
    }
    if flat_end {
        let last = hs[n - 1];
        segs.push(Interpolator { start: last.offset, finish: last.offset, kind: last.interpolation });
    }
    cuts.push(Cut::End);
    assert(segs@ =~= profile_segs(hs@, reaches_end));
    assert(cuts@ =~= profile_cuts(hs@, reaches_end));
    WidthProfile { segs, cuts }
}

/// A width profile starts at the path's start with the first handle's offset
/// and ends at the path's end with the last handle's offset, and it has one
/// cut more than it has pieces: handles that stop short of either end are
/// carried flat to it.
pub proof fn lemma_profile_boundaries<N>(hs: Seq<InternalVWSHandle<N>>, reaches_end: bool)
    requires
        hs.len() > 0,
    ensures
        profile_segs(hs, reaches_end).len() > 0,
        profile_cuts(hs, reaches_end).len() == profile_segs(hs, reaches_end).len() + 1,
        profile_cuts(hs, reaches_end)[0] is Start,
        profile_cuts(hs, reaches_end).last() is End,
        profile_segs(hs, reaches_end)[0].start == hs[0].offset,
        profile_segs(hs, reaches_end).last().finish == hs.last().offset,
{
    let segs = profile_segs(hs, reaches_end);
    if !has_flat_end(hs.len() as int, reaches_end) {
        assert(segs.last() == piece_between(hs, hs.len() - 2));
    }
}

} // verus!
