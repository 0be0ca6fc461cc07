//! Width handles and the width profile built from them.
//!
//! A width handle sits at a position `t` along the path and may give an offset
//! for the left side, for the right side, or for both. The scalar type `N` of
//! positions and offsets is left to the caller (the geometry uses doubles);
//! nothing here computes with it, so every rule below holds for any `N`.
use vstd::prelude::*;

verus! {

/// How an offset changes between two handles.
#[derive(Clone, Copy, Debug, PartialEq, Eq, Structural)]
pub enum InterpolationType {
    /// Keeps the starting offset.
    Null,
    /// Moves linearly from the starting to the finishing offset.
    Linear,
}

/// One side of a stroke.
#[derive(Clone, Copy, Debug, PartialEq, Eq, Structural)]
pub enum Side {
    Left,
    Right,
}

/// Ways in which a stroke request cannot be carried out.
#[derive(Clone, Copy, Debug, PartialEq, Eq, Structural)]
pub enum StrokeError {
    /// A curve or an offset line that must hold segments holds none.
    EmptyCurve,
    /// No width handle gives an offset for this side.
    MissingHandleSide(Side),
    /// A segment has no length, so it has no direction to offset along.
    DegenerateSegment,
}

/// A width control point as the user writes it.
#[derive(Clone, Copy, Debug)]
pub struct VWSHandle<N> {
    pub t: N,
    pub left_offset: Option<N>,
    pub right_offset: Option<N>,
    pub interpolation: InterpolationType,
}

/// A width control point of one side only.
#[derive(Clone, Copy, Debug)]
pub struct InternalVWSHandle<N> {
    pub t: N,
    pub offset: N,
    pub interpolation: InterpolationType,
}

/// The offset that `h` gives for `side`, if any.
pub open spec fn offset_on<N>(h: VWSHandle<N>, side: Side) -> Option<N> {
    match side {
        Side::Left => h.left_offset,
        Side::Right => h.right_offset,
    }
}

/// The handles of one side, in the order given: each handle that has an
/// offset for `side` contributes its position, that offset and its
/// interpolation.
pub open spec fn side_handles<N>(hs: Seq<VWSHandle<N>>, side: Side) -> Seq<InternalVWSHandle<N>>
    decreases hs.len(),
{
    if hs.len() == 0 {
        Seq::empty()
    } else {
        let rest = side_handles(hs.drop_last(), side);
        let h = hs.last();
        match offset_on(h, side) {
            Some(o) => rest.push(InternalVWSHandle { t: h.t, offset: o, interpolation: h.interpolation }),
            None => rest,
        }
    }
}

fn push_side<N: Copy>(out: &mut Vec<InternalVWSHandle<N>>, h: VWSHandle<N>, offset: Option<N>)
    ensures
        final(out)@ == match offset {
            Some(o) => old(out)@.push(InternalVWSHandle { t: h.t, offset: o, interpolation: h.interpolation }),
            None => old(out)@,
        },
{
    if let Some(o) = offset {
        out.push(InternalVWSHandle { t: h.t, offset: o, interpolation: h.interpolation });
    }
}

/// Splits the handles into the left list and the right list. Each side must
/// receive at least one handle; a side with none is reported, the left side
/// first.
pub fn split_stroke_handles<N: Copy>(handles: &Vec<VWSHandle<N>>) -> (r: Result<
    [Vec<InternalVWSHandle<N>>; 2],
    StrokeError,
>)
    ensures
        side_handles(handles@, Side::Left).len() == 0 ==> r == Err::<[Vec<InternalVWSHandle<N>>; 2], StrokeError>(
            StrokeError::MissingHandleSide(Side::Left),
        ),
        side_handles(handles@, Side::Left).len() > 0 && side_handles(handles@, Side::Right).len() == 0
            ==> r == Err::<[Vec<InternalVWSHandle<N>>; 2], StrokeError>(
            StrokeError::MissingHandleSide(Side::Right),
        ),
        r is Ok <==> side_handles(handles@, Side::Left).len() > 0 && side_handles(handles@, Side::Right).len() > 0,
        r matches Ok(sides) ==> sides@[0]@ == side_handles(handles@, Side::Left)
            && sides@[1]@ == side_handles(handles@, Side::Right),
{
    let mut left_internal: Vec<InternalVWSHandle<N>> = Vec::new();
    let mut right_internal: Vec<InternalVWSHandle<N>> = Vec::new();
    let mut i: usize = 0;
    while i < handles.len()
        invariant
            i <= handles@.len(),
            left_internal@ == side_handles(handles@.subrange(0, i as int), Side::Left),
            right_internal@ == side_handles(handles@.subrange(0, i as int), Side::Right),
        decreases handles@.len() - i,
    {
        let h = handles[i];
        proof {
            let next = handles@.subrange(0, i + 1);
            assert(next.drop_last() =~= handles@.subrange(0, i as int));
            assert(next.last() == h);
        }
        push_side(&mut left_internal, h, h.left_offset);
        push_side(&mut right_internal, h, h.right_offset);
        i = i + 1;
    }
    assert(handles@.subrange(0, handles@.len() as int) =~= handles@);
    if left_internal.len() == 0 {
        return Err(StrokeError::MissingHandleSide(Side::Left));
    }
    if right_internal.len() == 0 {
        return Err(StrokeError::MissingHandleSide(Side::Right));
    }
    Ok([left_internal, right_internal])
}

} // verus!
