//! Assembly of the stroked contours from the two offset lines.
//!
//! The segment type `T` is the caller's; segments are moved, never inspected.
use vstd::prelude::*;
use crate::handles::StrokeError;

verus! {

/// Puts a line in the opposite order. The right offset line is built along
/// the path and must run back against it in the outline.
pub fn reverse_line<T>(line: Vec<T>) -> (r: Vec<T>)
    ensures
        r@ == line@.reverse(),
{
    let mut rest = line;
    let mut out: Vec<T> = Vec::new();
    let ghost given = rest@;
    while rest.len() > 0
        invariant
            rest@.len() <= given.len(),
            rest@ == given.subrange(0, rest@.len() as int),
            out@ == given.subrange(rest@.len() as int, given.len() as int).reverse(),
        decreases rest@.len(),
    {
        let seg = rest.pop().unwrap();
        out.push(seg);
        proof {
            assert(seg == given[rest@.len() as int]);
            assert(out@ =~= given.subrange(rest@.len() as int, given.len() as int).reverse());
        }
    }
    assert(out@ =~= given.reverse());
    out
}

/// Leaves out the segments that `skip` marks (the geometry marks those of no
/// length, which have no direction to offset along). `skip` has one mark per
/// segment.
pub fn drop_marked<T>(segs: Vec<T>, skip: &Vec<bool>) -> (r: Vec<T>)
    requires
        skip@.len() == segs@.len(),
    ensures
        r@ == kept(segs@, skip@),
{
    let mut rest = segs;
    let ghost given = rest@;
    let mut kept_rev: Vec<T> = Vec::new();
    while rest.len() > 0
        invariant
            rest@.len() <= given.len(),
            rest@ == given.subrange(0, rest@.len() as int),
            skip@.len() == given.len(),
            kept_rev@.reverse() == kept(
                given.subrange(rest@.len() as int, given.len() as int),
                skip@.subrange(rest@.len() as int, given.len() as int),
            ),
        decreases rest@.len(),
    {
        let seg = rest.pop().unwrap();
        let i = rest.len();
        proof {
            let s = given.subrange(i as int, given.len() as int);
            let m = skip@.subrange(i as int, given.len() as int);
            assert(s.drop_first() =~= given.subrange(i + 1, given.len() as int));
            assert(m.drop_first() =~= skip@.subrange(i + 1, given.len() as int));
            assert(s[0] == seg);
            assert(m[0] == skip@[i as int]);
        }
        if !skip[i] {
            let ghost old_rev = kept_rev@;
            kept_rev.push(seg);
            proof {
                assert(kept_rev@.reverse() =~= seq![seg] + old_rev.reverse());
            }
        }
    }
    assert(given.subrange(0, given.len() as int) =~= given);
    assert(skip@.subrange(0, given.len() as int) =~= skip@);
    reverse_line(kept_rev)
}

/// The segments of `segs` whose mark in `skip` is false, in order.
pub open spec fn kept<T>(segs: Seq<T>, skip: Seq<bool>) -> Seq<T>
    decreases segs.len(),
{
    if segs.len() == 0 || skip.len() == 0 {
        Seq::empty()
    } else {
        let rest = kept(segs.drop_first(), skip.drop_first());
        if skip[0] { rest } else { seq![segs[0]] + rest }
    }
}

/// The contours of a stroke along a closed path: the left line, then the
/// right line, each left out when its removal is asked for. Each line must
/// hold a segment.
pub fn closed_stroke<T>(
    left: Vec<T>,
    right: Vec<T>,
    remove_internal: bool,
    remove_external: bool,
) -> (r: Result<Vec<Vec<T>>, StrokeError>)
    ensures
        r is Err <==> left@.len() == 0 || right@.len() == 0,
        r matches Err(e) ==> e == StrokeError::EmptyCurve,
        r matches Ok(cs) ==> {
            &&& cs@.len() == (if remove_internal { 0int } else { 1 }) + (if remove_external { 0int } else { 1 })
            &&& !remove_internal ==> cs@[0]@ == left@
            &&& !remove_external ==> cs@.last()@ == right@
        },
{
    if left.len() == 0 || right.len() == 0 {
        return Err(StrokeError::EmptyCurve);
    }
    let mut out: Vec<Vec<T>> = Vec::new();
    if !remove_internal {
        out.push(left);
    }
    if !remove_external {
        out.push(right);
    }
    Ok(out)
}

/// The single contour of a stroke along an open path: the left line, the
/// cap across its end, the right line coming back, and the cap across the
/// start that closes the contour. Each line must hold a segment.
pub fn open_stroke<T>(left: Vec<T>, end_cap: Vec<T>, right: Vec<T>, start_cap: Vec<T>) -> (r: Result<
    Vec<Vec<T>>,
    StrokeError,
>)
    ensures
        r is Err <==> left@.len() == 0 || right@.len() == 0,
        r matches Err(e) ==> e == StrokeError::EmptyCurve,
        r matches Ok(cs) ==> cs@.len() == 1 && cs@[0]@ == left@ + end_cap@ + right@ + start_cap@,
{
    if left.len() == 0 || right.len() == 0 {
        return Err(StrokeError::EmptyCurve);
    }
    let mut contour = left;
    let mut end_cap = end_cap;
    let mut right = right;
    let mut start_cap = start_cap;
    contour.append(&mut end_cap);
    contour.append(&mut right);
    contour.append(&mut start_cap);
    let mut out: Vec<Vec<T>> = Vec::new();
    out.push(contour);
    Ok(out)
}

} // verus!
