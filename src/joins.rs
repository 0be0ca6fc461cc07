//! Where joins go along an offset line.
//!
//! Offsetting the segments of a path one by one leaves gaps wherever the path
//! turns. The geometry layer looks at each junction (the end of one offset
//! segment and the start of the next) and says whether the two meet, or, when
//! they do not, whether the gap opens on the outside of the turn or closes on
//! its inside. This module decides from that which connecting pieces the line
//! receives and where.
use vstd::prelude::*;

verus! {

/// How the user asks for outside corners to be joined.
#[derive(Clone, Copy, Debug, PartialEq, Eq, Structural)]
pub enum JoinType {
    Round,
    Miter,
    Bevel,
}

/// What lies between the end of one offset segment and the start of the next.
#[derive(Clone, Copy, Debug, PartialEq, Eq, Structural)]
pub enum Junction {
    /// The two ends are within the small-distance tolerance of each other.
    Meets,
    /// The gap opens on the outside of the turn.
    Outside,
    /// The gap lies on the inside of the turn.
    Inside,
}

/// The connecting piece drawn across a gap.
#[derive(Clone, Copy, Debug, PartialEq, Eq, Structural)]
pub enum JoinKind {
    /// One cubic approximating a circular arc.
    Arc,
    /// Two straight lines through the point where the tangent rays meet (one
    /// straight line where they do not meet).
    Miter,
    /// One straight line.
    Bevel,
}

/// One step of an assembled offset line.
#[derive(Clone, Copy, Debug, PartialEq, Eq, Structural)]
pub enum PathStep {
    /// The offset segment with this index, as it is.
    Segment(usize),
    /// A join from the end of segment `from` to the start of segment `to`.
    Join { kind: JoinKind, from: usize, to: usize },
}

/// Segment `i` of `n` has a segment after it: the next one, or, on a closed
/// line, the first one after the last.
pub open spec fn has_successor(i: int, n: int, closed: bool) -> bool {
    i + 1 < n || closed
}

/// The segment that follows segment `i` of `n`.
pub open spec fn successor(i: int, n: int) -> int {
    if i + 1 < n { i + 1 } else { 0 }
}

/// The piece that closes a gap: an outside gap gets the requested style, an
/// inside gap always a bevel.
pub open spec fn join_kind(j: Junction, style: JoinType) -> JoinKind {
    match j {
        Junction::Outside => match style {
            JoinType::Round => JoinKind::Arc,
            JoinType::Miter => JoinKind::Miter,
            JoinType::Bevel => JoinKind::Bevel,
        },
        _ => JoinKind::Bevel,
    }
}

/// Junction `i` needs a join: there is a segment after `i` and the two do not
/// meet.
pub open spec fn needs_join(js: Seq<Junction>, i: int, closed: bool) -> bool {
    has_successor(i, js.len() as int, closed) && js[i] != Junction::Meets
}

/// The steps that segment `i` contributes: itself, then the join to the
/// segment after it where one is needed.
pub open spec fn steps_of(js: Seq<Junction>, i: int, closed: bool, style: JoinType) -> Seq<PathStep> {
    let seg = seq![PathStep::Segment(i as usize)];
    if needs_join(js, i, closed) {
        seg.push(
            PathStep::Join {
                kind: join_kind(js[i], style),
                from: i as usize,
                to: successor(i, js.len() as int) as usize,
            },
        )
    } else {
        seg
    }
}

/// The steps of the first `k` segments, in order.
pub open spec fn plan_prefix(js: Seq<Junction>, k: int, closed: bool, style: JoinType) -> Seq<PathStep>
    decreases k,
{
    if k <= 0 {
        Seq::empty()
    } else {
        plan_prefix(js, k - 1, closed, style) + steps_of(js, k - 1, closed, style)
    }
}

/// The steps of the whole line.
pub open spec fn join_plan(js: Seq<Junction>, closed: bool, style: JoinType) -> Seq<PathStep> {
    plan_prefix(js, js.len() as int, closed, style)
}

/// The number of junctions among the first `k` that need a join.
pub open spec fn join_count(js: Seq<Junction>, k: int, closed: bool) -> int
    decreases k,
{
    if k <= 0 {
        0
    } else {
        join_count(js, k - 1, closed) + if needs_join(js, k - 1, closed) { 1int } else { 0 }
    }
}

/// Plans the offset line whose junctions are `junctions`: junction `i` lies
/// after segment `i`, before its successor (on an open line the last junction
/// has no successor and is not looked at). Each segment is kept in order;
/// after each one whose junction has a gap comes one join, of the kind that
/// the gap and `join_type` call for.
pub fn plan_joins(junctions: &Vec<Junction>, closed: bool, join_type: JoinType) -> (r: Vec<PathStep>)
    requires
        junctions@.len() < usize::MAX,
    ensures
        r@ == join_plan(junctions@, closed, join_type),
{
    let n = junctions.len();
    let mut out: Vec<PathStep> = Vec::new();
    let mut i: usize = 0;
    while i < n
        invariant
            n == junctions@.len(),
            n < usize::MAX,
            i <= n,
            out@ == plan_prefix(junctions@, i as int, closed, join_type),
        decreases n - i,
    {
        out.push(PathStep::Segment(i));
        let has_next = i + 1 < n || closed;
        let j = junctions[i];
        if has_next && j != Junction::Meets {
            let kind = match j {
                Junction::Outside => match join_type {
                    JoinType::Round => JoinKind::Arc,
                    JoinType::Miter => JoinKind::Miter,
                    JoinType::Bevel => JoinKind::Bevel,
                },
                _ => JoinKind::Bevel,
            };
            let to: usize = if i + 1 < n { i + 1 } else { 0 };
            out.push(PathStep::Join { kind, from: i, to });
        }
        assert(out@ =~= plan_prefix(junctions@, i + 1, closed, join_type));
        i = i + 1;
    }
    out
}

/// A step is a segment or a bevel join.
pub open spec fn is_bevel_or_segment(s: PathStep) -> bool {
    match s {
        PathStep::Join { kind, .. } => kind == JoinKind::Bevel,
        PathStep::Segment(_) => true,
    }
}

/// The step at `p` of `plan`, if it is a join, bridges a junction that needs
/// one, is of the kind that junction calls for, stands right after the segment
/// whose end it leaves, and right before the segment whose start it reaches
/// unless it is the last step.
pub open spec fn join_placed_at(
    js: Seq<Junction>,
    closed: bool,
    style: JoinType,
    plan: Seq<PathStep>,
    p: int,
) -> bool {
    match plan[p] {
        PathStep::Join { kind, from, to } => {
            &&& (from as int) < js.len()
            &&& needs_join(js, from as int, closed)
            &&& kind == join_kind(js[from as int], style)
            &&& to as int == successor(from as int, js.len() as int)
            &&& p > 0
            &&& plan[p - 1] == PathStep::Segment(from)
            &&& p + 1 < plan.len() ==> plan[p + 1] == PathStep::Segment(to)
        },
        PathStep::Segment(_) => true,
    }
}

proof fn lemma_prefix_placement(js: Seq<Junction>, k: int, closed: bool, style: JoinType)
    requires
        0 <= k <= js.len(),
        js.len() < usize::MAX,
    ensures
        forall|p: int|
            0 <= p < plan_prefix(js, k, closed, style).len() ==> join_placed_at(
                js,
                closed,
                style,
                plan_prefix(js, k, closed, style),
                p,
            ),
        plan_prefix(js, k, closed, style).len() > 0 ==> match plan_prefix(js, k, closed, style).last() {
            PathStep::Join { from, .. } => from as int == k - 1,
            PathStep::Segment(i) => i as int == k - 1,
        },
    decreases k,
{
    if k > 0 {
        lemma_prefix_placement(js, k - 1, closed, style);
        let a = plan_prefix(js, k - 1, closed, style);
        let b = steps_of(js, k - 1, closed, style);
        let whole = plan_prefix(js, k, closed, style);
        assert(whole == a + b);
        assert forall|p: int| 0 <= p < whole.len() implies join_placed_at(js, closed, style, whole, p) by {
            if p < a.len() {
                assert(join_placed_at(js, closed, style, a, p));
                assert(whole[p] == a[p]);
                if p > 0 {
                    assert(whole[p - 1] == a[p - 1]);
                }
                if p + 1 < a.len() {
                    assert(whole[p + 1] == a[p + 1]);
                } else if p + 1 == a.len() {
                    assert(whole[p + 1] == b[0]);
                }
            } else {
                assert(whole[p] == b[p - a.len()]);
                if p - a.len() == 1 {
                    assert(whole[p - 1] == b[0]);
                }
            }
        }
    }
}

/// Every join of a plan bridges a junction that needs one, with the kind
/// that junction calls for, and stands between the segment it leaves and the
/// segment it reaches (a join that closes the line is its last step). With the
/// bevel style every join is a bevel.
pub proof fn lemma_join_placement(js: Seq<Junction>, closed: bool, style: JoinType)
    requires
        js.len() < usize::MAX,
    ensures
        forall|p: int|
            0 <= p < join_plan(js, closed, style).len() ==> join_placed_at(
                js,
                closed,
                style,
                join_plan(js, closed, style),
                p,
            ),
        style == JoinType::Bevel ==> forall|p: int|
            0 <= p < join_plan(js, closed, style).len() ==> is_bevel_or_segment(#[trigger] join_plan(js, closed, style)[p]),
{
    lemma_prefix_placement(js, js.len() as int, closed, style);
    let plan = join_plan(js, closed, style);
    if style == JoinType::Bevel {
        assert forall|p: int| 0 <= p < plan.len() implies is_bevel_or_segment(plan[p]) by {
            assert(join_placed_at(js, closed, style, plan, p));
        }
    }
}

proof fn lemma_join_count_monotone(js: Seq<Junction>, i: int, k: int, closed: bool)
    requires
        0 <= i <= k,
    ensures
        join_count(js, i, closed) <= join_count(js, k, closed),
        join_count(js, k, closed) <= k,
        join_count(js, i, closed) >= 0,
    decreases k,
{
    if k > 0 {
        if i < k {
            lemma_join_count_monotone(js, i, k - 1, closed);
        } else {
            lemma_join_count_monotone(js, 0, k - 1, closed);
        }
    }
}

proof fn lemma_prefix_layout(js: Seq<Junction>, k: int, closed: bool, style: JoinType)
    requires
        0 <= k <= js.len(),
        js.len() < usize::MAX,
    ensures
        plan_prefix(js, k, closed, style).len() == k + join_count(js, k, closed),
        forall|i: int|
            0 <= i < k ==> #[trigger] plan_prefix(js, k, closed, style)[i + join_count(js, i, closed)]
                == PathStep::Segment(i as usize),
        forall|i: int|
            0 <= i < k && needs_join(js, i, closed) ==> #[trigger] plan_prefix(js, k, closed, style)[i
                + join_count(js, i, closed) + 1] == (PathStep::Join {
                kind: join_kind(js[i], style),
                from: i as usize,
                to: successor(i, js.len() as int) as usize,
            }),
    decreases k,
{
    if k > 0 {
        lemma_prefix_layout(js, k - 1, closed, style);
        let a = plan_prefix(js, k - 1, closed, style);
        let b = steps_of(js, k - 1, closed, style);
        let whole = plan_prefix(js, k, closed, style);
        assert(whole == a + b);
        let ck = join_count(js, k - 1, closed);
        assert(a.len() == k - 1 + ck);
        assert forall|i: int| 0 <= i < k implies #[trigger] whole[i + join_count(js, i, closed)]
            == PathStep::Segment(i as usize) by {
            let ci = join_count(js, i, closed);
            if i < k - 1 {
                lemma_join_count_monotone(js, i, k - 1, closed);
                assert(i + ci < a.len());
                assert(whole[i + ci] == a[i + ci]);
            } else {
                assert(whole[i + ci] == b[0]);
            }
        }
        assert forall|i: int| 0 <= i < k && needs_join(js, i, closed) implies #[trigger] whole[i
            + join_count(js, i, closed) + 1] == (PathStep::Join {
            kind: join_kind(js[i], style),
            from: i as usize,
            to: successor(i, js.len() as int) as usize,
        }) by {
            let ci = join_count(js, i, closed);
            if i < k - 1 {
                lemma_join_count_monotone(js, i + 1, k - 1, closed);
                assert(join_count(js, i + 1, closed) == ci + 1);
                assert(i + ci + 1 < a.len());
                assert(whole[i + ci + 1] == a[i + ci + 1]);
            } else {
                assert(whole[i + ci + 1] == b[1]);
            }
        }
    }
}

/// The layout of a plan: segment `i` stands at position
/// `i + join_count(js, i, closed)`, so every segment appears once and in
/// order; where junction `i` needs a join, exactly that join follows it; and
/// the plan holds one step per segment plus one per join.
pub proof fn lemma_plan_layout(js: Seq<Junction>, closed: bool, style: JoinType)
    requires
        js.len() < usize::MAX,
    ensures
        join_plan(js, closed, style).len() == js.len() + join_count(js, js.len() as int, closed),
        forall|i: int|
            0 <= i < js.len() ==> #[trigger] join_plan(js, closed, style)[i + join_count(js, i, closed)]
                == PathStep::Segment(i as usize),
        forall|i: int|
            0 <= i < js.len() && needs_join(js, i, closed) ==> #[trigger] join_plan(js, closed, style)[i
                + join_count(js, i, closed) + 1] == (PathStep::Join {
                kind: join_kind(js[i], style),
                from: i as usize,
                to: successor(i, js.len() as int) as usize,
            }),
{
    lemma_prefix_layout(js, js.len() as int, closed, style);
}

} // verus!
