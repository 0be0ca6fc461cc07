use mfekstroke::joins::{plan_joins, JoinKind, JoinType, Junction, PathStep};

fn join(kind: JoinKind, from: usize, to: usize) -> PathStep {
    PathStep::Join { kind, from, to }
}

#[test]
fn square_with_round_joins_gets_one_arc_per_corner() {
    let js = vec![Junction::Outside; 4];
    let plan = plan_joins(&js, true, JoinType::Round);
    assert_eq!(
        plan,
        vec![
            PathStep::Segment(0),
            join(JoinKind::Arc, 0, 1),
            PathStep::Segment(1),
            join(JoinKind::Arc, 1, 2),
            PathStep::Segment(2),
            join(JoinKind::Arc, 2, 3),
            PathStep::Segment(3),
            join(JoinKind::Arc, 3, 0),
        ]
    );
}

#[test]
fn square_with_bevel_joins_gets_only_bevels() {
    let js = vec![Junction::Outside; 4];
    let plan = plan_joins(&js, true, JoinType::Bevel);
    assert_eq!(plan.len(), 8);
    for step in &plan {
        if let PathStep::Join { kind, .. } = step {
            assert_eq!(*kind, JoinKind::Bevel);
        }
    }
}

#[test]
fn inside_gaps_are_bevelled_and_met_ends_left_alone() {
    let js = vec![Junction::Inside, Junction::Meets, Junction::Outside];
    let plan = plan_joins(&js, true, JoinType::Miter);
    assert_eq!(
        plan,
        vec![
            PathStep::Segment(0),
            join(JoinKind::Bevel, 0, 1),
            PathStep::Segment(1),
            PathStep::Segment(2),
            join(JoinKind::Miter, 2, 0),
        ]
    );
}

#[test]
fn open_line_has_no_closing_join() {
    let js = vec![Junction::Outside, Junction::Outside];
    let plan = plan_joins(&js, false, JoinType::Round);
    assert_eq!(
        plan,
        vec![PathStep::Segment(0), join(JoinKind::Arc, 0, 1), PathStep::Segment(1)]
    );
}

#[test]
fn empty_line_has_empty_plan() {
    assert!(plan_joins(&vec![], true, JoinType::Round).is_empty());
}
