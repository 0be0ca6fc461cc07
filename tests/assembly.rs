use mfekstroke::handles::StrokeError;
use mfekstroke::settings::handles_per_contour;
use mfekstroke::stroke::{closed_stroke, drop_marked, open_stroke, reverse_line};

#[test]
fn reverse_line_reverses() {
    assert_eq!(reverse_line(vec![1, 2, 3]), vec![3, 2, 1]);
    assert_eq!(reverse_line(Vec::<u8>::new()), Vec::<u8>::new());
}

#[test]
fn closed_stroke_gives_two_contours() {
    let cs = closed_stroke(vec!["l0", "l1"], vec!["r0"], false, false).unwrap();
    assert_eq!(cs, vec![vec!["l0", "l1"], vec!["r0"]]);
}

#[test]
fn closed_stroke_honours_removal_flags() {
    assert_eq!(closed_stroke(vec![1], vec![2], true, false).unwrap(), vec![vec![2]]);
    assert_eq!(closed_stroke(vec![1], vec![2], false, true).unwrap(), vec![vec![1]]);
    assert!(closed_stroke(vec![1], vec![2], true, true).unwrap().is_empty());
}

#[test]
fn strokes_of_empty_lines_fail() {
    assert_eq!(closed_stroke(vec![], vec![2], false, false), Err(StrokeError::EmptyCurve));
    assert_eq!(open_stroke(vec![1], vec![], vec![], vec![]), Err(StrokeError::EmptyCurve));
}

#[test]
fn open_stroke_gives_one_contour_with_caps() {
    let cs = open_stroke(vec!["l0", "l1"], vec!["end"], vec!["r0"], vec!["start"]).unwrap();
    assert_eq!(cs, vec![vec!["l0", "l1", "end", "r0", "start"]]);
}

#[test]
fn drop_marked_skips_marked_segments() {
    assert_eq!(drop_marked(vec![1, 2, 3, 4], &vec![false, true, true, false]), vec![1, 4]);
    assert_eq!(drop_marked(vec![1, 2], &vec![true, true]), Vec::<i32>::new());
}

#[test]
fn constant_handles_one_more_than_points() {
    let hs = handles_per_contour(&vec![4, 0, 2], 'h');
    assert_eq!(hs, vec![vec!['h'; 5], vec!['h'; 1], vec!['h'; 3]]);
}
