use mfekstroke::handles::StrokeError;
use mfekstroke::outline::contour_segments;

#[test]
fn closed_contour_pairs_wrap_around() {
    assert_eq!(contour_segments(3, false).unwrap(), vec![(0, 1), (1, 2), (2, 0)]);
}

#[test]
fn open_contour_pairs_stop_at_last_point() {
    assert_eq!(contour_segments(3, true).unwrap(), vec![(0, 1), (1, 2)]);
    assert_eq!(contour_segments(1, true).unwrap(), vec![]);
}

#[test]
fn single_point_closed_contour_pairs_with_itself() {
    assert_eq!(contour_segments(1, false).unwrap(), vec![(0, 0)]);
}

#[test]
fn empty_contour_has_no_segments() {
    assert_eq!(contour_segments(0, false), Err(StrokeError::EmptyCurve));
}
