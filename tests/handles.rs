use mfekstroke::handles::{split_stroke_handles, InterpolationType, Side, StrokeError, VWSHandle};
use mfekstroke::profile::{width_profile, Cut};

fn h(t: f64, l: Option<f64>, r: Option<f64>) -> VWSHandle<f64> {
    VWSHandle { t, left_offset: l, right_offset: r, interpolation: InterpolationType::Linear }
}

#[test]
fn split_sends_each_offset_to_its_side() {
    let hs = vec![h(0.0, Some(1.0), Some(2.0)), h(0.5, Some(10.0), None), h(1.0, None, Some(4.0))];
    let [left, right] = split_stroke_handles(&hs).unwrap();
    assert_eq!(left.len(), 2);
    assert_eq!(right.len(), 2);
    assert_eq!((left[0].t, left[0].offset), (0.0, 1.0));
    assert_eq!((left[1].t, left[1].offset), (0.5, 10.0));
    assert_eq!((right[0].t, right[0].offset), (0.0, 2.0));
    assert_eq!((right[1].t, right[1].offset), (1.0, 4.0));
}

#[test]
fn split_reports_missing_side() {
    let only_right = vec![h(0.0, None, Some(2.0))];
    assert_eq!(
        split_stroke_handles(&only_right).err(),
        Some(StrokeError::MissingHandleSide(Side::Left))
    );
    let only_left = vec![h(0.0, Some(2.0), None), h(1.0, Some(3.0), None)];
    assert_eq!(
        split_stroke_handles(&only_left).err(),
        Some(StrokeError::MissingHandleSide(Side::Right))
    );
    let none: Vec<VWSHandle<f64>> = vec![];
    assert_eq!(
        split_stroke_handles(&none).err(),
        Some(StrokeError::MissingHandleSide(Side::Left))
    );
}

#[test]
fn profile_of_three_handles_spanning_path() {
    let hs = vec![h(0.0, Some(1.0), Some(1.0)), h(0.5, Some(10.0), Some(10.0)), h(1.0, Some(1.0), Some(1.0))];
    let [left, _] = split_stroke_handles(&hs).unwrap();
    let p = width_profile(&left, true);
    assert_eq!(p.segs.len(), 2);
    assert_eq!(p.cuts.len(), 3);
    assert_eq!((p.segs[0].start, p.segs[0].finish), (1.0, 10.0));
    assert_eq!((p.segs[1].start, p.segs[1].finish), (10.0, 1.0));
    assert!(matches!(p.cuts[0], Cut::Start));
    assert!(matches!(p.cuts[1], Cut::At(t) if t == 0.5));
    assert!(matches!(p.cuts[2], Cut::End));
}

#[test]
fn profile_extends_flat_to_both_ends() {
    let hs = vec![h(0.2, Some(3.0), Some(3.0)), h(0.6, Some(5.0), Some(5.0))];
    let [_, right] = split_stroke_handles(&hs).unwrap();
    let p = width_profile(&right, false);
    assert_eq!(p.segs.len(), 2);
    assert_eq!(p.segs[0].start, 3.0);
    assert_eq!((p.segs[1].start, p.segs[1].finish), (5.0, 5.0));
    assert!(matches!(p.cuts[0], Cut::Start));
    assert!(matches!(p.cuts[1], Cut::At(t) if t == 0.6));
    assert!(matches!(p.cuts[2], Cut::End));
}

#[test]
fn profile_of_single_handle_is_flat() {
    let hs = vec![h(1.0, Some(7.0), Some(8.0))];
    let [left, _] = split_stroke_handles(&hs).unwrap();
    let p = width_profile(&left, true);
    assert_eq!(p.segs.len(), 1);
    assert_eq!((p.segs[0].start, p.segs[0].finish), (7.0, 7.0));
    assert_eq!(p.segs[0].kind, InterpolationType::Linear);
    assert_eq!(p.cuts.len(), 2);
}
