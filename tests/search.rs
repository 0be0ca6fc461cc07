use mfekstroke::search::last_index_where;

#[test]
fn finds_last_entry_not_above_target() {
    let table = [0.0, 1.0, 2.5, 2.5, 4.0];
    assert_eq!(last_index_where(table.len(), &|i: usize| table[i] <= 2.6), 3);
    assert_eq!(last_index_where(table.len(), &|i: usize| table[i] <= 2.5), 3);
    assert_eq!(last_index_where(table.len(), &|i: usize| table[i] <= 0.0), 0);
    assert_eq!(last_index_where(table.len(), &|i: usize| table[i] <= 9.0), 4);
}

#[test]
fn clamps_below_first_entry() {
    let cuts = [0.0, 0.25, 0.5, 1.0];
    assert_eq!(last_index_where(cuts.len() - 1, &|i: usize| cuts[i] <= -0.5), 0);
    assert_eq!(last_index_where(cuts.len() - 1, &|i: usize| cuts[i] <= 0.3), 1);
    assert_eq!(last_index_where(cuts.len() - 1, &|i: usize| cuts[i] <= 1.5), 2);
}

#[test]
fn single_entry_table() {
    assert_eq!(last_index_where(1, &|_i: usize| false), 0);
    assert_eq!(last_index_where(1, &|_i: usize| true), 0);
}

#[test]
fn larger_target_never_finds_earlier_index() {
    let table = [0.0, 0.5, 0.5, 1.25, 2.0, 3.5];
    let mut last = 0;
    for k in 0..40 {
        let target = k as f64 * 0.1;
        let r = last_index_where(table.len(), &|i: usize| table[i] <= target);
        assert!(r >= last);
        last = r;
    }
    assert_eq!(last, 5);
}
