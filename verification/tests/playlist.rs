use std::collections::HashMap;

use aoide_library::playlist::track_ref_counts;

#[test]
fn ref_counts_per_track() {
    let entries = [Some(7), None, Some(3), Some(7), Some(7), None, Some(3), Some(1)];
    let expected: HashMap<i64, usize> = [(7, 3), (3, 2), (1, 1)].into_iter().collect();
    assert_eq!(expected, track_ref_counts(&entries));
}

#[test]
fn ref_counts_of_separators_only() {
    assert!(track_ref_counts(&[None, None]).is_empty());
    assert!(track_ref_counts(&[]).is_empty());
}

#[test]
fn ref_counts_add_up_to_the_track_entries() {
    let entries = [Some(1), Some(2), None, Some(1), Some(3), Some(1), None];
    let counts = track_ref_counts(&entries);
    let total: usize = counts.values().sum();
    assert_eq!(5, total);
    assert_eq!(Some(&3), counts.get(&1));
}
