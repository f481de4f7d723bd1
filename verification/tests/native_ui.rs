use noa_app::overlay::match_utf16_ranges;
use noa_app::window_tabs::{is_placed_after, plan_tab_insert, TabInsertPlan};

#[test]
fn palette_match_ranges_count_utf16_units() {
    let (ranges, total) = match_utf16_ranges("a\u{e9}\u{1F600}b", &[0, 2, 3, 9]);
    assert_eq!(ranges, vec![(0, 1), (2, 2), (4, 1)], "a past-the-end position is skipped");
    assert_eq!(total, 5);
    let (none, total) = match_utf16_ranges("", &[0]);
    assert!(none.is_empty());
    assert_eq!(total, 0);
}

#[test]
fn a_new_tab_goes_right_after_its_anchor() {
    assert_eq!(plan_tab_insert(&[1, 2, 3, 4], 1, 4), TabInsertPlan::InsertAt(1));
    assert_eq!(plan_tab_insert(&[1, 2, 3], 2, 3), TabInsertPlan::AlreadyPlaced);
    assert_eq!(plan_tab_insert(&[1, 2, 3], 3, 9), TabInsertPlan::InsertAt(3));
    assert_eq!(plan_tab_insert(&[1, 2, 3], 7, 3), TabInsertPlan::AnchorMissing);
}

#[test]
fn an_insertion_is_checked_by_adjacency() {
    assert!(is_placed_after(&[5, 1, 4, 2], 1, 4));
    assert!(!is_placed_after(&[5, 1, 2, 4], 1, 4));
    assert!(!is_placed_after(&[1], 1, 1));
    assert!(!is_placed_after(&[], 1, 4));
}
