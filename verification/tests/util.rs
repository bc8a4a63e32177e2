use hexview::util::{clamp, offsets_intersect, range_intersect};

#[test]
fn clamp_keeps_value_inside() {
    assert_eq!(clamp(16u8, 1, 32), 16);
    assert_eq!(clamp(1u8, 1, 32), 1);
    assert_eq!(clamp(32u8, 1, 32), 32);
}

#[test]
fn clamp_raises_to_min() {
    assert_eq!(clamp(0u8, 1, 32), 1);
    assert_eq!(clamp(-5i32, -2, 7), -2);
}

#[test]
fn clamp_lowers_to_max() {
    assert_eq!(clamp(33u8, 1, 32), 32);
    assert_eq!(clamp(255u8, 1, 32), 32);
}

#[test]
fn range_intersect_overlapping() {
    assert_eq!(range_intersect(0usize..8, 3..10), 3..8);
    assert_eq!(range_intersect(3usize..10, 0..8), 3..8);
    assert_eq!(range_intersect(0usize..16, 4..6), 4..6);
}

#[test]
fn range_intersect_disjoint_is_empty_at_highest_lower_bound() {
    assert_eq!(range_intersect(0usize..8, 9..12), 9..9);
    assert_eq!(range_intersect(9usize..12, 0..8), 9..9);
}

#[test]
fn range_intersect_touching_is_empty() {
    assert_eq!(range_intersect(0usize..8, 8..16), 8..8);
}

#[test]
fn offsets_intersect_agrees_with_range_intersect() {
    assert_eq!(offsets_intersect(0..8, 3..10), 3..8);
    assert_eq!(offsets_intersect(0..8, 9..12), 9..9);
}
