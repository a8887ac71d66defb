use image_overlay::overlay_bounds_ext;

#[test]
fn clip_inside_at_origin() {
    assert_eq!(overlay_bounds_ext((10, 10), (5, 5), 0, 0), (0, 0, 0, 0, 5, 5));
}

#[test]
fn clip_overhang_bottom_right() {
    assert_eq!(overlay_bounds_ext((10, 10), (5, 5), 8, 8), (8, 8, 0, 0, 2, 2));
}

#[test]
fn clip_negative_offset() {
    assert_eq!(overlay_bounds_ext((10, 10), (5, 5), -3, -3), (0, 0, 3, 3, 2, 2));
}

#[test]
fn clip_no_overlap() {
    assert_eq!(overlay_bounds_ext((10, 10), (5, 5), 20, 20), (0, 0, 0, 0, 0, 0));
}

#[test]
fn clip_no_overlap_negative() {
    assert_eq!(overlay_bounds_ext((10, 10), (5, 5), -5, 0), (0, 0, 0, 0, 0, 0));
    assert_eq!(overlay_bounds_ext((10, 10), (5, 5), 0, -5), (0, 0, 0, 0, 0, 0));
}

#[test]
fn clip_touching_edge_is_empty() {
    // An exact-touch offset has no overlap: the all-zero region.
    assert_eq!(overlay_bounds_ext((10, 10), (5, 5), 10, 0), (0, 0, 0, 0, 0, 0));
    assert_eq!(overlay_bounds_ext((10, 10), (5, 5), 0, 10), (0, 0, 0, 0, 0, 0));
}

#[test]
fn clip_extreme_offsets() {
    assert_eq!(overlay_bounds_ext((10, 10), (5, 5), i64::MIN, 0), (0, 0, 0, 0, 0, 0));
    assert_eq!(overlay_bounds_ext((10, 10), (5, 5), 0, i64::MIN), (0, 0, 0, 0, 0, 0));
    assert_eq!(overlay_bounds_ext((10, 10), (5, 5), i64::MAX, 0), (0, 0, 0, 0, 0, 0));
    assert_eq!(overlay_bounds_ext((10, 10), (5, 5), 0, i64::MAX), (0, 0, 0, 0, 0, 0));
}

#[test]
fn clip_zero_size_images() {
    assert_eq!(overlay_bounds_ext((0, 0), (5, 5), 0, 0), (0, 0, 0, 0, 0, 0));
    // A zero-size top image keeps its clamped origins but sweeps nothing.
    assert_eq!(overlay_bounds_ext((10, 10), (0, 0), 3, 3), (3, 3, 0, 0, 0, 0));
}

#[test]
fn clip_top_larger_than_bottom() {
    assert_eq!(overlay_bounds_ext((4, 4), (10, 10), -2, -2), (0, 0, 2, 2, 4, 4));
}
