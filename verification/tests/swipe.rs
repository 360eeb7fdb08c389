use karakuri::swipe::clamp_viewport_offset;

#[test]
fn continuous_allows_any_offset() {
    let result = clamp_viewport_offset(0, 99999, 1000, 1920, 0, 0, true);
    assert_eq!(result, 99999);
}

#[test]
fn clamped_stays_within_bounds() {
    // strip is 1000px, viewport is 1920px, no padding
    let result = clamp_viewport_offset(0, -500, 1000, 1920, 0, 0, false);
    // left_aligned = 0, right_aligned = 1000-1920 = -920, max(-920, 0) = 0
    assert_eq!(result, 0);
}

#[test]
fn clamped_right_edge() {
    // strip is 3000px, viewport is 1920px, no padding
    let result = clamp_viewport_offset(0, 2000, 3000, 1920, 0, 0, false);
    // right_aligned = 3000 - 1920 = 1080
    assert_eq!(result, 1080);
}

#[test]
fn clamped_with_padding() {
    // effective width = 1920 - 10 - 10 = 1900; right_aligned = 3000 - 1900 - 10 = 1090
    let result = clamp_viewport_offset(0, 2000, 3000, 1920, 10, 10, false);
    assert_eq!(result, 1090);
}

#[test]
fn clamped_left_with_padding() {
    let result = clamp_viewport_offset(0, -1000, 3000, 1920, 10, 10, false);
    assert_eq!(result, -10);
}

#[test]
fn clamped_offset_monotonic_with_increasing_shift() {
    let total_strip = 5000;
    let viewport = 1920;
    let mut prev = 0;
    for shift in [100, 200, 300, 400, 500] {
        let result = clamp_viewport_offset(0, shift, total_strip, viewport, 0, 0, false);
        assert!(result >= prev, "offset should increase monotonically");
        prev = result;
    }
}

#[test]
fn continuous_vs_clamped_diverge_at_edge() {
    let offset = 2000;
    let shift = 500;
    let strip = 3000;
    let viewport = 1920;

    let continuous = clamp_viewport_offset(offset, shift, strip, viewport, 0, 0, true);
    let clamped = clamp_viewport_offset(offset, shift, strip, viewport, 0, 0, false);

    assert_eq!(continuous, 2500);
    // clamped: right_aligned = 3000 - 1920 = 1080
    assert_eq!(clamped, 1080);
}

#[test]
fn clamp_is_idempotent_once_inside() {
    let first = clamp_viewport_offset(0, 5000, 3000, 1920, 0, 0, false);
    let again = clamp_viewport_offset(first, 0, 3000, 1920, 0, 0, false);
    assert_eq!(first, again);
}

#[test]
fn clamped_result_between_edges() {
    for shift in [-4000, -10, 0, 500, 1085, 1090, 1200, 9000] {
        let r = clamp_viewport_offset(0, shift, 3000, 1920, 10, 10, false);
        assert!((-10..=1090).contains(&r));
    }
}
