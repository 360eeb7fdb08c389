use karakuri::geometry::{IRect, IVec2};
use karakuri::snap::{detect_snap_zone, snap_frame, EdgeSnapConfig, SnapZone};

fn display_bounds() -> IRect {
    IRect::new(0, 0, 1920, 1080)
}

fn all_enabled() -> EdgeSnapConfig {
    EdgeSnapConfig {
        left: Some(true),
        right: Some(true),
        top: Some(true),
        bottom: Some(true),
        fullscreen: Some(true),
        ..Default::default()
    }
}

fn left_right_only() -> EdgeSnapConfig {
    EdgeSnapConfig {
        left: Some(true),
        right: Some(true),
        top: Some(false),
        bottom: Some(false),
        fullscreen: Some(false),
        ..Default::default()
    }
}

fn none_enabled() -> EdgeSnapConfig {
    EdgeSnapConfig::default()
}

// ── detect_snap_zone ─────────────────────────────────────────────

#[test]
fn cursor_at_left_edge_snaps_left() {
    let bounds = display_bounds();
    let zone = detect_snap_zone(5, 540, &bounds, 10, &all_enabled());
    assert_eq!(zone, Some(SnapZone::LeftHalf));
}

#[test]
fn cursor_at_right_edge_snaps_right() {
    let bounds = display_bounds();
    let zone = detect_snap_zone(1915, 540, &bounds, 10, &all_enabled());
    assert_eq!(zone, Some(SnapZone::RightHalf));
}

#[test]
fn cursor_at_top_edge_snaps_top() {
    let bounds = display_bounds();
    let zone = detect_snap_zone(960, 3, &bounds, 10, &all_enabled());
    assert_eq!(zone, Some(SnapZone::TopHalf));
}

#[test]
fn cursor_at_bottom_edge_snaps_bottom() {
    let bounds = display_bounds();
    let zone = detect_snap_zone(960, 1075, &bounds, 10, &all_enabled());
    assert_eq!(zone, Some(SnapZone::BottomHalf));
}

#[test]
fn cursor_at_top_left_corner_snaps_fullscreen() {
    let bounds = display_bounds();
    let zone = detect_snap_zone(3, 3, &bounds, 10, &all_enabled());
    // left check wins over fullscreen because left is checked first
    assert_eq!(zone, Some(SnapZone::LeftHalf));
}

#[test]
fn cursor_in_center_returns_none() {
    let bounds = display_bounds();
    let zone = detect_snap_zone(960, 540, &bounds, 10, &all_enabled());
    assert_eq!(zone, None);
}

#[test]
fn disabled_edges_return_none() {
    let bounds = display_bounds();
    // top edge cursor, but top is disabled
    let zone = detect_snap_zone(960, 3, &bounds, 10, &left_right_only());
    assert_eq!(zone, None);
}

#[test]
fn all_disabled_returns_none_everywhere() {
    let bounds = display_bounds();
    assert_eq!(detect_snap_zone(5, 540, &bounds, 10, &none_enabled()), None);
    assert_eq!(detect_snap_zone(1915, 540, &bounds, 10, &none_enabled()), None);
    assert_eq!(detect_snap_zone(960, 3, &bounds, 10, &none_enabled()), None);
    assert_eq!(detect_snap_zone(960, 1075, &bounds, 10, &none_enabled()), None);
}

#[test]
fn threshold_boundary_inside() {
    let bounds = display_bounds();
    // exactly at threshold distance
    let zone = detect_snap_zone(9, 540, &bounds, 10, &all_enabled());
    assert_eq!(zone, Some(SnapZone::LeftHalf));
}

#[test]
fn threshold_boundary_outside() {
    let bounds = display_bounds();
    // one pixel beyond threshold
    let zone = detect_snap_zone(10, 540, &bounds, 10, &all_enabled());
    assert_eq!(zone, None);
}

#[test]
fn offset_display_bounds() {
    // Second monitor at x=1920
    let bounds = IRect::new(1920, 0, 3840, 1080);
    let zone = detect_snap_zone(1925, 540, &bounds, 10, &all_enabled());
    assert_eq!(zone, Some(SnapZone::LeftHalf));
}

// ── snap_frame ───────────────────────────────────────────────────

#[test]
fn left_half_frame() {
    let bounds = display_bounds();
    let pad = (4, 4, 4, 4);
    let (origin, size) = snap_frame(SnapZone::LeftHalf, &bounds, pad);
    assert_eq!(origin, IVec2::new(0, 4));
    assert_eq!(size.x, 960); // midpoint
    assert!(size.y > 0);
}

#[test]
fn right_half_frame() {
    let bounds = display_bounds();
    let pad = (4, 4, 4, 4);
    let (origin, size) = snap_frame(SnapZone::RightHalf, &bounds, pad);
    assert_eq!(origin.x, 960); // starts at midpoint
    assert_eq!(origin.x + size.x, 1920); // ends at right edge
}

#[test]
fn fullscreen_frame_no_padding() {
    let bounds = display_bounds();
    let pad = (4, 4, 4, 4);
    let (origin, size) = snap_frame(SnapZone::Fullscreen, &bounds, pad);
    assert_eq!(origin, IVec2::new(0, 0));
    assert_eq!(size, IVec2::new(1920, 1080));
}

#[test]
fn halves_cover_full_width() {
    let bounds = display_bounds();
    let pad = (0, 0, 0, 0);
    let (left_origin, left_size) = snap_frame(SnapZone::LeftHalf, &bounds, pad);
    let (right_origin, right_size) = snap_frame(SnapZone::RightHalf, &bounds, pad);
    // left edge to right edge should cover full width
    assert_eq!(left_origin.x, 0);
    assert_eq!(left_origin.x + left_size.x, right_origin.x);
    assert_eq!(right_origin.x + right_size.x, 1920);
}

#[test]
fn top_bottom_cover_full_height() {
    let bounds = display_bounds();
    let pad = (0, 0, 0, 0);
    let (top_origin, top_size) = snap_frame(SnapZone::TopHalf, &bounds, pad);
    let (bot_origin, bot_size) = snap_frame(SnapZone::BottomHalf, &bounds, pad);
    assert_eq!(top_origin.y, 0);
    assert_eq!(top_origin.y + top_size.y, bot_origin.y);
    assert_eq!(bot_origin.y + bot_size.y, 1080);
}

#[test]
fn fullscreen_corner_when_left_disabled() {
    let bounds = display_bounds();
    let snap = EdgeSnapConfig { left: Some(false), fullscreen: Some(true), top: Some(true), ..Default::default() };
    assert_eq!(detect_snap_zone(3, 3, &bounds, 10, &snap), Some(SnapZone::Fullscreen));
}

#[test]
fn padded_halves_meet_at_padded_midpoint() {
    let bounds = display_bounds();
    let pad = (10, 20, 30, 40);
    let (lo, ls) = snap_frame(SnapZone::LeftHalf, &bounds, pad);
    let (ro, rs) = snap_frame(SnapZone::RightHalf, &bounds, pad);
    // padded width = 1920 - 40 - 20 = 1860, midpoint = 40 + 930 = 970
    assert_eq!(lo, IVec2::new(0, 10));
    assert_eq!(ls, IVec2::new(970, 1040));
    assert_eq!(ro, IVec2::new(970, 10));
    assert_eq!(rs, IVec2::new(950, 1040));
    let (to, ts) = snap_frame(SnapZone::TopHalf, &bounds, pad);
    let (bo, bs) = snap_frame(SnapZone::BottomHalf, &bounds, pad);
    // padded height = 1080 - 10 - 30 = 1040, midpoint = 10 + 520 = 530
    assert_eq!(to, IVec2::new(40, 0));
    assert_eq!(ts, IVec2::new(1860, 530));
    assert_eq!(bo, IVec2::new(40, 530));
    assert_eq!(bs, IVec2::new(1860, 550));
}
