//! Edge snapping of dragged windows: which zone the cursor is in, and the
//! frame a window takes in that zone.
use vstd::prelude::*;
use crate::geometry::{fits_i32, IRect, IVec2};

verus! {

/// A region of the display a dragged window can snap into.
#[derive(Clone, Copy, Debug, PartialEq, Eq, Structural)]
pub enum SnapZone {
    LeftHalf,
    RightHalf,
    TopHalf,
    BottomHalf,
    Fullscreen,
}

/// Edge snapping settings: which zones are enabled and how close the cursor
/// must come to an edge.
#[derive(Clone, Debug, Default)]
pub struct EdgeSnapConfig {
    /// Snap to left half of screen.
    pub left: Option<bool>,
    /// Snap to right half of screen.
    pub right: Option<bool>,
    /// Snap to top half of screen.
    pub top: Option<bool>,
    /// Snap to bottom half of screen.
    pub bottom: Option<bool>,
    /// Snap to fullscreen.
    pub fullscreen: Option<bool>,
    /// Pixel distance from edge to trigger snap.
    pub threshold: Option<u16>,
    /// Show a translucent preview of the snap zone during drag.
    pub preview: Option<bool>,
    /// Dwell time (ms) the cursor sticks at display edges during drag.
    pub sticky_dwell_ms: Option<u64>,
}

/// An optional flag that is off unless set.
pub open spec fn flag_on(f: Option<bool>) -> bool {
    f == Some(true)
}

fn is_on(f: Option<bool>) -> (b: bool)
    ensures
        b == flag_on(f),
{
    match f {
        Some(v) => v,
        None => false,
    }
}

/// The zone for a cursor at `(px, py)`: the first enabled match among left,
/// right, top-left corner (fullscreen), top and bottom.
pub open spec fn spec_snap_zone(
    px: int,
    py: int,
    bounds: IRect,
    threshold: int,
    snap: EdgeSnapConfig,
) -> Option<SnapZone> {
    let near_left = px - bounds.min.x < threshold;
    let near_right = bounds.max.x - px < threshold;
    let near_top = py - bounds.min.y < threshold;
    let near_bottom = bounds.max.y - py < threshold;
    if near_left && flag_on(snap.left) {
        Some(SnapZone::LeftHalf)
    } else if near_right && flag_on(snap.right) {
        Some(SnapZone::RightHalf)
    } else if near_top && near_left && flag_on(snap.fullscreen) {
        Some(SnapZone::Fullscreen)
    } else if near_top && flag_on(snap.top) {
        Some(SnapZone::TopHalf)
    } else if near_bottom && flag_on(snap.bottom) {
        Some(SnapZone::BottomHalf)
    } else {
        None
    }
}

/// The distances from the cursor to the four edges are representable.
pub open spec fn snap_distances_fit(px: int, py: int, bounds: IRect) -> bool {
    &&& fits_i32(px - bounds.min.x)
    &&& fits_i32(bounds.max.x - px)
    &&& fits_i32(py - bounds.min.y)
    &&& fits_i32(bounds.max.y - py)
}

/// Determines which snap zone the cursor is near, if any.
///
/// An edge counts as near when the cursor is less than `threshold` pixels
/// from it; the first enabled match wins (left, right, fullscreen corner,
/// top, bottom).
pub fn detect_snap_zone(
    px: i32,
    py: i32,
    bounds: &IRect,
    threshold: i32,
    snap: &EdgeSnapConfig,
) -> (r: Option<SnapZone>)
    requires
        snap_distances_fit(px as int, py as int, *bounds),
    ensures
        r == spec_snap_zone(px as int, py as int, *bounds, threshold as int, *snap),
{
    let near_left = px - bounds.min.x < threshold;
    let near_right = bounds.max.x - px < threshold;
    let near_top = py - bounds.min.y < threshold;
    let near_bottom = bounds.max.y - py < threshold;

    if near_left && is_on(snap.left) {
        Some(SnapZone::LeftHalf)
    } else if near_right && is_on(snap.right) {
        Some(SnapZone::RightHalf)
    } else if near_top && near_left && is_on(snap.fullscreen) {
        Some(SnapZone::Fullscreen)
    } else if near_top && is_on(snap.top) {
        Some(SnapZone::TopHalf)
    } else if near_bottom && is_on(snap.bottom) {
        Some(SnapZone::BottomHalf)
    } else {
        None
    }
}

/// Half of `v`, rounded toward zero (integer division by two).
pub open spec fn half_toward_zero(v: int) -> int {
    if v >= 0 { v / 2 } else { -((-v) / 2) }
}

fn half(v: i32) -> (h: i32)
    ensures
        h == half_toward_zero(v as int),
{
    if v >= 0 {
        v / 2
    } else {
        let m: i64 = -(v as i64);
        let q: i64 = m / 2;
        (-q) as i32
    }
}

/// Origin and size `((x, y), (w, h))` of a snap zone inside `bounds`.
///
/// Outer edges are flush with the display; the inner edge between two
/// halves sits at the middle of the padded area. Padding is
/// `(top, right, bottom, left)`.
pub open spec fn spec_snap_frame(
    zone: SnapZone,
    bounds: IRect,
    pad: (int, int, int, int),
) -> ((int, int), (int, int)) {
    let (pt, pr, pb, pl) = pad;
    let padded_w = bounds.spec_width() - pl - pr;
    let padded_h = bounds.spec_height() - pt - pb;
    let mid_x = bounds.min.x + pl + half_toward_zero(padded_w);
    let mid_y = bounds.min.y + pt + half_toward_zero(padded_h);
    match zone {
        SnapZone::LeftHalf => ((bounds.min.x as int, bounds.min.y + pt), (mid_x - bounds.min.x, padded_h)),
        SnapZone::RightHalf => ((mid_x, bounds.min.y + pt), (bounds.max.x - mid_x, padded_h)),
        SnapZone::TopHalf => ((bounds.min.x + pl, bounds.min.y as int), (padded_w, mid_y - bounds.min.y)),
        SnapZone::BottomHalf => ((bounds.min.x + pl, mid_y), (padded_w, bounds.max.y - mid_y)),
        SnapZone::Fullscreen => (
            (bounds.min.x as int, bounds.min.y as int),
            (bounds.spec_width(), bounds.spec_height()),
        ),
    }
}

/// Every intermediate of the snap-frame arithmetic is representable.
pub open spec fn snap_frame_fits(bounds: IRect, pad: (int, int, int, int)) -> bool {
    let (pt, pr, pb, pl) = pad;
    let padded_w = bounds.spec_width() - pl - pr;
    let padded_h = bounds.spec_height() - pt - pb;
    let mid_x = bounds.min.x + pl + half_toward_zero(padded_w);
    let mid_y = bounds.min.y + pt + half_toward_zero(padded_h);
    &&& bounds.size_fits()
    &&& fits_i32(bounds.spec_width() - pl)
    &&& fits_i32(padded_w)
    &&& fits_i32(bounds.spec_height() - pt)
    &&& fits_i32(padded_h)
    &&& fits_i32(bounds.min.x + pl)
    &&& fits_i32(mid_x)
    &&& fits_i32(bounds.min.y + pt)
    &&& fits_i32(mid_y)
    &&& fits_i32(mid_x - bounds.min.x)
    &&& fits_i32(bounds.max.x - mid_x)
    &&& fits_i32(mid_y - bounds.min.y)
    &&& fits_i32(bounds.max.y - mid_y)
}

/// Computes the origin and size for a snap zone within display bounds.
///
/// Padding order: `(top, right, bottom, left)`.
pub fn snap_frame(zone: SnapZone, bounds: &IRect, pad: (i32, i32, i32, i32)) -> (r: (IVec2, IVec2))
    requires
        snap_frame_fits(*bounds, (pad.0 as int, pad.1 as int, pad.2 as int, pad.3 as int)),
    ensures
        ({
            let s = spec_snap_frame(
                zone,
                *bounds,
                (pad.0 as int, pad.1 as int, pad.2 as int, pad.3 as int),
            );
            &&& r.0.x == s.0.0
            &&& r.0.y == s.0.1
            &&& r.1.x == s.1.0
            &&& r.1.y == s.1.1
        }),
{
    let (pt, pr, pb, pl) = pad;
    let padded_w = bounds.width() - pl - pr;
    let padded_h = bounds.height() - pt - pb;
    let mid_x = bounds.min.x + pl + half(padded_w);
    let mid_y = bounds.min.y + pt + half(padded_h);

    match zone {
        SnapZone::LeftHalf => (
            IVec2::new(bounds.min.x, bounds.min.y + pt),
            IVec2::new(mid_x - bounds.min.x, padded_h),
        ),
        SnapZone::RightHalf => (
            IVec2::new(mid_x, bounds.min.y + pt),
            IVec2::new(bounds.max.x - mid_x, padded_h),
        ),
        SnapZone::TopHalf => (
            IVec2::new(bounds.min.x + pl, bounds.min.y),
            IVec2::new(padded_w, mid_y - bounds.min.y),
        ),
        SnapZone::BottomHalf => (
            IVec2::new(bounds.min.x + pl, mid_y),
            IVec2::new(padded_w, bounds.max.y - mid_y),
        ),
        SnapZone::Fullscreen => (
            IVec2::new(bounds.min.x, bounds.min.y),
            IVec2::new(bounds.width(), bounds.height()),
        ),
    }
}

/// Law: the left and right halves together span the full display width,
/// and meet where one ends and the other begins.
pub proof fn lemma_halves_cover_width(bounds: IRect, pad: (int, int, int, int))
    ensures
        ({
            let l = spec_snap_frame(SnapZone::LeftHalf, bounds, pad);
            let r = spec_snap_frame(SnapZone::RightHalf, bounds, pad);
            &&& l.0.0 == bounds.min.x
            &&& l.0.0 + l.1.0 == r.0.0
            &&& r.0.0 + r.1.0 == bounds.max.x
            &&& l.1.0 + r.1.0 == bounds.spec_width()
        }),
{
}

/// Law: the top and bottom halves together span the full display height.
pub proof fn lemma_halves_cover_height(bounds: IRect, pad: (int, int, int, int))
    ensures
        ({
            let t = spec_snap_frame(SnapZone::TopHalf, bounds, pad);
            let b = spec_snap_frame(SnapZone::BottomHalf, bounds, pad);
            &&& t.0.1 == bounds.min.y
            &&& t.0.1 + t.1.1 == b.0.1
            &&& b.0.1 + b.1.1 == bounds.max.y
            &&& t.1.1 + b.1.1 == bounds.spec_height()
        }),
{
}

/// Law: with every zone disabled the cursor never snaps.
pub proof fn lemma_all_disabled_never_snaps(px: int, py: int, bounds: IRect, threshold: int, snap: EdgeSnapConfig)
    requires
        !flag_on(snap.left),
        !flag_on(snap.right),
        !flag_on(snap.top),
        !flag_on(snap.bottom),
        !flag_on(snap.fullscreen),
    ensures
        spec_snap_zone(px, py, bounds, threshold, snap) == None::<SnapZone>,
{
}

/// Law: each zone is chosen only when its own setting is on and the cursor
/// is within the threshold of the matching edge (both top and left for the
/// fullscreen corner); an enabled zone near the cursor is chosen unless one
/// that comes first (left, right, corner, top, bottom) is chosen; and no
/// zone is chosen only when no enabled edge is near.
pub proof fn lemma_snap_zone_needs_its_edge(px: int, py: int, bounds: IRect, threshold: int, snap: EdgeSnapConfig)
    ensures
        ({
            let left = px - bounds.min.x < threshold && snap.left == Some(true);
            let right = bounds.max.x - px < threshold && snap.right == Some(true);
            let corner = py - bounds.min.y < threshold && px - bounds.min.x < threshold && snap.fullscreen == Some(
                true,
            );
            let top = py - bounds.min.y < threshold && snap.top == Some(true);
            let bottom = bounds.max.y - py < threshold && snap.bottom == Some(true);
            let z = spec_snap_zone(px, py, bounds, threshold, snap);
            &&& z == Some(SnapZone::LeftHalf) ==> left
            &&& z == Some(SnapZone::RightHalf) ==> right
            &&& z == Some(SnapZone::Fullscreen) ==> corner
            &&& z == Some(SnapZone::TopHalf) ==> top
            &&& z == Some(SnapZone::BottomHalf) ==> bottom
            &&& left ==> z == Some(SnapZone::LeftHalf)
            &&& !left && right ==> z == Some(SnapZone::RightHalf)
            &&& !left && !right && corner ==> z == Some(SnapZone::Fullscreen)
            &&& !left && !right && !corner && top ==> z == Some(SnapZone::TopHalf)
            &&& !left && !right && !corner && !top && bottom ==> z == Some(SnapZone::BottomHalf)
            &&& z is None <==> !(left || right || corner || top || bottom)
        }),
{
}

} // verus!
