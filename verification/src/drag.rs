//! Window placement while dragging and when spawning unmanaged windows.
use vstd::prelude::*;
use crate::geometry::{fits_i32, max_int, min_int, IRect, IVec2};

verus! {

/// Highest origin a window of `size` may take inside `bounds` (never below
/// `bounds.min`), per axis.
pub open spec fn spec_max_origin(size: IVec2, bounds: IRect) -> (int, int) {
    (
        max_int(bounds.max.x - size.x, bounds.min.x as int),
        max_int(bounds.max.y - size.y, bounds.min.y as int),
    )
}

/// The clamped origin of a window dragged to `origin.min`.
pub open spec fn spec_clamped_origin(origin: IRect, size: IVec2, bounds: IRect) -> (int, int) {
    let hi = spec_max_origin(size, bounds);
    (
        min_int(max_int(origin.min.x as int, bounds.min.x as int), hi.0),
        min_int(max_int(origin.min.y as int, bounds.min.y as int), hi.1),
    )
}

/// The arithmetic of `clamp_origin_to_bounds` stays within `i32`.
pub open spec fn clamp_origin_fits(origin: IRect, size: IVec2, bounds: IRect) -> bool {
    let m = spec_clamped_origin(origin, size, bounds);
    &&& fits_i32(bounds.max.x - size.x)
    &&& fits_i32(bounds.max.y - size.y)
    &&& fits_i32(m.0 + size.x)
    &&& fits_i32(m.1 + size.y)
}

/// Clamps a window origin so the window of `size` stays within `bounds`
/// wherever it fits; the size of the window is kept.
pub fn clamp_origin_to_bounds(origin: IRect, size: IVec2, bounds: IRect) -> (r: IRect)
    requires
        clamp_origin_fits(origin, size, bounds),
    ensures
        ({
            let m = spec_clamped_origin(origin, size, bounds);
            r == IRect::spec_from_corners_int(m.0, m.1, m.0 + size.x, m.1 + size.y)
        }),
{
    let hi = IVec2 { x: bounds.max.x - size.x, y: bounds.max.y - size.y }.max(bounds.min);
    let min = origin.min.clamp(bounds.min, hi);
    IRect::from_corners(min, IVec2 { x: min.x + size.x, y: min.y + size.y })
}

/// The `k`-th candidate displacement tried by `offset_frame_within_bounds`.
pub open spec fn spec_candidate(k: int, offset: int) -> (int, int) {
    if k == 0 {
        (offset, offset)
    } else if k == 1 {
        (offset, -offset)
    } else if k == 2 {
        (-offset, offset)
    } else if k == 3 {
        (-offset, -offset)
    } else if k == 4 {
        (offset, 0)
    } else if k == 5 {
        (-offset, 0)
    } else if k == 6 {
        (0, offset)
    } else {
        (0, -offset)
    }
}

/// `frame` displaced by `(dx, dy)` (corners re-ordered like `from_corners`).
pub open spec fn spec_moved(frame: IRect, dx: int, dy: int) -> IRect {
    IRect::spec_from_corners_int(
        frame.min.x + dx,
        frame.min.y + dy,
        frame.max.x + dx,
        frame.max.y + dy,
    )
}

/// Whether `r` lies entirely inside `bounds`.
pub open spec fn spec_inside(r: IRect, bounds: IRect) -> bool {
    &&& r.min.x >= bounds.min.x
    &&& r.max.x <= bounds.max.x
    &&& r.min.y >= bounds.min.y
    &&& r.max.y <= bounds.max.y
}

/// The first displaced frame, trying candidates `k..8` in order, that fits
/// inside `bounds`; the frame itself when none does.
pub open spec fn spec_first_fit(frame: IRect, bounds: IRect, offset: int, k: nat) -> IRect
    decreases 8 - k,
{
    if k >= 8 {
        frame
    } else {
        let d = spec_candidate(k as int, offset);
        let moved = spec_moved(frame, d.0, d.1);
        if spec_inside(moved, bounds) {
            moved
        } else {
            spec_first_fit(frame, bounds, offset, k + 1)
        }
    }
}

/// All candidate displacements stay within `i32`.
pub open spec fn offset_fits(frame: IRect, offset: int) -> bool {
    &&& fits_i32(-offset)
    &&& fits_i32(frame.min.x + offset) && fits_i32(frame.min.x - offset)
    &&& fits_i32(frame.min.y + offset) && fits_i32(frame.min.y - offset)
    &&& fits_i32(frame.max.x + offset) && fits_i32(frame.max.x - offset)
    &&& fits_i32(frame.max.y + offset) && fits_i32(frame.max.y - offset)
}

fn candidate(k: u8, offset: i32) -> (d: (i32, i32))
    requires
        k < 8,
        fits_i32(-offset as int),
    ensures
        d.0 == spec_candidate(k as int, offset as int).0,
        d.1 == spec_candidate(k as int, offset as int).1,
{
    if k == 0 {
        (offset, offset)
    } else if k == 1 {
        (offset, -offset)
    } else if k == 2 {
        (-offset, offset)
    } else if k == 3 {
        (-offset, -offset)
    } else if k == 4 {
        (offset, 0)
    } else if k == 5 {
        (-offset, 0)
    } else if k == 6 {
        (0, offset)
    } else {
        (0, -offset)
    }
}

/// Tries eight displacements of `frame` by `offset` (diagonals first, then
/// the axes) and returns the first one lying entirely within `bounds`, or
/// `frame` unchanged when none fits.
pub fn offset_frame_within_bounds(frame: IRect, bounds: IRect, offset: i32) -> (r: IRect)
    requires
        offset_fits(frame, offset as int),
    ensures
        r == spec_first_fit(frame, bounds, offset as int, 0),
{
    let mut k: u8 = 0;
    while k < 8
        invariant
            k <= 8,
            offset_fits(frame, offset as int),
            spec_first_fit(frame, bounds, offset as int, 0)
                == spec_first_fit(frame, bounds, offset as int, k as nat),
        decreases 8 - k,
    {
        let (dx, dy) = candidate(k, offset);
        let moved = IRect::from_corners(
            IVec2 { x: frame.min.x + dx, y: frame.min.y + dy },
            IVec2 { x: frame.max.x + dx, y: frame.max.y + dy },
        );
        if moved.min.x >= bounds.min.x && moved.max.x <= bounds.max.x && moved.min.y
            >= bounds.min.y && moved.max.y <= bounds.max.y {
            return moved;
        }
        k = k + 1;
    }
    frame
}

/// Law: whenever `offset_frame_within_bounds` moves a frame, the moved frame
/// lies inside the bounds and keeps the frame's size.
pub proof fn lemma_offset_result_inside_or_unchanged(
    frame: IRect,
    bounds: IRect,
    offset: int,
    k: nat,
)
    requires
        frame.min.x <= frame.max.x,
        frame.min.y <= frame.max.y,
        offset_fits(frame, offset),
    ensures
        ({
            let r = spec_first_fit(frame, bounds, offset, k);
            ||| r == frame
            ||| (spec_inside(r, bounds) && r.spec_width() == frame.spec_width() && r.spec_height()
                == frame.spec_height())
        }),
    decreases 8 - k,
{
    if k < 8 {
        lemma_offset_result_inside_or_unchanged(frame, bounds, offset, k + 1);
    }
}

/// Law: a clamped window keeps its size, and lies inside `bounds` whenever it
/// is no larger than them.
pub proof fn lemma_clamp_keeps_size_and_fits(origin: IRect, size: IVec2, bounds: IRect)
    requires
        size.x >= 0,
        size.y >= 0,
        bounds.min.x <= bounds.max.x,
        bounds.min.y <= bounds.max.y,
        clamp_origin_fits(origin, size, bounds),
    ensures
        ({
            let m = spec_clamped_origin(origin, size, bounds);
            let r = IRect::spec_from_corners_int(m.0, m.1, m.0 + size.x, m.1 + size.y);
            &&& r.spec_width() == size.x
            &&& r.spec_height() == size.y
            &&& (size.x <= bounds.spec_width() && size.y <= bounds.spec_height()) ==> spec_inside(
                r,
                bounds,
            )
        }),
{
}

} // verus!
