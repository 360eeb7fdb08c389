//! Viewport offset arithmetic for trackpad swipes.
use vstd::prelude::*;
use crate::geometry::fits_i32;

verus! {

/// Leftmost allowed offset: the first column sits at the left padding.
pub open spec fn left_aligned_offset(pad_left: int) -> int {
    -pad_left
}

/// Rightmost allowed offset: the last column ends at the right padding.
pub open spec fn right_aligned_offset(
    total_strip_width: int,
    viewport_width: int,
    pad_left: int,
    pad_right: int,
) -> int {
    total_strip_width - (viewport_width - pad_left - pad_right) - pad_left
}

/// The viewport offset after applying `shift` to `offset`, clamped unless
/// scrolling is `continuous`.
pub open spec fn spec_clamped_offset(
    offset: int,
    shift: int,
    total_strip_width: int,
    viewport_width: int,
    pad_left: int,
    pad_right: int,
    continuous: bool,
) -> int {
    let new_offset = offset + shift;
    if continuous {
        new_offset
    } else {
        let lo = left_aligned_offset(pad_left);
        let r = right_aligned_offset(total_strip_width, viewport_width, pad_left, pad_right);
        let hi = if r > lo { r } else { lo };
        if new_offset < lo {
            lo
        } else if new_offset > hi {
            hi
        } else {
            new_offset
        }
    }
}

/// No intermediate value of the offset computation leaves the `i32` range.
pub open spec fn clamp_inputs_fit(
    offset: int,
    shift: int,
    total_strip_width: int,
    viewport_width: int,
    pad_left: int,
    pad_right: int,
    continuous: bool,
) -> bool {
    &&& fits_i32(offset + shift)
    &&& !continuous ==> {
        &&& fits_i32(viewport_width - pad_left)
        &&& fits_i32(viewport_width - pad_left - pad_right)
        &&& fits_i32(-pad_left)
        &&& fits_i32(total_strip_width - (viewport_width - pad_left - pad_right))
        &&& fits_i32(right_aligned_offset(total_strip_width, viewport_width, pad_left, pad_right))
    }
}

/// Clamps a viewport offset so edge windows stay on-screen.
///
/// When `continuous` is true no clamping is applied (the strip scrolls
/// freely); otherwise the result lies between the left-aligned and the
/// right-aligned offsets.
pub fn clamp_viewport_offset(
    offset: i32,
    shift: i32,
    total_strip_width: i32,
    viewport_width: i32,
    pad_left: i32,
    pad_right: i32,
    continuous: bool,
) -> (r: i32)
    requires
        clamp_inputs_fit(
            offset as int,
            shift as int,
            total_strip_width as int,
            viewport_width as int,
            pad_left as int,
            pad_right as int,
            continuous,
        ),
    ensures
        r == spec_clamped_offset(
            offset as int,
            shift as int,
            total_strip_width as int,
            viewport_width as int,
            pad_left as int,
            pad_right as int,
            continuous,
        ),
{
    let new_offset = offset + shift;
    if continuous {
        return new_offset;
    }
    let effective_width = viewport_width - pad_left - pad_right;
    let left_aligned = -pad_left;
    let right_aligned = total_strip_width - effective_width - pad_left;
    let hi = if right_aligned > left_aligned { right_aligned } else { left_aligned };
    if new_offset < left_aligned {
        left_aligned
    } else if new_offset > hi {
        hi
    } else {
        new_offset
    }
}

/// Law: a clamped offset never leaves the allowed window
/// `[left_aligned, max(left_aligned, right_aligned)]`.
pub proof fn lemma_clamped_offset_in_bounds(
    offset: int,
    shift: int,
    total_strip_width: int,
    viewport_width: int,
    pad_left: int,
    pad_right: int,
)
    ensures
        ({
            let r = spec_clamped_offset(
                offset, shift, total_strip_width, viewport_width, pad_left, pad_right, false);
            let lo = left_aligned_offset(pad_left);
            let ra = right_aligned_offset(total_strip_width, viewport_width, pad_left, pad_right);
            &&& lo <= r
            &&& r <= (if ra > lo { ra } else { lo })
        }),
{
}

/// Law: for a fixed start offset, the clamped result is monotone in the shift.
pub proof fn lemma_clamped_offset_monotone(
    offset: int,
    shift1: int,
    shift2: int,
    total_strip_width: int,
    viewport_width: int,
    pad_left: int,
    pad_right: int,
    continuous: bool,
)
    requires
        shift1 <= shift2,
    ensures
        spec_clamped_offset(
            offset, shift1, total_strip_width, viewport_width, pad_left, pad_right, continuous)
            <= spec_clamped_offset(
            offset, shift2, total_strip_width, viewport_width, pad_left, pad_right, continuous),
{
}

/// Law: continuous scrolling applies the shift unchanged.
pub proof fn lemma_continuous_is_plain_shift(
    offset: int,
    shift: int,
    total_strip_width: int,
    viewport_width: int,
    pad_left: int,
    pad_right: int,
)
    ensures
        spec_clamped_offset(
            offset, shift, total_strip_width, viewport_width, pad_left, pad_right, true)
            == offset + shift,
{
}

/// Law: an offset already inside the allowed window is kept by a zero shift.
pub proof fn lemma_clamp_idempotent(
    offset: int,
    total_strip_width: int,
    viewport_width: int,
    pad_left: int,
    pad_right: int,
    continuous: bool,
)
    ensures
        ({
            let once = spec_clamped_offset(
                offset, 0, total_strip_width, viewport_width, pad_left, pad_right, continuous);
            spec_clamped_offset(
                once, 0, total_strip_width, viewport_width, pad_left, pad_right, continuous)
                == once
        }),
{
}

} // verus!
