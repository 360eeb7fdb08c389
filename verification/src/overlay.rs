//! What the dim and border overlays do for the focused window.
use vstd::prelude::*;
use crate::geometry::{fits_i32, IRect};

verus! {

/// What happens to the overlays.
#[derive(Clone, Copy, Debug, PartialEq, Eq, Structural)]
pub enum OverlayAction {
    /// Remove every overlay (window management off, or nothing to draw).
    RemoveAll,
    /// Hide every overlay (no managed window to decorate).
    HideAll,
    /// Draw the overlays around this frame.
    Update(IRect),
}

/// The focused window, as the overlays see it.
#[derive(Clone, Copy, Debug, PartialEq, Eq, Structural)]
pub struct FocusedOverlay {
    pub frame: IRect,
    pub h_pad: i32,
    pub v_pad: i32,
    pub unmanaged: bool,
    pub full_screen: bool,
}

/// Whether the frame inset by the paddings is representable.
pub open spec fn inset_fits(f: FocusedOverlay) -> bool {
    &&& fits_i32(f.frame.min.x + f.h_pad)
    &&& fits_i32(f.frame.min.y + f.v_pad)
    &&& fits_i32(f.frame.max.x - f.h_pad)
    &&& fits_i32(f.frame.max.y - f.v_pad)
}

/// Whether the focused window (if any) is one the overlays decorate: managed
/// and not full screen.
pub open spec fn decorates(focused: Option<FocusedOverlay>) -> bool {
    match focused {
        Some(f) => !f.unmanaged && !f.full_screen,
        None => false,
    }
}

/// The inset frame is representable whenever it is drawn: overlays are on
/// and the focused window is decorated.
pub open spec fn frame_needed_fits(enabled: bool, dim_active: bool, border: bool, focused: Option<FocusedOverlay>) -> bool {
    match focused {
        Some(f) => (enabled && (dim_active || border) && decorates(focused)) ==> inset_fits(f),
        None => true,
    }
}

/// The focused window's frame inset by its paddings.
pub open spec fn spec_inset_frame(f: FocusedOverlay) -> IRect {
    IRect::spec_from_corners_int(
        f.frame.min.x + f.h_pad,
        f.frame.min.y + f.v_pad,
        f.frame.max.x - f.h_pad,
        f.frame.max.y - f.v_pad,
    )
}

/// The overlay decision: remove everything when window management is off
/// or neither dimming nor a border is wanted; otherwise decorate the focused
/// window when it is managed and not full screen, and hide the overlays
/// when it is not (or nothing is focused).
pub open spec fn spec_overlay_action(
    enabled: bool,
    dim_active: bool,
    border: bool,
    focused: Option<FocusedOverlay>,
) -> OverlayAction {
    if !enabled || (!dim_active && !border) {
        OverlayAction::RemoveAll
    } else {
        match focused {
            Some(f) => if !f.unmanaged && !f.full_screen {
                OverlayAction::Update(spec_inset_frame(f))
            } else {
                OverlayAction::HideAll
            },
            None => OverlayAction::HideAll,
        }
    }
}

/// Decides what the overlays do, given whether window management is on,
/// whether inactive windows are dimmed, whether the active window gets a
/// border, and the focused managed window (if any).
pub fn overlay_action(enabled: bool, dim_active: bool, border: bool, focused: Option<FocusedOverlay>) -> (a:
    OverlayAction)
    requires
        frame_needed_fits(enabled, dim_active, border, focused),
    ensures
        a == spec_overlay_action(enabled, dim_active, border, focused),
        !enabled ==> a == OverlayAction::RemoveAll,
        enabled && !dim_active && !border ==> a == OverlayAction::RemoveAll,
        enabled && (dim_active || border) && !decorates(focused) ==> a == OverlayAction::HideAll,
{
    if !enabled || (!dim_active && !border) {
        return OverlayAction::RemoveAll;
    }
    match focused {
        Some(f) => {
            if !f.unmanaged && !f.full_screen {
                OverlayAction::Update(
                    IRect::new(f.frame.min.x + f.h_pad, f.frame.min.y + f.v_pad, f.frame.max.x - f.h_pad, f.frame.max.y - f.v_pad),
                )
            } else {
                OverlayAction::HideAll
            }
        },
        None => OverlayAction::HideAll,
    }
}

} // verus!
