use karakuri::geometry::IRect;
use karakuri::overlay::{overlay_action, FocusedOverlay, OverlayAction};

fn focused(unmanaged: bool, full_screen: bool) -> FocusedOverlay {
    FocusedOverlay { frame: IRect::new(100, 50, 900, 650), h_pad: 8, v_pad: 4, unmanaged, full_screen }
}

#[test]
fn overlays_removed_when_off_or_nothing_to_draw() {
    assert_eq!(overlay_action(false, true, true, Some(focused(false, false))), OverlayAction::RemoveAll);
    assert_eq!(overlay_action(true, false, false, Some(focused(false, false))), OverlayAction::RemoveAll);
}

#[test]
fn overlays_hidden_without_a_managed_focused_window() {
    assert_eq!(overlay_action(true, true, false, None), OverlayAction::HideAll);
    assert_eq!(overlay_action(true, false, true, Some(focused(true, false))), OverlayAction::HideAll);
    assert_eq!(overlay_action(true, true, true, Some(focused(false, true))), OverlayAction::HideAll);
}

#[test]
fn overlays_follow_the_padded_focused_frame() {
    assert_eq!(
        overlay_action(true, false, true, Some(focused(false, false))),
        OverlayAction::Update(IRect::new(108, 54, 892, 646))
    );
}

#[test]
fn undecorated_windows_at_the_limits_hide_overlays() {
    let edge = FocusedOverlay {
        frame: IRect::new(i32::MIN, i32::MIN, i32::MAX, i32::MAX),
        h_pad: -10,
        v_pad: -10,
        unmanaged: true,
        full_screen: false,
    };
    assert_eq!(overlay_action(true, true, true, Some(edge)), OverlayAction::HideAll);
    let full = FocusedOverlay { unmanaged: false, full_screen: true, ..edge };
    assert_eq!(overlay_action(true, false, true, Some(full)), OverlayAction::HideAll);
    assert_eq!(overlay_action(false, true, true, Some(full)), OverlayAction::RemoveAll);
}
