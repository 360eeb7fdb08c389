use std::collections::HashMap;

use karakuri::geometry::{IRect, IVec2};
use karakuri::layout::{compute_final_frames, DisplayGeometry, LayoutPadding, SliverConfig, WindowId, WindowInfo};

fn test_display() -> DisplayGeometry {
    DisplayGeometry {
        bounds: IRect::new(0, 0, 1920, 1080),
        menubar_height: 25,
        dock_bottom: 0,
        origin: IVec2::zero(),
    }
}

fn test_padding() -> LayoutPadding {
    LayoutPadding {
        top: 10,
        right: 10,
        bottom: 10,
        left: 10,
    }
}

/// The sliver settings for a width and a height ratio, with the height
/// inset worked out for the display and padding as the window manager does.
fn sliver_for(width: i32, height_ratio: f64, display: &DisplayGeometry, padding: &LayoutPadding) -> SliverConfig {
    let usable_height = display.bounds.height() - display.dock_bottom;
    let inset = (f64::from(usable_height - padding.top - padding.bottom) * (1.0 - height_ratio) / 2.0) as i32;
    SliverConfig { width, height_inset: inset }
}

fn test_sliver(display: &DisplayGeometry, padding: &LayoutPadding) -> SliverConfig {
    sliver_for(30, 0.3, display, padding)
}

struct World {
    next: WindowId,
}

impl World {
    fn new() -> Self {
        World { next: 1 }
    }
}

fn make_entity(world: &mut World) -> WindowId {
    world.next += 1;
    world.next
}

#[test]
fn on_screen_window_gets_padding_and_menubar() {
    let mut world = World::new();
    let entity = make_entity(&mut world);

    let display = test_display();
    let padding = test_padding();
    let sliver = test_sliver(&display, &padding);

    let windows = vec![(
        entity,
        WindowInfo {
            layout_frame: IRect::new(0, 0, 960, 1035),
            old_frame: IRect::new(0, 0, 0, 0),
            h_pad: 0,
            is_stacked: false,
        },
    )];

    let results = compute_final_frames(&display, &padding, &sliver, false, None, &windows);
    assert_eq!(results.len(), 1);

    let (_, update) = &results[0];
    // x should be shifted by pad_left (10)
    assert_eq!(update.frame.min.x, 10);
    assert_eq!(update.frame.max.x, 970);
    // y should be shifted by menubar (25) + pad_top (10)
    assert_eq!(update.frame.min.y, 35);
    assert_eq!(update.frame.max.y, 1070);
    assert!(update.moved);
    assert!(update.resized);
}

#[test]
fn off_screen_left_shows_sliver() {
    let mut world = World::new();
    let entity = make_entity(&mut world);

    let display = test_display();
    let padding = test_padding();
    let sliver = test_sliver(&display, &padding);

    // Window far to the left (center below pad_left)
    let windows = vec![(
        entity,
        WindowInfo {
            layout_frame: IRect::new(-500, 0, -100, 1035),
            old_frame: IRect::new(0, 0, 0, 0),
            h_pad: 0,
            is_stacked: false,
        },
    )];

    let results = compute_final_frames(&display, &padding, &sliver, false, None, &windows);
    assert_eq!(results.len(), 1);

    let (_, update) = &results[0];
    // Off-screen left: max.x should be sliver.width (30)
    assert_eq!(update.frame.max.x, 30);
    assert_eq!(update.frame.min.x, 30 - 400); // sliver_width - width
}

#[test]
fn off_screen_right_shows_sliver() {
    let mut world = World::new();
    let entity = make_entity(&mut world);

    let display = test_display();
    let padding = test_padding();
    let sliver = test_sliver(&display, &padding);

    // Window far to the right
    let windows = vec![(
        entity,
        WindowInfo {
            layout_frame: IRect::new(2000, 0, 2400, 1035),
            old_frame: IRect::new(0, 0, 0, 0),
            h_pad: 0,
            is_stacked: false,
        },
    )];

    let results = compute_final_frames(&display, &padding, &sliver, false, None, &windows);
    assert_eq!(results.len(), 1);

    let (_, update) = &results[0];
    // Off-screen right: min.x should be display_width - sliver_width
    assert_eq!(update.frame.min.x, 1920 - 30);
}

#[test]
fn stacked_off_screen_keeps_full_height() {
    let mut world = World::new();
    let entity = make_entity(&mut world);

    let display = test_display();
    let padding = test_padding();
    let sliver = test_sliver(&display, &padding);

    let windows = vec![(
        entity,
        WindowInfo {
            layout_frame: IRect::new(-500, 0, -100, 500),
            old_frame: IRect::new(0, 0, 0, 0),
            h_pad: 0,
            is_stacked: true,
        },
    )];

    let results = compute_final_frames(&display, &padding, &sliver, false, None, &windows);
    let (_, update) = &results[0];

    // Stacked windows keep full height (no inset).
    let expected_height = 500; // same as layout_frame height
    assert_eq!(update.frame.height(), expected_height);
}

#[test]
fn non_stacked_off_screen_compresses_height() {
    let mut world = World::new();
    let entity = make_entity(&mut world);

    let display = test_display();
    let padding = test_padding();
    let sliver = test_sliver(&display, &padding);

    let windows = vec![(
        entity,
        WindowInfo {
            layout_frame: IRect::new(-500, 0, -100, 500),
            old_frame: IRect::new(0, 0, 0, 0),
            h_pad: 0,
            is_stacked: false,
        },
    )];

    let results = compute_final_frames(&display, &padding, &sliver, false, None, &windows);
    let (_, update) = &results[0];

    // Non-stacked off-screen should be compressed.
    assert!(update.frame.height() < 500);
}

#[test]
fn swiping_off_screen_keeps_full_height() {
    let mut world = World::new();
    let entity = make_entity(&mut world);

    let display = test_display();
    let padding = test_padding();
    let sliver = test_sliver(&display, &padding);

    let windows = vec![(
        entity,
        WindowInfo {
            layout_frame: IRect::new(-500, 0, -100, 500),
            old_frame: IRect::new(0, 0, 0, 0),
            h_pad: 0,
            is_stacked: false,
        },
    )];

    let results = compute_final_frames(&display, &padding, &sliver, true, None, &windows);
    let (_, update) = &results[0];

    // During swipe, even non-stacked keeps full height.
    assert_eq!(update.frame.height(), 500);
}

#[test]
fn pre_positions_skip_unchanged() {
    let mut world = World::new();
    let entity = make_entity(&mut world);

    let display = test_display();
    let padding = test_padding();
    let sliver = test_sliver(&display, &padding);

    // Compute the expected final frame first.
    let windows = vec![(
        entity,
        WindowInfo {
            layout_frame: IRect::new(0, 0, 960, 1035),
            old_frame: IRect::new(0, 0, 0, 0),
            h_pad: 0,
            is_stacked: false,
        },
    )];
    let first = compute_final_frames(&display, &padding, &sliver, false, None, &windows);
    let final_frame = first[0].1.frame;

    // Now with pre_positions matching the final frame — should be skipped.
    let mut pre = HashMap::new();
    pre.insert(entity, final_frame);
    let results =
        compute_final_frames(&display, &padding, &sliver, false, Some(&pre), &windows);
    assert!(results.is_empty(), "should skip when pre-position matches");
}

#[test]
fn unchanged_frame_not_emitted() {
    let mut world = World::new();
    let entity = make_entity(&mut world);

    let display = test_display();
    let padding = test_padding();
    let sliver = test_sliver(&display, &padding);

    // Set old_frame to match the expected final position.
    let windows_first = vec![(
        entity,
        WindowInfo {
            layout_frame: IRect::new(0, 0, 960, 1035),
            old_frame: IRect::new(0, 0, 0, 0),
            h_pad: 0,
            is_stacked: false,
        },
    )];
    let first =
        compute_final_frames(&display, &padding, &sliver, false, None, &windows_first);
    let final_frame = first[0].1.frame;

    let windows = vec![(
        entity,
        WindowInfo {
            layout_frame: IRect::new(0, 0, 960, 1035),
            old_frame: final_frame,
            h_pad: 0,
            is_stacked: false,
        },
    )];
    let results = compute_final_frames(&display, &padding, &sliver, false, None, &windows);
    assert!(
        results.is_empty(),
        "should not emit update when frame unchanged"
    );
}

#[test]
fn h_pad_adjusts_sliver_position() {
    let mut world = World::new();
    let entity = make_entity(&mut world);

    let display = test_display();
    let padding = test_padding();
    let sliver = test_sliver(&display, &padding);

    // Off-screen right with h_pad=5
    let windows = vec![(
        entity,
        WindowInfo {
            layout_frame: IRect::new(2000, 0, 2400, 1035),
            old_frame: IRect::new(0, 0, 0, 0),
            h_pad: 5,
            is_stacked: false,
        },
    )];

    let results = compute_final_frames(&display, &padding, &sliver, false, None, &windows);
    let (_, update) = &results[0];

    // h_pad shifts sliver inward: display_width - sliver_width - h_pad
    assert_eq!(update.frame.min.x, 1920 - 30 - 5);
}

#[test]
fn multi_display_origin_offset() {
    let mut world = World::new();
    let entity = make_entity(&mut world);

    // Second display at x=1920
    let display = DisplayGeometry {
        bounds: IRect::new(1920, 0, 3840, 1080),
        menubar_height: 25,
        dock_bottom: 0,
        origin: IVec2::new(1920, 0),
    };
    let padding = LayoutPadding {
        top: 0,
        right: 0,
        bottom: 0,
        left: 0,
    };
    let sliver = test_sliver(&display, &padding);

    let windows = vec![(
        entity,
        WindowInfo {
            layout_frame: IRect::new(0, 0, 960, 1055),
            old_frame: IRect::new(0, 0, 0, 0),
            h_pad: 0,
            is_stacked: false,
        },
    )];

    let results = compute_final_frames(&display, &padding, &sliver, false, None, &windows);
    let (_, update) = &results[0];

    // Should be offset by display origin (1920, 0)
    assert_eq!(update.frame.min.x, 1920);
    assert_eq!(update.frame.max.x, 2880);
}

#[test]
fn dock_bottom_reduces_usable_height_for_sliver_compression() {
    let mut world = World::new();
    let e1 = make_entity(&mut world);
    let e2 = make_entity(&mut world);

    let display_no_dock = DisplayGeometry {
        bounds: IRect::new(0, 0, 1920, 1080),
        menubar_height: 25,
        dock_bottom: 0,
        origin: IVec2::zero(),
    };
    let display_dock = DisplayGeometry {
        bounds: IRect::new(0, 0, 1920, 1080),
        menubar_height: 25,
        dock_bottom: 80,
        origin: IVec2::zero(),
    };
    let padding = test_padding();
    // Use a high height_ratio so compression doesn't invert the rect.
    let sliver_no_dock = sliver_for(30, 0.9, &display_no_dock, &padding);
    let sliver_dock = sliver_for(30, 0.9, &display_dock, &padding);

    let make_window = |e: WindowId| {
        vec![(
            e,
            WindowInfo {
                layout_frame: IRect::new(-500, 0, -100, 1035),
                old_frame: IRect::new(0, 0, 0, 0),
                h_pad: 0,
                is_stacked: false,
            },
        )]
    };

    let r1 = compute_final_frames(
        &display_no_dock,
        &padding,
        &sliver_no_dock,
        false,
        None,
        &make_window(e1),
    );
    let r2 = compute_final_frames(
        &display_dock,
        &padding,
        &sliver_dock,
        false,
        None,
        &make_window(e2),
    );

    // With dock, compressed height should be different (less usable space).
    let h1 = r1[0].1.frame.height();
    let h2 = r2[0].1.frame.height();
    assert_ne!(h1, h2, "dock should affect compressed height");
    // Dock reduces usable height → smaller inset → larger compressed window.
    // Actually: less usable_height → less inset → taller compressed window.
    // No: inset = (usable - pad) * (1 - ratio) / 2
    //   More usable → more inset → smaller window. Wait...
    //   height = layout_height - 2*inset. More inset → smaller.
    //   dock reduces usable → reduces inset → increases height.
    // So h2 > h1 when dock is present (less compression).
    assert!(h2 > h1, "dock should reduce compression (larger window): h1={h1}, h2={h2}");
}

#[test]
fn negative_display_origin() {
    let mut world = World::new();
    let entity = make_entity(&mut world);

    // Display to the left of the primary (negative x origin)
    let display = DisplayGeometry {
        bounds: IRect::new(-1920, 0, 0, 1080),
        menubar_height: 25,
        dock_bottom: 0,
        origin: IVec2::new(-1920, 0),
    };
    let padding = test_padding();
    let sliver = test_sliver(&display, &padding);

    let windows = vec![(
        entity,
        WindowInfo {
            layout_frame: IRect::new(0, 0, 960, 1035),
            old_frame: IRect::new(0, 0, 0, 0),
            h_pad: 0,
            is_stacked: false,
        },
    )];

    let results = compute_final_frames(&display, &padding, &sliver, false, None, &windows);
    assert_eq!(results.len(), 1);

    let (_, update) = &results[0];
    // x: origin(-1920) + layout(0) + pad_left(10) = -1910
    assert_eq!(update.frame.min.x, -1910);
    assert_eq!(update.frame.max.x, -950);
}

#[test]
fn sliver_height_ratio_one_means_no_compression() {
    let mut world = World::new();
    let entity = make_entity(&mut world);

    let display = test_display();
    let padding = test_padding();
    let sliver = sliver_for(30, 1.0, &display, &padding); // No compression

    let windows = vec![(
        entity,
        WindowInfo {
            layout_frame: IRect::new(-500, 0, -100, 500),
            old_frame: IRect::new(0, 0, 0, 0),
            h_pad: 0,
            is_stacked: false,
        },
    )];

    let results = compute_final_frames(&display, &padding, &sliver, false, None, &windows);
    let (_, update) = &results[0];

    // height_ratio=1.0 → inset=0 → full layout height preserved
    assert_eq!(update.frame.height(), 500);
}

#[test]
fn sliver_height_ratio_zero_maximally_compresses() {
    let mut world = World::new();
    let entity = make_entity(&mut world);

    let display = test_display();
    let padding = test_padding();
    let sliver = sliver_for(30, 0.0, &display, &padding); // Maximum compression

    // Use a tall window so compression is visible
    let windows = vec![(
        entity,
        WindowInfo {
            layout_frame: IRect::new(-500, 0, -100, 1035),
            old_frame: IRect::new(0, 0, 0, 0),
            h_pad: 0,
            is_stacked: false,
        },
    )];

    let results = compute_final_frames(&display, &padding, &sliver, false, None, &windows);
    let (_, update) = &results[0];

    // height_ratio=0 → inset = (usable - pad) / 2 → heavily compressed
    let usable = 1080 - 0; // no dock
    let inset = (f64::from(usable - 10 - 10) * 1.0 / 2.0) as i32;
    let expected_height = 1035 - 2 * inset;
    assert_eq!(update.frame.height(), expected_height);
}

#[test]
fn mixed_stacked_and_non_stacked_off_screen() {
    let mut world = World::new();
    let stacked = make_entity(&mut world);
    let non_stacked = make_entity(&mut world);

    let display = test_display();
    let padding = test_padding();
    let sliver = sliver_for(30, 0.9, &display, &padding);

    let windows = vec![
        (
            stacked,
            WindowInfo {
                layout_frame: IRect::new(-500, 0, -100, 500),
                old_frame: IRect::new(0, 0, 0, 0),
                h_pad: 0,
                is_stacked: true,
            },
        ),
        (
            non_stacked,
            WindowInfo {
                layout_frame: IRect::new(-500, 0, -100, 500),
                old_frame: IRect::new(0, 0, 0, 0),
                h_pad: 0,
                is_stacked: false,
            },
        ),
    ];

    let results = compute_final_frames(&display, &padding, &sliver, false, None, &windows);
    assert_eq!(results.len(), 2);

    let stacked_h = results[0].1.frame.height();
    let non_stacked_h = results[1].1.frame.height();

    // Stacked keeps full height, non-stacked is compressed
    assert_eq!(stacked_h, 500);
    assert!(non_stacked_h < 500);
}

#[test]
fn empty_windows_returns_empty() {
    let display = test_display();
    let padding = test_padding();
    let sliver = test_sliver(&display, &padding);

    let results = compute_final_frames(&display, &padding, &sliver, false, None, &[]);
    assert!(results.is_empty());
}

#[test]
fn many_windows_all_produce_results() {
    let mut world = World::new();
    let windows: Vec<_> = (0..100)
        .map(|i| {
            let entity = make_entity(&mut world);
            (
                entity,
                WindowInfo {
                    layout_frame: IRect::new(i * 19, 0, (i + 1) * 19, 1035),
                    old_frame: IRect::new(0, 0, 0, 0),
                    h_pad: 0,
                    is_stacked: false,
                },
            )
        })
        .collect();

    let display = test_display();
    let padding = test_padding();
    let sliver = test_sliver(&display, &padding);

    let results = compute_final_frames(&display, &padding, &sliver, false, None, &windows);
    // All windows should produce a result (all have different frames from old_frame)
    assert_eq!(results.len(), 100);
}

#[test]
fn off_screen_left_with_h_pad_and_exact_compression() {
    let mut world = World::new();
    let entity = make_entity(&mut world);
    let display = test_display();
    let padding = test_padding();
    let sliver = SliverConfig { width: 30, height_inset: 100 };
    let windows = vec![(
        entity,
        WindowInfo {
            layout_frame: IRect::new(-500, 0, -100, 500),
            old_frame: IRect::new(0, 0, 0, 0),
            h_pad: 4,
            is_stacked: false,
        },
    )];
    let results = compute_final_frames(&display, &padding, &sliver, false, None, &windows);
    let (id, update) = &results[0];
    assert_eq!(*id, entity);
    // left sliver: max.x = sliver + h_pad, width kept
    assert_eq!(update.frame, IRect::new(34 - 400, 35 + 100, 34, 535 - 100));
}

#[test]
fn only_moved_or_resized_flags_are_set() {
    let mut world = World::new();
    let entity = make_entity(&mut world);
    let display = test_display();
    let padding = test_padding();
    let sliver = test_sliver(&display, &padding);
    // Final frame is (10, 35)-(970, 1070); old frame has the same size elsewhere.
    let windows = vec![(
        entity,
        WindowInfo {
            layout_frame: IRect::new(0, 0, 960, 1035),
            old_frame: IRect::new(0, 0, 960, 1035),
            h_pad: 0,
            is_stacked: false,
        },
    )];
    let results = compute_final_frames(&display, &padding, &sliver, false, None, &windows);
    assert_eq!(results.len(), 1);
    assert!(results[0].1.moved);
    assert!(!results[0].1.resized);
}

#[test]
fn pre_position_with_other_size_is_still_emitted() {
    let mut world = World::new();
    let entity = make_entity(&mut world);
    let display = test_display();
    let padding = test_padding();
    let sliver = test_sliver(&display, &padding);
    let windows = vec![(
        entity,
        WindowInfo {
            layout_frame: IRect::new(0, 0, 960, 1035),
            old_frame: IRect::new(0, 0, 0, 0),
            h_pad: 0,
            is_stacked: false,
        },
    )];
    let mut pre = HashMap::new();
    pre.insert(entity, IRect::new(10, 35, 900, 1070));
    let results = compute_final_frames(&display, &padding, &sliver, false, Some(&pre), &windows);
    assert_eq!(results.len(), 1);
}
