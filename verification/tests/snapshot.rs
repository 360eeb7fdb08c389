use karakuri::config::{MainOptions, WindowMode};
use karakuri::ecs::{DockPosition, Initializing, MissionControlActive, SkipReshuffle, Unmanaged};
use karakuri::geometry::IRect;
use karakuri::ipc::QueryKind;
use karakuri::snapshot::{
    build_snapshot, config_flags, find_window, query_answer, snapshot_windows, snapshot_workspaces, BoundsSnapshot,
    ConfigFlags, DisplayState, QueryAnswer, WindowState, WorkspaceEntry, WorkspaceState,
};

fn window(entity: u64, id: i32, title: Option<&str>) -> WindowState {
    WindowState {
        entity,
        id,
        title: title.map(str::to_string),
        bundle_id: Some("com.apple.Terminal".to_string()),
        frame: IRect::new(10, 20, 110, 220),
        unmanaged: None,
        full_width: false,
    }
}

#[test]
fn snapshot_lists_displays_workspaces_and_windows() {
    let mut floating = window(3, 30, None);
    floating.unmanaged = Some(Unmanaged::Floating);
    floating.bundle_id = None;
    let displays = vec![DisplayState {
        id: 1,
        active: true,
        bounds: IRect::new(0, 0, 1920, 1080),
        dock: Some(DockPosition::Bottom(64)),
        workspaces: vec![
            WorkspaceState { id: 100, active: true, windows: vec![window(1, 10, Some("a")), window(2, 20, Some("b"))] },
            WorkspaceState { id: 101, active: false, windows: vec![floating] },
        ],
    }];
    let s = build_snapshot(&displays, Some(2), ConfigFlags::default());
    assert_eq!(s.displays.len(), 1);
    let d = &s.displays[0];
    assert_eq!(d.id, 1);
    assert!(d.is_active);
    assert_eq!(d.bounds, BoundsSnapshot { x: 0, y: 0, width: 1920, height: 1080 });
    assert_eq!(d.dock.as_deref(), Some("bottom(64)"));
    assert_eq!(d.workspaces.len(), 2);
    let w = &d.workspaces[0].layout_strip.windows;
    assert_eq!(w[0].title, "a");
    assert_eq!(w[0].app_name, "com.apple.Terminal");
    assert_eq!(w[0].bounds, BoundsSnapshot { x: 10, y: 20, width: 100, height: 200 });
    assert!(!w[0].is_focused);
    assert!(w[1].is_focused);
    let f = &d.workspaces[1].layout_strip.windows[0];
    assert_eq!(f.title, "");
    assert_eq!(f.bundle_id, "");
    assert!(f.is_unmanaged);
    let focused = s.focused_window.expect("focused window");
    assert_eq!(focused.id, 20);
    assert_eq!(focused.title, "b");
}

#[test]
fn no_focus_no_focused_window() {
    let displays = vec![DisplayState {
        id: 2,
        active: false,
        bounds: IRect::new(-1920, 0, 0, 1080),
        dock: None,
        workspaces: vec![WorkspaceState { id: 1, active: true, windows: vec![window(1, 10, None)] }],
    }];
    let s = build_snapshot(&displays, None, ConfigFlags::default());
    assert!(s.focused_window.is_none());
    assert!(s.displays[0].dock.is_none());
    assert_eq!(s.displays[0].bounds.x, -1920);
    let s2 = build_snapshot(&displays, Some(99), ConfigFlags::default());
    assert!(s2.focused_window.is_none());
}

#[test]
fn dock_labels() {
    assert_eq!(DockPosition::Left(-3).label(), "left(-3)");
    assert_eq!(DockPosition::Right(0).label(), "right(0)");
    assert_eq!(DockPosition::Hidden.label(), "hidden");
}

#[test]
fn config_flags_defaults_and_state() {
    let o = MainOptions::default();
    let f = config_flags(&o, &SkipReshuffle(true), &MissionControlActive(false), &Some(Initializing));
    assert_eq!(f.mode, "tiling");
    assert!(f.enable_manage_toggle);
    assert!(f.focus_follows_mouse);
    assert!(f.mouse_follows_focus);
    assert!(!f.auto_center);
    assert!(f.skip_reshuffle);
    assert!(!f.mission_control_active);
    assert!(f.initializing);
    assert!(!f.edge_snap_left);
    assert!(f.edge_snap_preview);
    assert_eq!(f.edge_snap_sticky_dwell_ms, 300);
    assert!(!f.suppress_four_finger);

    let mut o2 = MainOptions::default();
    o2.mode = WindowMode::Floating;
    o2.focus_follows_mouse = Some(false);
    o2.edge_snap.left = Some(true);
    o2.edge_snap.sticky_dwell_ms = Some(0);
    o2.gesture_suppress.four_finger = Some(true);
    let f2 = config_flags(&o2, &SkipReshuffle(false), &MissionControlActive(true), &None);
    assert_eq!(f2.mode, "floating");
    assert!(!f2.focus_follows_mouse);
    assert!(f2.edge_snap_left);
    assert_eq!(f2.edge_snap_sticky_dwell_ms, 0);
    assert!(f2.suppress_four_finger);
    assert!(f2.mission_control_active);
    assert!(!f2.initializing);
}

fn two_displays() -> Vec<DisplayState> {
    vec![
        DisplayState {
            id: 1,
            active: true,
            bounds: IRect::new(0, 0, 1920, 1080),
            dock: None,
            workspaces: vec![
                WorkspaceState { id: 100, active: true, windows: vec![window(1, 10, Some("a")), window(2, 20, Some("b"))] },
                WorkspaceState { id: 101, active: false, windows: vec![] },
            ],
        },
        DisplayState {
            id: 2,
            active: false,
            bounds: IRect::new(1920, 0, 3840, 1080),
            dock: None,
            workspaces: vec![WorkspaceState { id: 200, active: true, windows: vec![window(3, 30, Some("c"))] }],
        },
    ]
}

#[test]
fn windows_and_workspaces_are_listed_with_their_display() {
    let s = build_snapshot(&two_displays(), Some(3), ConfigFlags::default());
    let ws = snapshot_windows(&s);
    let ids: Vec<(i32, u32, u64)> = ws.iter().map(|e| (e.window.id, e.display_id, e.workspace_id)).collect();
    assert_eq!(ids, vec![(10, 1, 100), (20, 1, 100), (30, 2, 200)]);
    assert!(ws[2].window.is_focused);
    let spaces = snapshot_workspaces(&s);
    assert_eq!(
        spaces,
        vec![
            WorkspaceEntry { id: 100, display_id: 1, is_active: true, window_count: 2 },
            WorkspaceEntry { id: 101, display_id: 1, is_active: false, window_count: 0 },
            WorkspaceEntry { id: 200, display_id: 2, is_active: true, window_count: 1 },
        ]
    );
    let found = find_window(&s, 20).expect("window 20");
    assert_eq!(found.window.title, "b");
    assert_eq!(found.workspace_id, 100);
    assert!(find_window(&s, 99).is_none());
}

#[test]
fn queries_are_answered_from_the_snapshot() {
    let s = build_snapshot(&two_displays(), None, ConfigFlags::default());
    assert!(matches!(query_answer(QueryKind::State, &s), QueryAnswer::State));
    assert!(matches!(query_answer(QueryKind::FullConfig, &s), QueryAnswer::FullConfig));
    assert!(matches!(query_answer(QueryKind::Windows, &s), QueryAnswer::Windows(v) if v.len() == 3));
    assert!(matches!(query_answer(QueryKind::Workspaces, &s), QueryAnswer::Workspaces(v) if v.len() == 3));
    assert!(matches!(query_answer(QueryKind::Window(30), &s), QueryAnswer::Window(Some(e)) if e.display_id == 2));
    assert!(matches!(query_answer(QueryKind::Window(31), &s), QueryAnswer::Window(None)));
    assert!(matches!(query_answer(QueryKind::Unknown, &s), QueryAnswer::Unknown));
}
