use karakuri::errors::Error;
use karakuri::commands::{Command, Operation};
use karakuri::config::{
    gesture_entries, merge_gesture_defaults, AnimationConfig, DisplayConfig, GestureSuppress, MainOptions,
    SwipeGestureDirection, WindowMode,
};
use karakuri::defaults::{DefaultsEntry, DefaultsValue};
use karakuri::keys::{
    find_keybind, literal_keycode, parse_keybinding, resolve_binding, resolve_keybindings, virtual_keycode, Keybinding,
    Modifiers,
};
use karakuri::rules::{compile_window_rules, find_border_radius, find_window_properties, TitlePattern, WindowRule, WindowRuleConfig};

fn virtual_keys() -> Vec<(String, u8)> {
    virtual_keycode().into_iter().map(|(k, c)| (k.to_string(), c)).collect()
}

fn binding(name: &str, text: &str) -> Keybinding {
    let mut b = parse_keybinding(text).expect("valid keybinding");
    resolve_binding(name, &mut b, &virtual_keys(), &Vec::new()).expect("valid command");
    b
}

#[test]
fn test_config_parsing() {
    // [options] focus_follows_mouse = true
    let options = MainOptions { focus_follows_mouse: Some(true), ..MainOptions::default() };
    assert_eq!(options.focus_follows_mouse, Some(true));
    assert!(options.focus_follows_mouse());

    // [bindings] quit = "ctrl+alt-q", window_manage = "ctrl+alt-t",
    // window_stack = ["ctrl-s", "alt-s"]
    let bindings = vec![
        binding("quit", "ctrl+alt-q"),
        binding("window_manage", "ctrl+alt-t"),
        binding("window_stack", "ctrl-s"),
        binding("window_stack", "alt-s"),
    ];
    let find_key = |k: char| {
        virtual_keycode().into_iter().find_map(|(s, v)| (format!("{k}") == s).then_some(v)).unwrap()
    };

    // Modifiers: alt = 1<<0, ctrl = 1<<3.
    let keycode = find_key('q');
    assert!(matches!(
        find_keybind(&bindings, keycode, &(Modifiers::alt() | Modifiers::ctrl())),
        Some(Command::Quit)
    ));

    let keycode = find_key('t');
    assert!(matches!(
        find_keybind(&bindings, keycode, &(Modifiers::alt() | Modifiers::ctrl())),
        Some(Command::Window(Operation::Manage))
    ));

    let keycode = find_key('s');
    assert!(matches!(
        find_keybind(&bindings, keycode, &Modifiers::ctrl()),
        Some(Command::Window(Operation::Stack(true)))
    ));
    assert!(matches!(
        find_keybind(&bindings, keycode, &Modifiers::alt()),
        Some(Command::Window(Operation::Stack(true)))
    ));

    // [windows.pip] title = "picture.*picture", bundle_id = "com.something.apple",
    // floating = true, index = 1
    let mut pip = WindowRule::new(
        TitlePattern::compile("picture.*picture").unwrap(),
        Some("com.something.apple".to_string()),
    );
    pip.floating = Some(true);
    pip.index = Some(1);
    let rules = vec![pip];
    let props = &rules[find_window_properties(&rules, "picture in picture", "com.something.apple").unwrap()];
    assert_eq!(props.floating, Some(true));
    assert_eq!(props.index, Some(1));
}

#[test]
fn keybinding_syntax() {
    let b = parse_keybinding("shift - tab").unwrap();
    assert_eq!(b.key, "tab");
    assert_eq!(b.modifiers, Modifiers::shift());
    assert_eq!(b.code, 0);
    assert!(matches!(b.command, Command::Quit));
    let h = parse_keybinding("h").unwrap();
    assert_eq!(h.modifiers, Modifiers::empty());
    assert!(parse_keybinding("ctrl-alt-q").is_err());
    assert!(parse_keybinding("meta-q").is_err());
}

#[test]
fn literal_keys_resolve_when_layout_lacks_them() {
    let b = binding("quit", "ctrl-return");
    assert_eq!(b.code, 0x24);
    assert_eq!(literal_keycode().len(), 49);
    let unknown = binding("quit", "ctrl-nosuchkey");
    assert_eq!(unknown.code, 0);
}

#[test]
fn exec_bindings_need_a_known_exec() {
    let execs = vec![("term".to_string(), "open -a Terminal".to_string())];
    let mut b = parse_keybinding("alt-return").unwrap();
    resolve_binding("exec_term", &mut b, &virtual_keys(), &execs).unwrap();
    assert!(matches!(&b.command, Command::Exec(c) if c == "open -a Terminal"));
    let mut missing = parse_keybinding("alt-return").unwrap();
    assert!(resolve_binding("exec_other", &mut missing, &virtual_keys(), &execs).is_err());
    let mut bad = parse_keybinding("alt-x").unwrap();
    assert!(resolve_binding("window_fly", &mut bad, &virtual_keys(), &execs).is_err());
}

#[test]
fn window_rules_match_bundle_and_title() {
    let rules = vec![
        WindowRule::new(TitlePattern::compile("^Settings$").unwrap(), None),
        WindowRule::new(TitlePattern::compile(".*").unwrap(), Some("com.other".to_string())),
        WindowRule::new(TitlePattern::compile("Set").unwrap(), Some("com.app".to_string())),
    ];
    assert_eq!(find_window_properties(&rules, "Settings", "com.app"), Some(0));
    assert_eq!(find_window_properties(&rules, "Settings", "com.other"), Some(0));
    assert_eq!(find_window_properties(&rules, "Preferences", "com.other"), Some(1));
    assert_eq!(find_window_properties(&rules, "Set up", "com.app"), Some(2));
    assert_eq!(find_window_properties(&rules, "Other", "com.app"), None);
    assert!(TitlePattern::compile("foo(bar").is_err());
    assert!(TitlePattern::compile("pic.*").unwrap().is_match("a picture"));
}

#[test]
fn test_settle_frames_default() {
    let options = MainOptions::default();
    assert_eq!(options.settle_frames(), 2);
}

#[test]
fn test_settle_frames_from_config() {
    // [options.animation] settle_frames = 5
    let options = MainOptions { animation: AnimationConfig { settle_frames: Some(5) }, ..MainOptions::default() };
    assert_eq!(options.settle_frames(), 5);
}

#[test]
fn settle_frames_at_least_one() {
    let options = MainOptions { animation: AnimationConfig { settle_frames: Some(0) }, ..MainOptions::default() };
    assert_eq!(options.settle_frames(), 1);
}

#[test]
fn test_display_poll_interval_default() {
    let options = MainOptions::default();
    assert_eq!(options.display_poll_interval_ms(), 1000);
}

#[test]
fn test_display_poll_interval_min_clamp() {
    // [options.display] change_poll_ms = 10 — clamped to min 100ms
    let options = MainOptions { display: DisplayConfig { change_poll_ms: Some(10) }, ..MainOptions::default() };
    assert_eq!(options.display_poll_interval_ms(), 100);
}

#[test]
fn option_defaults() {
    let o = MainOptions::default();
    assert_eq!(o.mode, WindowMode::Tiling);
    assert!(!o.is_floating_mode());
    assert!(!o.border_active_window());
    assert_eq!(o.menubar_height(), None);
    assert_eq!(o.sliver_width(), 5);
    assert_eq!(o.edge_padding(), (0, 0, 0, 0));
    assert!(o.continuous_swipe());
    assert_eq!(o.swipe_gesture_direction(), SwipeGestureDirection::Natural);
    assert!(o.enable_manage_toggle());
    assert_eq!(o.edge_snap_threshold(), 10);
    assert!(!o.edge_snap_any_enabled());
    assert!(!o.edge_snap_preview_enabled());
    assert_eq!(o.edge_snap_sticky_dwell_ms(), 300);
    assert!(!o.suppress_gestures());
    assert!(o.focus_follows_mouse());
    assert!(o.mouse_follows_focus());
    assert!(!o.auto_center());
}

#[test]
fn option_values_and_clamps() {
    let mut o = MainOptions::default();
    o.mode = WindowMode::Floating;
    o.sliver_width = Some(0);
    o.padding_top = Some(1);
    o.padding_right = Some(2);
    o.padding_bottom = Some(3);
    o.padding_left = Some(4);
    o.menubar_height = Some(30);
    o.continuous_swipe = Some(false);
    o.edge_snap.threshold = Some(0);
    o.edge_snap.top = Some(true);
    o.gesture_suppress.five_finger_spread = Some(true);
    o.focus_follows_mouse = Some(false);
    o.auto_center = Some(true);
    assert!(!o.focus_follows_mouse());
    assert!(o.auto_center());
    assert!(o.is_floating_mode());
    assert_eq!(o.sliver_width(), 1);
    assert_eq!(o.edge_padding(), (1, 2, 3, 4));
    assert_eq!(o.menubar_height(), Some(30));
    assert!(!o.continuous_swipe());
    assert_eq!(o.edge_snap_threshold(), 1);
    assert!(o.edge_snap_any_enabled());
    assert!(o.edge_snap_preview_enabled());
    o.edge_snap.preview = Some(false);
    assert!(!o.edge_snap_preview_enabled());
    assert!(o.suppress_gestures());
}

fn entry_text(e: &DefaultsEntry) -> String {
    let v = match &e.value {
        DefaultsValue::Int(i) => i.to_string(),
        DefaultsValue::Bool(b) => b.to_string(),
        _ => "?".to_string(),
    };
    format!("{} {} {}", e.domain, e.key, v)
}

#[test]
fn gesture_suppression_entries() {
    let g = GestureSuppress { four_finger: Some(true), five_finger_pinch: Some(false), five_finger_spread: None };
    let texts: Vec<String> = gesture_entries(&g).iter().map(entry_text).collect();
    assert_eq!(
        texts,
        vec![
            "com.apple.AppleMultitouchTrackpad TrackpadFourFingerHorizSwipeGesture 0",
            "com.apple.AppleMultitouchTrackpad TrackpadFourFingerVertSwipeGesture 0",
            "com.apple.AppleMultitouchTrackpad TrackpadFourFingerPinchGesture 0",
            "com.apple.driver.AppleBluetoothMultitouch.trackpad TrackpadFourFingerHorizSwipeGesture 0",
            "com.apple.driver.AppleBluetoothMultitouch.trackpad TrackpadFourFingerVertSwipeGesture 0",
            "com.apple.driver.AppleBluetoothMultitouch.trackpad TrackpadFourFingerPinchGesture 0",
            "com.apple.AppleMultitouchTrackpad TrackpadThreeFingerDrag 0",
            "com.apple.AppleMultitouchTrackpad TrackpadThreeFingerHorizSwipeGesture 2",
            "com.apple.driver.AppleBluetoothMultitouch.trackpad TrackpadThreeFingerDrag 0",
            "com.apple.driver.AppleBluetoothMultitouch.trackpad TrackpadThreeFingerHorizSwipeGesture 2",
            "com.apple.AppleMultitouchTrackpad TrackpadFiveFingerPinchGesture 2",
            "com.apple.driver.AppleBluetoothMultitouch.trackpad TrackpadFiveFingerPinchGesture 2",
            "com.apple.dock showLaunchpadGestureEnabled true",
        ]
    );
    assert!(gesture_entries(&GestureSuppress::default()).is_empty());
}

#[test]
fn explicit_defaults_win_over_gesture_entries() {
    let g = GestureSuppress { four_finger: None, five_finger_pinch: None, five_finger_spread: Some(true) };
    let mut entries = vec![DefaultsEntry {
        domain: "com.apple.dock".to_string(),
        key: "showDesktopGestureEnabled".to_string(),
        value: DefaultsValue::Bool(true),
    }];
    merge_gesture_defaults(&g, &mut entries);
    assert_eq!(entries.len(), 1);
    assert!(matches!(entries[0].value, DefaultsValue::Bool(true)));

    let mut empty: Vec<DefaultsEntry> = Vec::new();
    merge_gesture_defaults(&g, &mut empty);
    assert_eq!(empty.len(), 1);
    assert!(matches!(empty[0].value, DefaultsValue::Bool(false)));
}

#[test]
fn border_radius_comes_from_first_rule_that_sets_it() {
    let mut plain = WindowRule::new(TitlePattern::compile(".*").unwrap(), None);
    plain.floating = Some(false);
    let mut round = WindowRule::new(TitlePattern::compile("Term").unwrap(), None);
    round.border_radius_bits = Some(12.0f64.to_bits());
    let mut other = WindowRule::new(TitlePattern::compile(".*").unwrap(), Some("com.x".to_string()));
    other.border_radius_bits = Some(4.0f64.to_bits());
    let rules = vec![plain, round, other];
    assert_eq!(find_window_properties(&rules, "Terminal", "com.x"), Some(0));
    assert_eq!(find_border_radius(&rules, "Terminal", "com.x"), Some(1));
    assert_eq!(find_border_radius(&rules, "Mail", "com.x"), Some(2));
    assert_eq!(find_border_radius(&rules, "Mail", "com.y"), None);
}

#[test]
fn keybinding_errors_name_the_input() {
    let Err(Error::InvalidConfig(m)) = parse_keybinding("a-b-c") else { panic!("expected an error") };
    assert_eq!(m, r#"Too many dashes: "a-b-c""#);
    let Err(Error::InvalidConfig(m)) = parse_keybinding("meta-q") else { panic!("expected an error") };
    assert_eq!(m, "karakuri::config::parse_modifiers: Invalid modifier: meta");
    let mut b = parse_keybinding("alt-return").unwrap();
    let Err(Error::InvalidConfig(m)) = resolve_binding("exec_mail", &mut b, &virtual_keys(), &Vec::new()) else {
        panic!("expected an error")
    };
    assert_eq!(m, "exec binding 'exec_mail' references unknown exec 'mail'");
}

#[test]
fn keybinding_deserialize_examples() {
    let b = parse_keybinding("ctrl+alt-q").unwrap();
    assert_eq!(b.key, "q");
    assert_eq!(b.modifiers, Modifiers::ctrl() | Modifiers::alt());
    assert_eq!(b.code, 0);
    let h = parse_keybinding("h").unwrap();
    assert_eq!(h.key, "h");
    assert_eq!(h.modifiers, Modifiers::empty());
    let c = parse_keybinding("cmd - h").unwrap();
    assert_eq!(c.key, "h");
    assert_eq!(c.modifiers, Modifiers::cmd());
}

#[test]
fn bindings_table_resolves_in_order() {
    let table = vec![
        ("quit".to_string(), vec!["ctrl+alt-q".to_string()]),
        ("window_stack".to_string(), vec!["ctrl-s".to_string(), "alt-s".to_string()]),
    ];
    let resolved = resolve_keybindings(&table, &virtual_keys(), &Vec::new()).unwrap();
    assert_eq!(resolved.len(), 3);
    assert!(matches!(resolved[0].command, Command::Quit));
    assert_eq!(resolved[0].modifiers, Modifiers::ctrl() | Modifiers::alt());
    assert_eq!(resolved[0].code, 0x0c);
    assert!(matches!(resolved[2].command, Command::Window(Operation::Stack(true))));
    assert_eq!(resolved[2].modifiers, Modifiers::alt());

    // A bad text is reported before a bad name, wherever it stands.
    let bad = vec![
        ("window_fly".to_string(), vec!["alt-f".to_string()]),
        ("quit".to_string(), vec!["a-b-c".to_string()]),
    ];
    let Err(Error::InvalidConfig(m)) = resolve_keybindings(&bad, &virtual_keys(), &Vec::new()) else {
        panic!("expected an error")
    };
    assert_eq!(m, r#"Too many dashes: "a-b-c""#);
    let bad_name = vec![("window_fly".to_string(), vec!["alt-f".to_string()])];
    assert!(resolve_keybindings(&bad_name, &virtual_keys(), &Vec::new()).is_err());
}

fn rule_config(title: &str) -> WindowRuleConfig {
    WindowRuleConfig {
        title: title.to_string(),
        bundle_id: None,
        floating: Some(true),
        index: Some(2),
        vertical_padding: None,
        horizontal_padding: None,
        dont_focus: None,
        grid: Some("2:2:0:0:1:1".to_string()),
        border_radius_bits: None,
    }
}

#[test]
fn window_rules_compile_in_order() {
    let rules = compile_window_rules(&vec![rule_config("^Mail$"), rule_config("pic.*")]).unwrap();
    assert_eq!(rules.len(), 2);
    assert!(rules[1].title.is_match("a picture"));
    assert_eq!(rules[0].floating, Some(true));
    assert_eq!(rules[0].index, Some(2));
    assert_eq!(rules[0].grid.as_deref(), Some("2:2:0:0:1:1"));
    assert!(compile_window_rules(&vec![rule_config("ok"), rule_config("foo(bar")]).is_err());
}
