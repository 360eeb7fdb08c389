use karakuri::defaults::{
    diff_defaults, domain_arg, float_eq, services_to_restart, values_equal, write_default_args, DefaultsEntry,
    DefaultsValue, FloatValue,
};
use karakuri::gestures::apply_gesture_preferences;
use karakuri::config::GestureSuppress;

fn float(v: f64) -> DefaultsValue {
    DefaultsValue::Float(FloatValue { bits: v.to_bits(), text: v.to_string() })
}

fn entry(domain: &str, key: &str, value: DefaultsValue) -> DefaultsEntry {
    DefaultsEntry { domain: domain.to_string(), key: key.to_string(), value }
}

#[test]
fn scalar_write_arguments() {
    assert_eq!(
        write_default_args("com.apple.dock", "autohide", &DefaultsValue::Bool(true)),
        vec!["write", "com.apple.dock", "autohide", "-bool", "TRUE"]
    );
    assert_eq!(
        write_default_args("NSGlobalDomain", "KeyRepeat", &DefaultsValue::Int(-2)),
        vec!["write", "-globalDomain", "KeyRepeat", "-int", "-2"]
    );
    assert_eq!(
        write_default_args("com.apple.dock", "tilesize", &float(0.5)),
        vec!["write", "com.apple.dock", "tilesize", "-float", "0.5"]
    );
    assert_eq!(
        write_default_args("com.apple.finder", "view", &DefaultsValue::String("Nlsv".to_string())),
        vec!["write", "com.apple.finder", "view", "-string", "Nlsv"]
    );
    assert_eq!(domain_arg("com.apple.dock"), "com.apple.dock");
    assert_eq!(
        write_default_args("d", "k", &DefaultsValue::Int(i64::MIN))[4],
        "-9223372036854775808"
    );
}

#[test]
fn array_and_dict_arguments_skip_nested_values() {
    let array = DefaultsValue::Array(vec![
        DefaultsValue::Int(1),
        DefaultsValue::Array(vec![DefaultsValue::Int(2)]),
        DefaultsValue::String("x".to_string()),
    ]);
    assert_eq!(
        write_default_args("d", "k", &array),
        vec!["write", "d", "k", "-array", "-int", "1", "-string", "x"]
    );
    let dict = DefaultsValue::Dict(vec![
        ("a".to_string(), DefaultsValue::Bool(false)),
        ("b".to_string(), DefaultsValue::Dict(vec![])),
    ]);
    assert_eq!(
        write_default_args("d", "k", &dict),
        vec!["write", "d", "k", "-dict", "a", "-bool", "FALSE", "b"]
    );
}

#[test]
fn restarted_services_follow_domains() {
    let domains = vec!["com.apple.controlcenter".to_string(), "com.apple.dock".to_string()];
    assert_eq!(services_to_restart(&domains), vec!["Dock", "SystemUIServer"]);
    assert_eq!(services_to_restart(&vec!["com.apple.finder".to_string()]), vec!["Finder"]);
    assert!(services_to_restart(&vec!["com.example".to_string()]).is_empty());
}

#[test]
fn floats_compare_as_numbers() {
    assert!(float_eq(1.5f64.to_bits(), 1.5f64.to_bits()));
    assert!(float_eq(0.0f64.to_bits(), (-0.0f64).to_bits()));
    assert!(!float_eq(f64::NAN.to_bits(), f64::NAN.to_bits()));
    assert!(!float_eq(1.0f64.to_bits(), 2.0f64.to_bits()));
    assert!(values_equal(&float(0.0), &float(-0.0)));
    assert!(!values_equal(&DefaultsValue::Int(1), &DefaultsValue::Bool(true)));
    let a = DefaultsValue::Array(vec![DefaultsValue::Int(1), float(2.0)]);
    let b = DefaultsValue::Array(vec![DefaultsValue::Int(1), float(2.0)]);
    let c = DefaultsValue::Array(vec![DefaultsValue::Int(1)]);
    assert!(values_equal(&a, &b));
    assert!(!values_equal(&a, &c));
    let d1 = DefaultsValue::Dict(vec![("k".to_string(), DefaultsValue::String("v".to_string()))]);
    let d2 = DefaultsValue::Dict(vec![("k".to_string(), DefaultsValue::String("w".to_string()))]);
    assert!(values_equal(&d1, &d1));
    assert!(!values_equal(&d1, &d2));
}

#[test]
fn reload_writes_only_changed_keys() {
    let old = vec![
        entry("com.apple.dock", "autohide", DefaultsValue::Bool(true)),
        entry("com.apple.dock", "tilesize", DefaultsValue::Int(48)),
        entry("com.apple.finder", "view", DefaultsValue::String("Nlsv".to_string())),
    ];
    let new = vec![
        entry("com.apple.dock", "autohide", DefaultsValue::Bool(true)),
        entry("com.apple.dock", "tilesize", DefaultsValue::Int(64)),
        entry("com.apple.dock", "orientation", DefaultsValue::String("left".to_string())),
        entry("com.apple.finder", "view", DefaultsValue::String("Nlsv".to_string())),
    ];
    let d = diff_defaults(&old, &new);
    assert_eq!(d.writes, vec![1, 2]);
    assert_eq!(d.changed_domains, vec!["com.apple.dock".to_string()]);
    let same = diff_defaults(&old, &old);
    assert!(same.writes.is_empty());
    assert!(same.changed_domains.is_empty());
}

#[test]
fn gesture_preference_writes() {
    let g = GestureSuppress { four_finger: Some(false), five_finger_pinch: Some(true), five_finger_spread: Some(false) };
    let cmds = apply_gesture_preferences(&g);
    assert_eq!(cmds.len(), 8);
    assert_eq!(
        cmds[0],
        vec!["write", "com.apple.AppleMultitouchTrackpad", "TrackpadFourFingerHorizSwipeGesture", "-int", "2"]
    );
    assert_eq!(
        cmds[1],
        vec![
            "write",
            "com.apple.driver.AppleBluetoothMultitouch.trackpad",
            "TrackpadFourFingerHorizSwipeGesture",
            "-int",
            "2"
        ]
    );
    assert_eq!(cmds[5][2], "TrackpadFourFingerPinchGesture");
    assert_eq!(cmds[6], vec!["write", "com.apple.dock", "showLaunchpadGestureEnabled", "-bool", "false"]);
    assert_eq!(cmds[7], vec!["write", "com.apple.dock", "showDesktopGestureEnabled", "-bool", "true"]);
    assert!(apply_gesture_preferences(&GestureSuppress::default()).is_empty());
}
