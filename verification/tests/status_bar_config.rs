use karakuri::status_bar::config::{BarEdge, HiddenMode, TopmostMode};

#[test]
fn topmost_modes() {
    let t = TopmostMode::Bool(true);
    assert!(t.is_topmost());
    assert!(!t.is_window_mode());

    let w = TopmostMode::Window("window".to_string());
    assert!(w.is_topmost());
    assert!(w.is_window_mode());
}

#[test]
fn hidden_modes() {
    let h = HiddenMode::Bool(false);
    assert!(!h.is_hidden());
    assert!(!h.is_current_mode());

    let c = HiddenMode::Current("current".to_string());
    assert!(c.is_hidden());
    assert!(c.is_current_mode());
}

#[test]
fn other_words_are_not_modes() {
    let w = TopmostMode::Window("always".to_string());
    assert!(!w.is_topmost());
    assert!(!w.is_window_mode());
    let c = HiddenMode::Current("all".to_string());
    assert!(!c.is_hidden());
    assert!(!c.is_current_mode());
    assert!(!TopmostMode::Bool(false).is_topmost());
    assert!(HiddenMode::Bool(true).is_hidden());
    assert!(!HiddenMode::Bool(true).is_current_mode());
}

#[test]
fn defaults_are_off_and_top() {
    assert!(!TopmostMode::default().is_topmost());
    assert!(!HiddenMode::default().is_hidden());
    assert_eq!(BarEdge::default(), BarEdge::Top);
}
