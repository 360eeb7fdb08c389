use karakuri::handlers::ScriptHandlers;

#[test]
fn hotkey_reads_back_last_registration() {
    let mut h: ScriptHandlers<u32> = ScriptHandlers::new();
    assert_eq!(h.hotkey("cmd-h"), None);
    h.register_hotkey("cmd-h".to_string(), 1);
    h.register_hotkey("cmd-l".to_string(), 2);
    h.register_hotkey("cmd-h".to_string(), 3);
    assert_eq!(h.hotkey("cmd-h"), Some(&3));
    assert_eq!(h.hotkey("cmd-l"), Some(&2));
}

#[test]
fn event_handlers_run_in_registration_order() {
    let mut h: ScriptHandlers<&str> = ScriptHandlers::new();
    h.register_event_handler("focus".to_string(), "a");
    h.register_event_handler("space".to_string(), "x");
    h.register_event_handler("focus".to_string(), "b");
    assert_eq!(h.event_handlers("focus"), &["a", "b"]);
    assert_eq!(h.event_handlers("space"), &["x"]);
    assert!(h.event_handlers("other").is_empty());
    h.clear();
    assert!(h.event_handlers("focus").is_empty());
    assert_eq!(h.hotkey("cmd-h"), None);
}
