use karakuri::clipboard::{ClipboardState, DEFAULT_HISTORY_SIZE};

#[test]
fn unchanged_count_reads_nothing() {
    let mut state = ClipboardState::new(7);
    assert!(!state.note_change_count(7));
    assert!(state.note_change_count(8));
    assert!(!state.note_change_count(8));
    assert!(state.history().is_empty());
}

#[test]
fn history_is_newest_first_and_bounded() {
    let mut state = ClipboardState::new(0);
    for i in 0..(DEFAULT_HISTORY_SIZE + 5) {
        let m = state.record(format!("t{i}"));
        assert_eq!(m.content, format!("t{i}"));
    }
    let h = state.history();
    assert_eq!(h.len(), DEFAULT_HISTORY_SIZE);
    assert_eq!(h[0], format!("t{}", DEFAULT_HISTORY_SIZE + 4));
    assert_eq!(h[DEFAULT_HISTORY_SIZE - 1], "t5");
}
