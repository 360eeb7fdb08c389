use std::collections::HashMap;

use karakuri::geometry::IRect;
use karakuri::state::{AppPhase, FocusContext, FocusSource, InteractionMode, ReloadGuard, DEFAULT_SETTLE_FRAMES};

/// Verify the ReloadGuard state machine: new → bump resets counter → tick
/// decrements → settled() transitions from false to true exactly when
/// settle_frames reaches zero.
#[test]
fn test_reload_guard_state_machine() {
    let mut guard = ReloadGuard::new(HashMap::new());
    assert!(!guard.settled(), "fresh guard must not be settled");
    assert_eq!(guard.settle_frames, 2);

    // First tick: 2 → 1, not yet settled.
    assert!(!guard.tick(), "tick from 2 should not signal settled");
    assert!(!guard.settled());

    // Bump resets to 2.
    guard.bump();
    assert_eq!(guard.settle_frames, 2, "bump must reset to SETTLE_FRAMES");
    assert!(!guard.settled());

    // Tick twice to settle.
    assert!(!guard.tick());
    assert!(guard.tick(), "second tick should signal settled");
    assert!(guard.settled());

    // Extra ticks after settling are no-ops.
    assert!(!guard.tick(), "tick after settled should return false");
    assert!(guard.settled());
}

/// Verify that multiple bump() calls keep resetting the settle counter,
/// simulating cascading OS events.
#[test]
fn test_reload_guard_cascading_bumps() {
    let mut guard = ReloadGuard::new(HashMap::new());

    // Simulate 5 rapid cascading events.
    for _ in 0..5 {
        guard.tick();
        guard.bump();
    }
    // Guard should not have settled during the cascade.
    assert!(!guard.settled());

    // Now let it settle.
    guard.tick();
    guard.tick();
    assert!(guard.settled());
}

#[test]
fn settle_frames_are_at_least_one() {
    let mut guard = ReloadGuard::with_settle_frames(HashMap::new(), 0);
    assert_eq!(guard.settle_frames, 1);
    assert!(guard.tick());
    assert!(guard.settled());
    let guard5 = ReloadGuard::with_settle_frames(HashMap::new(), 5);
    assert_eq!(guard5.settle_frames, 5);
    assert_eq!(DEFAULT_SETTLE_FRAMES, 2);
}

#[test]
fn guard_settles_after_exactly_its_value() {
    let mut guard = ReloadGuard::with_settle_frames(HashMap::new(), 4);
    let mut reports = 0;
    for i in 1..=10 {
        if guard.tick() {
            reports += 1;
            assert_eq!(i, 4);
        }
        assert_eq!(guard.settled(), i >= 4);
    }
    assert_eq!(reports, 1);
}

#[test]
fn pre_positions_are_kept() {
    let mut pre = HashMap::new();
    pre.insert(7u64, IRect::new(1, 2, 3, 4));
    let mut guard = ReloadGuard::new(pre);
    guard.tick();
    guard.bump();
    assert_eq!(guard.pre_position(7), Some(IRect::new(1, 2, 3, 4)));
    assert_eq!(guard.pre_position(8), None);
}

#[test]
fn focus_context_skip_flag_roundtrip() {
    let mut c = FocusContext::new();
    assert!(!c.skip_reshuffle());
    c.set_ffm_flag(Some(42));
    c.set_skip_reshuffle(true);
    assert!(c.skip_reshuffle());
    assert_eq!(c.source, FocusSource::Mouse);
    assert_eq!(c.ffm_flag(), Some(42));
    c.set_skip_reshuffle(false);
    assert!(!c.skip_reshuffle());
    assert_eq!(c.ffm_flag(), Some(42));
    c.source = FocusSource::System;
    assert!(c.skip_reshuffle());
}

#[test]
fn ticks_count_down_and_report_once() {
    let mut g = ReloadGuard::with_settle_frames(HashMap::new(), 3);
    let results: Vec<bool> = (0..6).map(|_| g.tick()).collect();
    assert_eq!(results, vec![false, false, true, false, false, false]);
    assert!(g.settled());
}

#[test]
fn modes_report_mission_control_and_initializing() {
    assert!(InteractionMode::MissionControl.mission_control_active());
    assert!(!InteractionMode::Swiping.mission_control_active());
    assert!(!InteractionMode::default().mission_control_active());
    assert!(AppPhase::default().initializing());
    assert!(!AppPhase::Running.initializing());
}
