use std::collections::VecDeque;

use karakuri::bar_layout::{group_order, layout_groups, layout_position, BarItemKey, LayoutPosition};
use karakuri::status_bar::builtins::{
    builtin_component, current_time_label, spawn_components, needs_builtin, short_app_name, time_label, BuiltinWidget, ClockWidget,
    FrontAppWidget, WidgetContext,
};
use karakuri::status_bar::components::{
    align_code, item_component, push_bounded, AnimatableProperty, AnimationCurve, AnimationState, BarItemType,
    BarPosition, ItemIdentity, PropertyAnimation,
};

#[test]
fn animation_state_retarget() {
    let mut state: AnimationState<f64> = AnimationState::new();
    state.animate(PropertyAnimation {
        property: AnimatableProperty::Width,
        from: 0.0,
        to: 100.0,
        duration: 10,
        elapsed: 5,
        curve: AnimationCurve::Linear,
    });
    assert_eq!(state.animations.len(), 1);
    // Retarget — should replace
    state.animate(PropertyAnimation {
        property: AnimatableProperty::Width,
        from: 50.0,
        to: 200.0,
        duration: 10,
        elapsed: 0,
        curve: AnimationCurve::Linear,
    });
    assert_eq!(state.animations.len(), 1);
    assert!((state.animations[0].from - 50.0).abs() < f64::EPSILON);
}

#[test]
fn animation_tick_drops_completed() {
    let mut state: AnimationState<i32> = AnimationState::new();
    state.animate(PropertyAnimation {
        property: AnimatableProperty::Width,
        from: 0,
        to: 10,
        duration: 2,
        elapsed: 1,
        curve: AnimationCurve::Linear,
    });
    state.animate(PropertyAnimation {
        property: AnimatableProperty::PositionX,
        from: 0,
        to: 10,
        duration: 5,
        elapsed: 0,
        curve: AnimationCurve::Quadratic,
    });
    state.tick();
    assert_eq!(state.animations.len(), 1);
    assert_eq!(state.animations[0].property, AnimatableProperty::PositionX);
    assert_eq!(state.animations[0].elapsed, 1);
    let mut a = state.animations[0];
    a.elapsed = u32::MAX;
    a.tick();
    assert_eq!(a.elapsed, u32::MAX);
    assert!(a.is_complete());
}

/// A graph's data points: a buffer of capacity 3 filled through the
/// library's bounded push.
struct GraphData {
    data: VecDeque<f64>,
    capacity: usize,
}

impl GraphData {
    fn new(capacity: usize) -> Self {
        GraphData { data: VecDeque::new(), capacity }
    }

    fn push(&mut self, value: f64) {
        push_bounded(&mut self.data, self.capacity, value.clamp(0.0, 1.0));
    }
}

#[test]
fn graph_data_circular_buffer() {
    let mut g = GraphData::new(3);
    g.push(0.1);
    g.push(0.2);
    g.push(0.3);
    assert_eq!(g.data.len(), 3);
    g.push(0.4);
    assert_eq!(g.data.len(), 3);
    assert!((g.data[0] - 0.2).abs() < f64::EPSILON);
}

#[test]
fn bounded_buffer_with_zero_capacity_keeps_the_last() {
    let mut g: VecDeque<u8> = VecDeque::new();
    push_bounded(&mut g, 0, 1);
    push_bounded(&mut g, 0, 2);
    assert_eq!(g, VecDeque::from(vec![2]));
}

fn key(position: LayoutPosition, order: u32) -> BarItemKey {
    BarItemKey { position, order }
}

#[test]
fn group_items_sorted_by_order() {
    let items = vec![key(LayoutPosition::Left, 2), key(LayoutPosition::Left, 0), key(LayoutPosition::Left, 1)];
    assert_eq!(group_order(&items, LayoutPosition::Left), vec![1, 2, 0]);
    assert!(group_order(&[], LayoutPosition::Left).is_empty());
}

#[test]
fn groups_split_by_position_and_keep_ties_in_order() {
    let items = vec![
        key(LayoutPosition::Right, 1),
        key(LayoutPosition::Left, 0),
        key(LayoutPosition::Right, 1),
        key(LayoutPosition::Center, 0),
        key(LayoutPosition::Q, 3),
        key(LayoutPosition::E, 0),
        key(LayoutPosition::Right, 0),
    ];
    let g = layout_groups(&items);
    assert_eq!(g.left, vec![1]);
    assert_eq!(g.center, vec![3]);
    assert_eq!(g.right, vec![6, 0, 2]);
    assert_eq!(g.q, vec![4]);
    assert_eq!(g.e, vec![5]);
    assert_eq!(layout_position(&BarPosition::Q), LayoutPosition::Q);
    assert_eq!(layout_position(&BarPosition::Right), LayoutPosition::Right);
}

fn identity(id: &str) -> ItemIdentity {
    ItemIdentity {
        id: id.to_string(),
        item_type: BarItemType::Item,
        position: BarPosition::Left,
        script: None,
        click_script: Some("click".to_string()),
        update_freq: 5,
        subscribe: vec!["a".to_string()],
        drawing: None,
        updates: Some("when_shown".to_string()),
        ignore_association: None,
        display: None,
        space: Some(vec![1, 2]),
    }
}

#[test]
fn configured_items_get_ids_and_defaults() {
    let c = item_component(7, &identity(""));
    assert_eq!(c.id, "item_7");
    assert_eq!(c.order, 7);
    assert!(c.drawing);
    assert!(c.updates_when_shown);
    assert!(!c.ignore_association);
    assert_eq!(c.space_filter, vec![1, 2]);
    assert_eq!(c.click_script.as_deref(), Some("click"));
    let named = item_component(0, &identity("cpu"));
    assert_eq!(named.id, "cpu");
    assert_eq!(align_code(Some("center")), 1);
    assert_eq!(align_code(Some("right")), 2);
    assert_eq!(align_code(Some("left")), 0);
    assert_eq!(align_code(None), 0);
}

#[test]
fn builtin_widgets_components() {
    let clock = builtin_component(&ClockWidget);
    assert_eq!(clock.id, "clock");
    assert_eq!(clock.position, BarPosition::Right);
    assert_eq!(clock.order, 999);
    assert!(clock.subscriptions.is_empty());
    let front = builtin_component(&FrontAppWidget);
    assert_eq!(front.id, "front_app");
    assert_eq!(front.position, BarPosition::Left);
    assert_eq!(front.subscriptions, vec!["front_app_switched".to_string()]);
    assert!(front.drawing);
}

#[test]
fn front_app_shows_last_bundle_piece() {
    let ctx = WidgetContext::with_bundle_id(Some("com.apple.Safari"));
    assert_eq!(FrontAppWidget.update(&ctx), Some("Safari".to_string()));
    let none = WidgetContext::with_bundle_id(None);
    assert_eq!(FrontAppWidget.update(&none), Some(String::new()));
    assert_eq!(short_app_name("Terminal"), "Terminal");
    assert_eq!(short_app_name("org.example."), "");
}

#[test]
fn time_labels_are_utc_hours_and_minutes() {
    assert_eq!(time_label(0), "00:00");
    assert_eq!(time_label(3_600 * 13 + 60 * 7 + 59), "13:07");
    assert_eq!(time_label(86_400 + 3_600 * 23 + 60 * 59), "23:59");
    let now = current_time_label();
    assert_eq!(now.len(), 5);
    assert_eq!(&now[2..3], ":");
}

#[test]
fn builtin_needed_only_when_not_configured() {
    let ids = vec!["cpu".to_string(), "clock".to_string()];
    assert!(!needs_builtin(&ids, "clock"));
    assert!(needs_builtin(&ids, "front_app"));
}

#[test]
fn left_items_stack_from_edge() {
    let items = vec![key(LayoutPosition::Left, 0), key(LayoutPosition::Left, 1)];
    let g = layout_groups(&items);
    assert_eq!(g.left, vec![0, 1]);
}

#[test]
fn right_items_stack_from_edge() {
    let items = vec![key(LayoutPosition::Right, 0), key(LayoutPosition::Right, 1)];
    let g = layout_groups(&items);
    // The first right item (order 0) sits at the edge, the next one inward.
    assert_eq!(g.right, vec![0, 1]);
}

#[test]
fn center_items_centered() {
    let items = vec![key(LayoutPosition::Center, 0)];
    let g = layout_groups(&items);
    assert_eq!(g.center, vec![0]);
    assert!(g.left.is_empty() && g.right.is_empty());
}

#[test]
fn items_sorted_by_order() {
    let items = vec![key(LayoutPosition::Left, 2), key(LayoutPosition::Left, 0), key(LayoutPosition::Left, 1)];
    let g = layout_groups(&items);
    // Order 0 (index 1) first, then index 2, then index 0.
    assert_eq!(g.left, vec![1, 2, 0]);
}

#[test]
fn empty_items_returns_empty() {
    let g = layout_groups(&[]);
    assert!(g.left.is_empty() && g.center.is_empty() && g.right.is_empty() && g.q.is_empty() && g.e.is_empty());
}

#[test]
fn notch_positions() {
    let items = vec![key(LayoutPosition::Q, 0), key(LayoutPosition::E, 0)];
    let g = layout_groups(&items);
    assert_eq!(g.q, vec![0]);
    assert_eq!(g.e, vec![1]);
}

#[test]
fn mixed_positions() {
    let items = vec![key(LayoutPosition::Left, 0), key(LayoutPosition::Right, 0), key(LayoutPosition::Center, 0)];
    let g = layout_groups(&items);
    assert_eq!(g.left.len() + g.right.len() + g.center.len() + g.q.len() + g.e.len(), 3);
    assert_eq!(g.left, vec![0]);
    assert_eq!(g.right, vec![1]);
    assert_eq!(g.center, vec![2]);
}

#[test]
fn spawn_list_adds_missing_builtins_after_items() {
    let items = vec![identity("battery"), identity("")];
    let all = spawn_components(&items);
    let ids: Vec<&str> = all.iter().map(|c| c.id.as_str()).collect();
    assert_eq!(ids, vec!["battery", "item_1", "clock", "front_app"]);
    assert_eq!(all[1].order, 1);
    assert_eq!(all[2].order, 999);

    let items = vec![identity("clock")];
    let ids: Vec<String> = spawn_components(&items).into_iter().map(|c| c.id).collect();
    assert_eq!(ids, vec!["clock".to_string(), "front_app".to_string()]);
}
