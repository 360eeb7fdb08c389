use karakuri::commands::Direction;
use karakuri::geometry::IRect;
use karakuri::layout::WindowId;
use karakuri::strip::{display_in_direction, window_in_direction, Column, LayoutStrip};

// ── window_in_direction ────────────────────────────────────────────

fn setup_strip() -> ((), LayoutStrip, Vec<WindowId>) {
    let entities: Vec<WindowId> = vec![10, 11, 12, 13];

    let mut strip = LayoutStrip::new();
    strip.append(entities[0]);
    strip.append(entities[1]);
    strip.append(entities[2]);
    strip.append(entities[3]);
    strip.stack(entities[1]).unwrap(); // Stack e1 onto e0

    ((), strip, entities)
}

#[test]
fn east_from_middle_returns_next() {
    let (_world, strip, e) = setup_strip();
    assert_eq!(
        window_in_direction(&Direction::East, e[2], &strip),
        Some(e[3])
    );
}

#[test]
fn west_from_middle_returns_previous() {
    let (_world, strip, e) = setup_strip();
    assert_eq!(
        window_in_direction(&Direction::West, e[2], &strip),
        Some(e[0])
    );
}

#[test]
fn east_from_last_returns_none() {
    let (_world, strip, e) = setup_strip();
    assert_eq!(window_in_direction(&Direction::East, e[3], &strip), None);
}

#[test]
fn west_from_first_returns_none() {
    let (_world, strip, e) = setup_strip();
    assert_eq!(window_in_direction(&Direction::West, e[0], &strip), None);
}

#[test]
fn south_in_stack_returns_below() {
    let (_world, strip, e) = setup_strip();
    assert_eq!(
        window_in_direction(&Direction::South, e[0], &strip),
        Some(e[1])
    );
}

#[test]
fn north_in_stack_returns_above() {
    let (_world, strip, e) = setup_strip();
    assert_eq!(
        window_in_direction(&Direction::North, e[1], &strip),
        Some(e[0])
    );
}

#[test]
fn north_at_top_of_stack_returns_none() {
    let (_world, strip, e) = setup_strip();
    assert_eq!(window_in_direction(&Direction::North, e[0], &strip), None);
}

#[test]
fn south_at_bottom_of_stack_returns_none() {
    let (_world, strip, e) = setup_strip();
    assert_eq!(window_in_direction(&Direction::South, e[1], &strip), None);
}

#[test]
fn south_on_single_returns_none() {
    let (_world, strip, e) = setup_strip();
    assert_eq!(window_in_direction(&Direction::South, e[2], &strip), None);
}

#[test]
fn north_on_single_returns_none() {
    let (_world, strip, e) = setup_strip();
    assert_eq!(window_in_direction(&Direction::North, e[2], &strip), None);
}

#[test]
fn first_returns_first_column_top() {
    let (_world, strip, e) = setup_strip();
    assert_eq!(
        window_in_direction(&Direction::First, e[3], &strip),
        Some(e[0])
    );
}

#[test]
fn last_returns_last_column_top() {
    let (_world, strip, e) = setup_strip();
    assert_eq!(
        window_in_direction(&Direction::Last, e[0], &strip),
        Some(e[3])
    );
}

#[test]
fn adjacent_stacks_east_west() {
    let e: Vec<WindowId> = vec![20, 21, 22, 23];

    let mut strip = LayoutStrip::new();
    strip.append(e[0]);
    strip.append(e[1]);
    strip.append(e[2]);
    strip.append(e[3]);
    strip.stack(e[1]).unwrap(); // [Stack(e0,e1), e2, e3]
    strip.stack(e[3]).unwrap(); // [Stack(e0,e1), Stack(e2,e3)]

    // East across stacks
    assert_eq!(
        window_in_direction(&Direction::East, e[0], &strip),
        Some(e[2])
    );
    assert_eq!(
        window_in_direction(&Direction::East, e[1], &strip),
        Some(e[3])
    );
    // West across stacks
    assert_eq!(
        window_in_direction(&Direction::West, e[2], &strip),
        Some(e[0])
    );
    assert_eq!(
        window_in_direction(&Direction::West, e[3], &strip),
        Some(e[1])
    );
}

#[test]
fn empty_strip_returns_none() {
    let e: Vec<WindowId> = vec![40];
    let strip = LayoutStrip::new();
    assert_eq!(window_in_direction(&Direction::East, e[0], &strip), None);
    assert_eq!(window_in_direction(&Direction::First, e[0], &strip), None);
}

#[test]
fn single_window_strip() {
    let e: Vec<WindowId> = vec![40];
    let mut strip = LayoutStrip::new();
    strip.append(e[0]);

    assert_eq!(window_in_direction(&Direction::East, e[0], &strip), None);
    assert_eq!(window_in_direction(&Direction::West, e[0], &strip), None);
    assert_eq!(
        window_in_direction(&Direction::First, e[0], &strip),
        Some(e[0])
    );
    assert_eq!(
        window_in_direction(&Direction::Last, e[0], &strip),
        Some(e[0])
    );
}

// ── display_in_direction ───────────────────────────────────────────

#[test]
fn display_east_finds_nearest() {
    let active = IRect::new(0, 0, 1920, 1080);
    let others = vec![
        IRect::new(1920, 0, 3840, 1080), // immediately right
        IRect::new(3840, 0, 5760, 1080), // further right
    ];
    assert_eq!(display_in_direction(&Direction::East, active, &others), Some(0));
}

#[test]
fn display_west_finds_nearest() {
    let active = IRect::new(1920, 0, 3840, 1080);
    let others = vec![
        IRect::new(0, 0, 1920, 1080), // immediately left
    ];
    assert_eq!(display_in_direction(&Direction::West, active, &others), Some(0));
}

#[test]
fn display_no_match_returns_none() {
    let active = IRect::new(0, 0, 1920, 1080);
    let others = vec![
        IRect::new(1920, 0, 3840, 1080), // only to the right
    ];
    assert_eq!(display_in_direction(&Direction::West, active, &others), None);
}

#[test]
fn display_south_finds_below() {
    let active = IRect::new(0, 0, 1920, 1080);
    let others = vec![
        IRect::new(0, 1080, 1920, 2160), // directly below
    ];
    assert_eq!(
        display_in_direction(&Direction::South, active, &others),
        Some(0)
    );
}

#[test]
fn display_north_finds_above() {
    let active = IRect::new(0, 1080, 1920, 2160);
    let others = vec![
        IRect::new(0, 0, 1920, 1080), // directly above
    ];
    assert_eq!(
        display_in_direction(&Direction::North, active, &others),
        Some(0)
    );
}

#[test]
fn display_empty_others() {
    let active = IRect::new(0, 0, 1920, 1080);
    let others: Vec<IRect> = vec![];
    assert_eq!(display_in_direction(&Direction::East, active, &others), None);
}

#[test]
fn display_first_last_always_none() {
    let active = IRect::new(0, 0, 1920, 1080);
    let others = vec![IRect::new(1920, 0, 3840, 1080)];
    assert_eq!(
        display_in_direction(&Direction::First, active, &others),
        None
    );
    assert_eq!(
        display_in_direction(&Direction::Last, active, &others),
        None
    );
}

#[test]
fn display_multiple_east_picks_closest() {
    let active = IRect::new(0, 0, 1920, 1080);
    let others = vec![
        IRect::new(3840, 0, 5760, 1080), // further right (idx 0)
        IRect::new(1920, 0, 3840, 1080), // immediately right (idx 1)
    ];
    assert_eq!(
        display_in_direction(&Direction::East, active, &others),
        Some(1)
    );
}

#[test]
fn display_diagonal_below_right() {
    let active = IRect::new(0, 0, 1920, 1080);
    let others = vec![
        IRect::new(1920, 1080, 3840, 2160), // diagonal: right and below
    ];
    // East: min.x (1920) >= max.x (1920) → true → found
    assert_eq!(
        display_in_direction(&Direction::East, active, &others),
        Some(0)
    );
    // South: min.y (1080) >= max.y (1080) → true → found
    assert_eq!(
        display_in_direction(&Direction::South, active, &others),
        Some(0)
    );
}

#[test]
fn display_gap_between_monitors() {
    let active = IRect::new(0, 0, 1920, 1080);
    let others = vec![
        IRect::new(2000, 0, 3920, 1080), // 80px gap to the right
    ];
    assert_eq!(
        display_in_direction(&Direction::East, active, &others),
        Some(0)
    );
}

#[test]
fn window_first_last_same_on_single() {
    let e: Vec<WindowId> = vec![40];
    let mut strip = LayoutStrip::new();
    strip.append(e[0]);

    let first = window_in_direction(&Direction::First, e[0], &strip);
    let last = window_in_direction(&Direction::Last, e[0], &strip);
    assert_eq!(first, last);
    assert_eq!(first, Some(e[0]));
}

#[test]
fn window_deep_stack_traversal() {
    let e: Vec<WindowId> = vec![30, 31, 32, 33, 34];
    let mut strip = LayoutStrip::new();
    strip.append(e[0]);
    strip.append(e[1]);
    strip.append(e[2]);
    strip.append(e[3]);
    strip.append(e[4]);
    strip.stack(e[1]).unwrap(); // Stack e1 onto e0
    strip.stack(e[2]).unwrap(); // Stack e2 onto e0,e1
    // Strip: [Stack(e0,e1,e2), e3, e4]

    assert_eq!(
        window_in_direction(&Direction::South, e[0], &strip),
        Some(e[1])
    );
    assert_eq!(
        window_in_direction(&Direction::South, e[1], &strip),
        Some(e[2])
    );
    assert_eq!(
        window_in_direction(&Direction::South, e[2], &strip),
        None
    );
    assert_eq!(
        window_in_direction(&Direction::North, e[2], &strip),
        Some(e[1])
    );
}

#[test]
fn stacking_the_first_column_is_refused() {
    let mut strip = LayoutStrip::new();
    strip.append(1);
    strip.append(2);
    assert!(strip.stack(1).is_err());
    assert!(strip.stack(2).is_ok());
    assert_eq!(strip.len(), 1);
    assert_eq!(strip.all_windows(), vec![1, 2]);
}

#[test]
fn unknown_window_has_no_neighbour() {
    let (_world, strip, _e) = setup_strip();
    assert_eq!(window_in_direction(&Direction::East, 99, &strip), None);
    assert_eq!(window_in_direction(&Direction::First, 99, &strip), None);
}

#[test]
fn equal_distances_pick_the_first_listed() {
    let active = IRect::new(0, 0, 1920, 1080);
    let others = vec![IRect::new(1920, 0, 3840, 1080), IRect::new(1920, 1080, 3840, 2160)];
    assert_eq!(display_in_direction(&Direction::East, active, &others), Some(0));
}

#[test]
fn east_west_keep_the_row_or_take_the_bottom() {
    let mut strip = LayoutStrip::new();
    for e in [1, 2, 3, 4, 5] {
        strip.append(e);
    }
    strip.stack(2).unwrap();
    strip.stack(3).unwrap(); // [Stack(1,2,3), 4, 5]
    strip.stack(5).unwrap(); // [Stack(1,2,3), Stack(4,5)]
    assert_eq!(window_in_direction(&Direction::East, 3, &strip), Some(5));
    assert_eq!(window_in_direction(&Direction::East, 2, &strip), Some(5));
    assert_eq!(window_in_direction(&Direction::West, 5, &strip), Some(2));
    assert_eq!(window_in_direction(&Direction::West, 4, &strip), Some(1));
}

#[test]
fn stacking_makes_stack_columns() {
    let mut strip = LayoutStrip::new();
    for e in 1..=3u64 {
        strip.append(e);
    }
    assert!(matches!(strip.get(0), Some(Column::Single(1))));
    strip.stack(2).unwrap(); // [Stack(1,2), 3]
    assert!(matches!(strip.get(0), Some(Column::Stack(v)) if v == &vec![1, 2]));
    assert!(matches!(strip.get(1), Some(Column::Single(3))));
    assert_eq!(strip.len(), 2);
}
