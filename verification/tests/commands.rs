use karakuri::commands::{parse_command, parse_direction, parse_operation, Command, Direction, MouseMove, Operation};
use karakuri::errors::Error;
use karakuri::keys::{parse_modifiers, Modifiers};

#[test]
fn test_parse_command_all_operations() {
    assert!(matches!(
        parse_command(&["window", "focus", "east"]),
        Ok(Command::Window(Operation::Focus(Direction::East)))
    ));
    assert!(matches!(
        parse_command(&["window", "swap", "west"]),
        Ok(Command::Window(Operation::Swap(Direction::West)))
    ));
    assert!(matches!(
        parse_command(&["window", "center"]),
        Ok(Command::Window(Operation::Center))
    ));
    assert!(matches!(
        parse_command(&["window", "resize"]),
        Ok(Command::Window(Operation::Resize))
    ));
    assert!(matches!(
        parse_command(&["window", "fullwidth"]),
        Ok(Command::Window(Operation::FullWidth))
    ));
    assert!(matches!(
        parse_command(&["window", "manage"]),
        Ok(Command::Window(Operation::Manage))
    ));
    assert!(matches!(
        parse_command(&["window", "equalize"]),
        Ok(Command::Window(Operation::Equalize))
    ));
    assert!(matches!(
        parse_command(&["window", "stack"]),
        Ok(Command::Window(Operation::Stack(true)))
    ));
    assert!(matches!(
        parse_command(&["window", "unstack"]),
        Ok(Command::Window(Operation::Stack(false)))
    ));
    assert!(matches!(
        parse_command(&["window", "nextdisplay"]),
        Ok(Command::Window(Operation::ToNextDisplay))
    ));
    assert!(matches!(parse_command(&["quit"]), Ok(Command::Quit)));
    assert!(matches!(parse_command(&["printstate"]), Ok(Command::PrintState)));
}

#[test]
fn test_parse_command_new_operations() {
    assert!(matches!(
        parse_command(&["window", "focus_id", "42"]),
        Ok(Command::Window(Operation::FocusById(42)))
    ));
    assert!(matches!(
        parse_command(&["window", "move_to", "100", "200"]),
        Ok(Command::Window(Operation::MoveTo(100, 200)))
    ));
    assert!(matches!(
        parse_command(&["window", "resize_to", "800", "600"]),
        Ok(Command::Window(Operation::ResizeTo(800, 600)))
    ));
    assert!(matches!(parse_command(&["mode", "floating"]), Ok(Command::SetMode(_))));
    assert!(matches!(parse_command(&["reload"]), Ok(Command::ReloadConfig)));
}

#[test]
fn test_parse_command_exec() {
    let result = parse_command(&["exec", "open", "-a", "Safari"]);
    assert!(matches!(result, Ok(Command::Exec(cmd)) if cmd == "open -a Safari"));
}

#[test]
fn test_parse_command_invalid() {
    assert!(parse_command(&["nonexistent"]).is_err());
    assert!(parse_command(&["window", "invalid"]).is_err());
    assert!(parse_command(&["window", "focus"]).is_err()); // missing direction
}

#[test]
fn test_parse_direction_all() {
    assert!(matches!(parse_direction("north"), Ok(Direction::North)));
    assert!(matches!(parse_direction("south"), Ok(Direction::South)));
    assert!(matches!(parse_direction("east"), Ok(Direction::East)));
    assert!(matches!(parse_direction("west"), Ok(Direction::West)));
    assert!(matches!(parse_direction("first"), Ok(Direction::First)));
    assert!(matches!(parse_direction("last"), Ok(Direction::Last)));
    assert!(parse_direction("invalid").is_err());
}

#[test]
fn test_parse_direction_case_sensitive() {
    assert!(parse_direction("North").is_err());
    assert!(parse_direction("EAST").is_err());
    assert!(parse_direction("").is_err());
    assert!(parse_direction("northwest").is_err());
}

#[test]
fn test_parse_modifiers_single() {
    let m = parse_modifiers("ctrl").unwrap();
    assert!(m.contains(Modifiers::ctrl()));
    assert!(!m.contains(Modifiers::alt()));
}

#[test]
fn test_parse_modifiers_combined() {
    let m = parse_modifiers("ctrl+alt").unwrap();
    assert!(m.contains(Modifiers::ctrl()));
    assert!(m.contains(Modifiers::alt()));
    assert!(!m.contains(Modifiers::shift()));
}

#[test]
fn test_parse_modifiers_all() {
    let m = parse_modifiers("ctrl+alt+shift+cmd").unwrap();
    assert!(m.contains(Modifiers::ctrl()));
    assert!(m.contains(Modifiers::alt()));
    assert!(m.contains(Modifiers::shift()));
    assert!(m.contains(Modifiers::cmd()));
}

#[test]
fn test_parse_modifiers_invalid() {
    assert!(parse_modifiers("super").is_err());
    assert!(parse_modifiers("ctrl+meta").is_err());
    assert!(parse_modifiers("").is_err());
}

#[test]
fn test_parse_operation_missing_args() {
    assert!(parse_operation(&["focus"]).is_err());
    assert!(parse_operation(&["swap"]).is_err());
    assert!(parse_operation(&["resize_to", "800"]).is_err());
    assert!(parse_operation(&["move_to", "100"]).is_err());
    assert!(parse_operation(&["focus_id"]).is_err());
}

#[test]
fn test_parse_operation_invalid_numeric_args() {
    assert!(parse_operation(&["focus_id", "abc"]).is_err());
    assert!(parse_operation(&["resize_to", "abc", "600"]).is_err());
    assert!(parse_operation(&["resize_to", "800", "abc"]).is_err());
    assert!(parse_operation(&["move_to", "abc", "200"]).is_err());
}

#[test]
fn test_parse_operation_empty() {
    assert!(parse_operation(&[]).is_err());
}

#[test]
fn test_parse_command_empty() {
    assert!(parse_command(&[]).is_err());
}

#[test]
fn test_parse_mouse_move_invalid() {
    assert!(parse_command(&["mouse", "invalid"]).is_err());
    assert!(parse_command(&["mouse"]).is_err());
}

#[test]
fn mouse_nextdisplay_moves_east() {
    assert!(matches!(
        parse_command(&["mouse", "nextdisplay"]),
        Ok(Command::Mouse(MouseMove::ToDisplay(Direction::East)))
    ));
}

#[test]
fn mode_defaults_to_tiling() {
    assert!(matches!(parse_command(&["mode"]), Ok(Command::SetMode(m)) if m == "tiling"));
    assert!(matches!(parse_command(&["mode", "floating"]), Ok(Command::SetMode(m)) if m == "floating"));
}

#[test]
fn exec_with_no_words_is_empty() {
    assert!(matches!(parse_command(&["exec"]), Ok(Command::Exec(cmd)) if cmd.is_empty()));
}

#[test]
fn numbers_accept_signs_and_reject_overflow() {
    assert!(matches!(
        parse_command(&["window", "move_to", "-5", "+7"]),
        Ok(Command::Window(Operation::MoveTo(-5, 7)))
    ));
    assert!(parse_command(&["window", "focus_id", "2147483648"]).is_err());
    assert!(matches!(
        parse_command(&["window", "focus_id", "-2147483648"]),
        Ok(Command::Window(Operation::FocusById(i32::MIN)))
    ));
    assert!(parse_command(&["window", "focus_id", ""]).is_err());
    assert!(parse_command(&["window", "focus_id", "-"]).is_err());
}

#[test]
fn errors_are_invalid_config() {
    assert!(matches!(parse_command(&["bogus"]), Err(Error::InvalidConfig(_))));
}

#[test]
fn modifier_bits_match_the_documented_masks() {
    // alt = 1<<0, ctrl = 1<<3.
    assert_eq!(Modifiers::alt().bits(), 1);
    assert_eq!(Modifiers::ctrl().bits(), 8);
    let both = parse_modifiers("ctrl + alt").unwrap();
    assert_eq!(both.bits(), 9);
}

fn message_of<T>(r: Result<T, Error>) -> String {
    match r {
        Err(Error::InvalidConfig(m)) => m,
        Ok(_) => panic!("expected an error"),
    }
}

#[test]
fn parse_errors_name_the_input() {
    assert_eq!(message_of(parse_direction("up")), "karakuri::config::parse_direction: Unhandled direction up");
    assert_eq!(message_of(parse_command(&["window", "focus", "up"])), "karakuri::config::parse_direction: Unhandled direction up");
    assert_eq!(message_of(parse_command(&["window", "swap"])), r#"karakuri::config::parse_operation: Invalid command '["swap"]'"#);
    assert_eq!(message_of(parse_command(&["window", "fly", "x"])), r#"karakuri::config::parse_operation: Invalid command '["fly", "x"]'"#);
    assert_eq!(message_of(parse_command(&["window"])), "karakuri::config::parse_operation: Invalid command '[]'");
    assert_eq!(message_of(parse_command(&["mouse", "jump"])), r#"karakuri::config::parse_mouse_move: Invalid mouse command '["jump"]'"#);
    assert_eq!(message_of(parse_command(&["bogus", "a"])), r#"karakuri::config::parse_command: Unhandled command '["bogus", "a"]'"#);
    assert_eq!(message_of(parse_command(&[])), "karakuri::config::parse_command: Unhandled command '[]'");
    assert_eq!(message_of(parse_modifiers("ctrl + meta")), "karakuri::config::parse_modifiers: Invalid modifier: meta");
}

#[test]
fn error_words_are_debug_quoted() {
    assert_eq!(
        message_of(parse_command(&["say \"hi\"", "a\\b"])),
        r#"karakuri::config::parse_command: Unhandled command '["say \"hi\"", "a\\b"]'"#
    );
}
