//! The commands the window manager understands.
use vstd::prelude::*;
use crate::errors::{invalid2, invalid3, message, Error};
use crate::text::{debug_words, words_debug, join_strs, parse_i32, spec_join, spec_parse_i32, str_eq};

verus! {

/// A direction for focus, swap and display navigation.
#[derive(Clone, Copy, Debug, PartialEq, Eq, Structural)]
pub enum Direction {
    North,
    South,
    West,
    East,
    First,
    Last,
}

/// An operation on the focused window.
#[derive(Clone, Copy, Debug, PartialEq, Eq, Structural)]
pub enum Operation {
    Focus(Direction),
    FocusById(i32),
    Swap(Direction),
    Center,
    Resize,
    ResizeTo(i32, i32),
    FullWidth,
    Manage,
    Equalize,
    Stack(bool),
    ToNextDisplay,
    MoveTo(i32, i32),
}

/// A mouse movement command.
#[derive(Clone, Copy, Debug, PartialEq, Eq, Structural)]
pub enum MouseMove {
    ToDisplay(Direction),
}

/// A top-level command.
#[derive(Clone, Debug)]
pub enum Command {
    PrintState,
    Window(Operation),
    Mouse(MouseMove),
    Quit,
    Exec(String),
    SetMode(String),
    ReloadConfig,
}

} // verus!

verus! {

/// The mathematical form of a command (text as character sequences).
pub enum CommandView {
    PrintState,
    Window(Operation),
    Mouse(MouseMove),
    Quit,
    Exec(Seq<char>),
    SetMode(Seq<char>),
    ReloadConfig,
}

impl View for Command {
    type V = CommandView;

    open spec fn view(&self) -> CommandView {
        match self {
            Command::PrintState => CommandView::PrintState,
            Command::Window(o) => CommandView::Window(*o),
            Command::Mouse(m) => CommandView::Mouse(*m),
            Command::Quit => CommandView::Quit,
            Command::Exec(s) => CommandView::Exec(s@),
            Command::SetMode(s) => CommandView::SetMode(s@),
            Command::ReloadConfig => CommandView::ReloadConfig,
        }
    }
}

/// The argument words as character sequences.
pub open spec fn words(argv: Seq<&str>) -> Seq<Seq<char>> {
    argv.map_values(|s: &str| s@)
}

/// The direction named by a word (lowercase, exact).
pub open spec fn spec_parse_direction(s: Seq<char>) -> Option<Direction> {
    if s == "north"@ {
        Some(Direction::North)
    } else if s == "south"@ {
        Some(Direction::South)
    } else if s == "west"@ {
        Some(Direction::West)
    } else if s == "east"@ {
        Some(Direction::East)
    } else if s == "first"@ {
        Some(Direction::First)
    } else if s == "last"@ {
        Some(Direction::Last)
    } else {
        None
    }
}

/// The word at `i`, if present.
pub open spec fn arg(args: Seq<Seq<char>>, i: int) -> Option<Seq<char>> {
    if 0 <= i < args.len() { Some(args[i]) } else { None }
}

/// A direction argument at position `i`.
pub open spec fn dir_arg(args: Seq<Seq<char>>, i: int) -> Option<Direction> {
    match arg(args, i) {
        Some(a) => spec_parse_direction(a),
        None => None,
    }
}

/// An integer argument at position `i`.
pub open spec fn int_arg(args: Seq<Seq<char>>, i: int) -> Option<i32> {
    match arg(args, i) {
        Some(a) => spec_parse_i32(a),
        None => None,
    }
}

/// The window operation named by `args` (operation word, then its
/// arguments).
pub open spec fn spec_parse_operation(args: Seq<Seq<char>>) -> Option<Operation> {
    if args.len() == 0 {
        None
    } else {
        let cmd = args[0];
        if cmd == "focus"@ {
            match dir_arg(args, 1) {
                Some(d) => Some(Operation::Focus(d)),
                None => None,
            }
        } else if cmd == "focus_id"@ {
            match int_arg(args, 1) {
                Some(id) => Some(Operation::FocusById(id)),
                None => None,
            }
        } else if cmd == "swap"@ {
            match dir_arg(args, 1) {
                Some(d) => Some(Operation::Swap(d)),
                None => None,
            }
        } else if cmd == "center"@ {
            Some(Operation::Center)
        } else if cmd == "resize"@ {
            Some(Operation::Resize)
        } else if cmd == "resize_to"@ {
            match (int_arg(args, 1), int_arg(args, 2)) {
                (Some(w), Some(h)) => Some(Operation::ResizeTo(w, h)),
                _ => None,
            }
        } else if cmd == "fullwidth"@ {
            Some(Operation::FullWidth)
        } else if cmd == "manage"@ {
            Some(Operation::Manage)
        } else if cmd == "equalize"@ {
            Some(Operation::Equalize)
        } else if cmd == "stack"@ {
            Some(Operation::Stack(true))
        } else if cmd == "unstack"@ {
            Some(Operation::Stack(false))
        } else if cmd == "nextdisplay"@ {
            Some(Operation::ToNextDisplay)
        } else if cmd == "move_to"@ {
            match (int_arg(args, 1), int_arg(args, 2)) {
                (Some(x), Some(y)) => Some(Operation::MoveTo(x, y)),
                _ => None,
            }
        } else {
            None
        }
    }
}

/// The mouse movement named by `args`.
pub open spec fn spec_parse_mouse_move(args: Seq<Seq<char>>) -> Option<MouseMove> {
    if args.len() > 0 && args[0] == "nextdisplay"@ {
        Some(MouseMove::ToDisplay(Direction::East))
    } else {
        None
    }
}

/// The command named by `args` (command word, then its arguments).
pub open spec fn spec_parse_command(args: Seq<Seq<char>>) -> Option<CommandView> {
    if args.len() == 0 {
        None
    } else {
        let cmd = args[0];
        if cmd == "printstate"@ {
            Some(CommandView::PrintState)
        } else if cmd == "window"@ {
            match spec_parse_operation(args.skip(1)) {
                Some(o) => Some(CommandView::Window(o)),
                None => None,
            }
        } else if cmd == "mouse"@ {
            match spec_parse_mouse_move(args.skip(1)) {
                Some(m) => Some(CommandView::Mouse(m)),
                None => None,
            }
        } else if cmd == "quit"@ {
            Some(CommandView::Quit)
        } else if cmd == "exec"@ {
            Some(CommandView::Exec(spec_join(args.skip(1), " "@)))
        } else if cmd == "mode"@ {
            Some(CommandView::SetMode(if args.len() > 1 { args[1] } else { "tiling"@ }))
        } else if cmd == "reload"@ {
            Some(CommandView::ReloadConfig)
        } else {
            None
        }
    }
}

/// The message for a word that names no direction. Parse errors start
/// with the path of the function that reports them.
pub open spec fn direction_error(d: Seq<char>) -> Seq<char> {
    "karakuri::config::parse_direction: Unhandled direction "@ + d
}

/// The message for window-operation words that name no operation: an
/// invalid direction after `focus` or `swap` is reported as such, anything
/// else as an invalid command.
pub open spec fn operation_error(args: Seq<Seq<char>>) -> Seq<char> {
    if args.len() >= 2 && (args[0] == "focus"@ || args[0] == "swap"@) {
        direction_error(args[1])
    } else {
        "karakuri::config::parse_operation: Invalid command '"@ + debug_words(args) + "'"@
    }
}

/// The message for mouse words that name no movement.
pub open spec fn mouse_error(args: Seq<Seq<char>>) -> Seq<char> {
    "karakuri::config::parse_mouse_move: Invalid mouse command '"@ + debug_words(args) + "'"@
}

/// The message for words that name no command.
pub open spec fn command_error(args: Seq<Seq<char>>) -> Seq<char> {
    if args.len() > 0 && args[0] == "window"@ {
        operation_error(args.skip(1))
    } else if args.len() > 0 && args[0] == "mouse"@ {
        mouse_error(args.skip(1))
    } else {
        "karakuri::config::parse_command: Unhandled command '"@ + debug_words(args) + "'"@
    }
}

/// An error about `argv[from..]`: `pre`, the words as `{:?}` writes them,
/// and a closing quote.
fn words_error(pre: &str, argv: &[&str], from: usize) -> (e: Error)
    requires
        from <= argv@.len(),
    ensures
        message(e) == pre@ + debug_words(words(argv@).skip(from as int)) + "'"@,
{
    let d = words_debug(argv, from);
    assert(argv@.skip(from as int).map_values(|p: &str| p@) =~= words(argv@).skip(from as int));
    invalid3(pre, d.as_str(), "'")
}

/// Parses a word into a `Direction` (exact, lowercase).
pub fn parse_direction(dir: &str) -> (r: Result<Direction, Error>)
    ensures
        match r {
            Ok(d) => spec_parse_direction(dir@) == Some(d),
            Err(e) => spec_parse_direction(dir@) is None && message(e) == direction_error(dir@),
        },
{
    if str_eq(dir, "north") {
        Ok(Direction::North)
    } else if str_eq(dir, "south") {
        Ok(Direction::South)
    } else if str_eq(dir, "west") {
        Ok(Direction::West)
    } else if str_eq(dir, "east") {
        Ok(Direction::East)
    } else if str_eq(dir, "first") {
        Ok(Direction::First)
    } else if str_eq(dir, "last") {
        Ok(Direction::Last)
    } else {
        Err(invalid2("karakuri::config::parse_direction: Unhandled direction ", dir))
    }
}

fn int_at(argv: &[&str], i: usize) -> (r: Option<i32>)
    ensures
        r == int_arg(words(argv@), i as int),
{
    if i < argv.len() {
        parse_i32(argv[i])
    } else {
        None
    }
}

/// Parses the words `argv[from..]` into an `Operation`.
fn parse_operation_from(argv: &[&str], from: usize) -> (r: Result<Operation, Error>)
    requires
        from <= argv@.len(),
    ensures
        match r {
            Ok(o) => spec_parse_operation(words(argv@).skip(from as int)) == Some(o),
            Err(e) => spec_parse_operation(words(argv@).skip(from as int)) is None && message(e) == operation_error(
                words(argv@).skip(from as int),
            ),
        },
{
    let ghost args = words(argv@).skip(from as int);
    assert(forall|k: int| 0 <= k < args.len() ==> #[trigger] args[k] == argv@[from + k]@);
    assert(forall|k: int| #![trigger arg(args, k)] 0 <= k ==> arg(args, k) == arg(words(argv@), from + k));
    if from >= argv.len() {
        return Err(words_error("karakuri::config::parse_operation: Invalid command '", argv, from));
    }
    let cmd = argv[from];
    assert(args[0] == cmd@);
    let out = if str_eq(cmd, "focus") || str_eq(cmd, "swap") {
        if from + 1 >= argv.len() {
            return Err(words_error("karakuri::config::parse_operation: Invalid command '", argv, from));
        }
        assert(args[1] == argv@[from + 1]@);
        proof {
            reveal_strlit("swap");
            reveal_strlit("focus_id");
            assert("swap"@.len() != "focus_id"@.len());
        }
        let d = match parse_direction(argv[from + 1]) {
            Ok(d) => d,
            Err(e) => return Err(e),
        };
        if str_eq(cmd, "focus") {
            Operation::Focus(d)
        } else {
            Operation::Swap(d)
        }
    } else if str_eq(cmd, "focus_id") {
        match int_at(argv, from + 1) {
            Some(id) => Operation::FocusById(id),
            None => return Err(words_error("karakuri::config::parse_operation: Invalid command '", argv, from)),
        }
    } else if str_eq(cmd, "center") {
        Operation::Center
    } else if str_eq(cmd, "resize") {
        Operation::Resize
    } else if str_eq(cmd, "resize_to") {
        let w = match int_at(argv, from + 1) {
            Some(v) => v,
            None => return Err(words_error("karakuri::config::parse_operation: Invalid command '", argv, from)),
        };
        let h = match int_at(argv, from + 2) {
            Some(v) => v,
            None => return Err(words_error("karakuri::config::parse_operation: Invalid command '", argv, from)),
        };
        Operation::ResizeTo(w, h)
    } else if str_eq(cmd, "fullwidth") {
        Operation::FullWidth
    } else if str_eq(cmd, "manage") {
        Operation::Manage
    } else if str_eq(cmd, "equalize") {
        Operation::Equalize
    } else if str_eq(cmd, "stack") {
        Operation::Stack(true)
    } else if str_eq(cmd, "unstack") {
        Operation::Stack(false)
    } else if str_eq(cmd, "nextdisplay") {
        Operation::ToNextDisplay
    } else if str_eq(cmd, "move_to") {
        let x = match int_at(argv, from + 1) {
            Some(v) => v,
            None => return Err(words_error("karakuri::config::parse_operation: Invalid command '", argv, from)),
        };
        let y = match int_at(argv, from + 2) {
            Some(v) => v,
            None => return Err(words_error("karakuri::config::parse_operation: Invalid command '", argv, from)),
        };
        Operation::MoveTo(x, y)
    } else {
        return Err(words_error("karakuri::config::parse_operation: Invalid command '", argv, from));
    };
    Ok(out)
}

/// Parses an argument vector (operation word first) into an `Operation`.
pub fn parse_operation(argv: &[&str]) -> (r: Result<Operation, Error>)
    ensures
        match r {
            Ok(o) => spec_parse_operation(words(argv@)) == Some(o),
            Err(e) => spec_parse_operation(words(argv@)) is None && message(e) == operation_error(words(argv@)),
        },
{
    assert(words(argv@).skip(0) =~= words(argv@));
    parse_operation_from(argv, 0)
}

/// Parses the words `argv[from..]` into a `MouseMove`.
fn parse_mouse_move_from(argv: &[&str], from: usize) -> (r: Result<MouseMove, Error>)
    requires
        from <= argv@.len(),
    ensures
        match r {
            Ok(m) => spec_parse_mouse_move(words(argv@).skip(from as int)) == Some(m),
            Err(e) => spec_parse_mouse_move(words(argv@).skip(from as int)) is None && message(e) == mouse_error(
                words(argv@).skip(from as int),
            ),
        },
{
    let ghost args = words(argv@).skip(from as int);
    if from < argv.len() && str_eq(argv[from], "nextdisplay") {
        assert(args[0] == argv@[from as int]@);
        Ok(MouseMove::ToDisplay(Direction::East))
    } else {
        proof {
            if args.len() > 0 {
                assert(args[0] == argv@[from as int]@);
            }
        }
        Err(words_error("karakuri::config::parse_mouse_move: Invalid mouse command '", argv, from))
    }
}

/// Parses an argument vector (command word first) into a `Command`.
pub fn parse_command(argv: &[&str]) -> (r: Result<Command, Error>)
    ensures
        match r {
            Ok(c) => spec_parse_command(words(argv@)) == Some(c@),
            Err(e) => spec_parse_command(words(argv@)) is None && message(e) == command_error(words(argv@)),
        },
{
    let ghost args = words(argv@);
    assert(words(argv@).skip(0) =~= words(argv@));
    if argv.len() == 0 {
        return Err(words_error("karakuri::config::parse_command: Unhandled command '", argv, 0));
    }
    let cmd = argv[0];
    assert(args[0] == cmd@);
    let out = if str_eq(cmd, "printstate") {
        Command::PrintState
    } else if str_eq(cmd, "window") {
        match parse_operation_from(argv, 1) {
            Ok(o) => Command::Window(o),
            Err(e) => return Err(e),
        }
    } else if str_eq(cmd, "mouse") {
        match parse_mouse_move_from(argv, 1) {
            Ok(m) => Command::Mouse(m),
            Err(e) => return Err(e),
        }
    } else if str_eq(cmd, "quit") {
        Command::Quit
    } else if str_eq(cmd, "exec") {
        let s = join_strs(argv, 1, " ");
        assert(argv@.skip(1).map_values(|p: &str| p@) =~= args.skip(1));
        Command::Exec(s)
    } else if str_eq(cmd, "mode") {
        if argv.len() > 1 {
            assert(args[1] == argv@[1]@);
            Command::SetMode(String::from_str(argv[1]))
        } else {
            Command::SetMode(String::from_str("tiling"))
        }
    } else if str_eq(cmd, "reload") {
        Command::ReloadConfig
    } else {
        return Err(words_error("karakuri::config::parse_command: Unhandled command '", argv, 0));
    };
    Ok(out)
}

} // verus!
