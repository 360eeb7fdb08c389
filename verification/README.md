# karakuri

The decision logic of a scrollable tiling window manager for macOS,
written in Verus: every function in `src/` carries a contract that Verus
proves, except a few small wrappers around outside code, whose contracts
Verus takes on trust (`#[verifier::external_body]`):

- `rules::regex_new`, `rules::regex_find`, `rules::regex_error_message`:
  `regex::Regex::new`, `Regex::is_match` and the `Display` of
  `regex::Error`;
- `ipc::text_of_bytes`: `String::from_utf8_lossy`;
- `text::text_debug`: the `Debug` formatting of a string;
- `status_bar::builtins::unix_time_secs`: the system clock.

## Layout

- `src/` — the verified library.
  - `geometry`, `layout`, `strip`, `swipe`, `snap`, `drag`: window frames,
    the column strip, directional navigation, viewport clamping, edge
    snapping and drag placement.
  - `commands`, `keys`, `text`: the command language, keybinding notation,
    keycode tables and the text helpers they need.
  - `config`, `defaults`, `gestures`, `json`: option defaults and clamps,
    `defaults write` argument lists, gesture suppression preferences, and
    the deep merge of configuration patches.
  - `ipc`, `mcp`, `snapshot`: the socket wire format, the inspection
    server's replies, and the state snapshot answered to queries.
  - `rules`, `overlay`: per-window rules matched by title pattern (through
    the `regex` crate) and bundle identifier, and what the dim and border
    overlays do for the focused window.
  - `state`, `ecs`, `clipboard`, `handlers`, `notification`, `wallpaper`,
    `color`: focus and reload state, component values, clipboard history,
    the script callback registry, and small formatting and parsing helpers.
  - `status_bar`, `bar_layout`: status bar items, built-in widgets,
    animations, and the grouping and ordering of bar items.
- `tests/` — ordinary Rust tests of the library.
- `app/` — the command-line front end: sockets, processes, configuration
  files, JSON, and the floating-point arithmetic (springs, swipe physics,
  bar item positions, color fractions).
