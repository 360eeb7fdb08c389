//! The replies and command words of the inspection server's tools.
use vstd::prelude::*;
use crate::text::{signed_decimal_string, spec_signed_decimal, spec_split_whitespace, split_whitespace};

verus! {

/// The reply to a command that was delivered.
pub open spec fn spec_ok_reply() -> Seq<char> {
    "{\"ok\":true}"@
}

/// The reply naming an error.
pub open spec fn spec_error_reply(message: Seq<char>) -> Seq<char> {
    "{\"error\":\""@ + message + "\"}"@
}

/// The reply to a tool that sent a command: `{"ok":true}`, or the error.
pub fn command_reply(sent: &Result<(), String>) -> (r: String)
    ensures
        r@ == match sent {
            Ok(_) => spec_ok_reply(),
            Err(m) => spec_error_reply(m@),
        },
{
    match sent {
        Ok(()) => String::from_str("{\"ok\":true}"),
        Err(m) => {
            let mut r = String::from_str("{\"error\":\"");
            r.append(m.as_str());
            r.append("\"}");
            r
        },
    }
}

/// The reply to a query: the daemon's answer, or why it could not be reached.
pub fn query_reply(answer: Result<String, String>) -> (r: String)
    ensures
        r@ == match answer {
            Ok(json) => json@,
            Err(m) => spec_error_reply("Failed to connect to ayatsuri daemon: "@ + m@),
        },
{
    match answer {
        Ok(json) => json,
        Err(m) => {
            let mut r = String::from_str("{\"error\":\"");
            r.append("Failed to connect to ayatsuri daemon: ");
            r.append(m.as_str());
            r.append("\"}");
            proof {
                assert(r@ =~= spec_error_reply("Failed to connect to ayatsuri daemon: "@ + m@));
            }
            r
        },
    }
}

fn word(s: &str) -> (r: String)
    ensures
        r@ == s@,
{
    String::from_str(s)
}

/// The words that focus the window with this identifier.
pub fn focus_window_words(window_id: i32) -> (r: Vec<String>)
    ensures
        r@.map_values(|w: String| w@) == seq!["window"@, "focus_id"@, spec_signed_decimal(window_id as int)],
{
    let mut r: Vec<String> = Vec::new();
    r.push(word("window"));
    r.push(word("focus_id"));
    r.push(signed_decimal_string(window_id as i64));
    assert(r@.map_values(|w: String| w@) =~= seq!["window"@, "focus_id"@, spec_signed_decimal(window_id as int)]);
    r
}

/// The words of a command taking two numbers (such as `move_to` or `resize_to`).
pub fn window_pair_words(op: &str, a: i32, b: i32) -> (r: Vec<String>)
    ensures
        r@.map_values(|w: String| w@) == seq![
            "window"@,
            op@,
            spec_signed_decimal(a as int),
            spec_signed_decimal(b as int),
        ],
{
    let mut r: Vec<String> = Vec::new();
    r.push(word("window"));
    r.push(word(op));
    r.push(signed_decimal_string(a as i64));
    r.push(signed_decimal_string(b as i64));
    assert(r@.map_values(|w: String| w@) =~= seq![
        "window"@,
        op@,
        spec_signed_decimal(a as int),
        spec_signed_decimal(b as int),
    ]);
    r
}

/// The words that switch the mode: `mode` and the words of `mode_name`.
pub fn set_mode_words(mode_name: &str) -> (r: Vec<String>)
    ensures
        r@.map_values(|w: String| w@) == spec_split_whitespace("mode "@ + mode_name@),
{
    let mut line = String::from_str("mode ");
    line.append(mode_name);
    split_whitespace(line.as_str())
}

} // verus!
