use karakuri::commands::{Command, Direction, Operation};
use karakuri::ipc::{
    command_message, command_words, decode_words, encode_words, frame, frame_len, is_query, le_bytes, query_kind,
    query_message, read_request, QueryKind, Request,
};
use karakuri::mcp::{command_reply, focus_window_words, query_reply, set_mode_words, window_pair_words};
use karakuri::notification::notification_text;
use karakuri::wallpaper::{check_any_screen, check_screen_index, expand_tilde};

fn words(v: &[&str]) -> Vec<String> {
    v.iter().map(|s| s.to_string()).collect()
}

#[test]
fn command_payload_is_words_with_zero_terminators() {
    let p = encode_words(&words(&["window", "focus", "east"]));
    assert_eq!(p, b"window\0focus\0east\0".to_vec());
    let m = command_message(&words(&["quit"])).unwrap();
    assert_eq!(m, vec![5, 0, 0, 0, b'q', b'u', b'i', b't', 0]);
}

#[test]
fn header_roundtrip() {
    for n in [0u32, 1, 255, 256, 65_535, 16_777_216, u32::MAX] {
        assert_eq!(le_bytes(n), n.to_le_bytes());
        assert_eq!(frame_len(le_bytes(n)), n);
    }
    assert_eq!(frame(&vec![1, 2]).unwrap(), vec![2, 0, 0, 0, 1, 2]);
}

#[test]
fn daemon_reads_back_sent_words() {
    let sent = words(&["window", "move_to", "-10", "20"]);
    let payload = encode_words(&sent);
    let back = command_words(&payload);
    assert_eq!(back, sent);
    let pieces = decode_words(b"\0\0a\0\0bc\0d");
    assert_eq!(pieces, vec![b"a".to_vec(), b"bc".to_vec(), b"d".to_vec()]);
}

#[test]
fn invalid_utf8_is_replaced() {
    let back = command_words(&[b'a', 0xff, 0, b'b']);
    assert_eq!(back, vec!["a\u{FFFD}".to_string(), "b".to_string()]);
}

#[test]
fn requests_are_queries_or_commands() {
    let q = query_message("focused").unwrap();
    assert_eq!(&q[..4], &[13, 0, 0, 0]);
    assert!(is_query(&q[4..]));
    assert!(matches!(read_request(&q[4..]), Request::Query(QueryKind::Focused)));
    assert!(matches!(read_request(b"query\0state\0\0"), Request::Query(QueryKind::State)));
    assert!(matches!(read_request(b"query\0displays"), Request::Query(QueryKind::Displays)));
    assert!(matches!(read_request(b"query\0config"), Request::Query(QueryKind::Config)));
    assert!(matches!(read_request(b"query\0windows"), Request::Query(QueryKind::Windows)));
    assert!(matches!(read_request(b"query\0bogus"), Request::Query(QueryKind::Unknown)));
    assert!(!is_query(b"quer"));
    assert_eq!(query_kind(b"state"), QueryKind::State);
    assert!(matches!(
        read_request(b"window\0focus\0west\0"),
        Request::Command(Ok(Command::Window(Operation::Focus(Direction::West))))
    ));
    assert!(matches!(read_request(b"bogus\0"), Request::Command(Err(_))));
    assert!(matches!(read_request(b""), Request::Command(Err(_))));
}

#[test]
fn tool_replies_and_words() {
    assert_eq!(command_reply(&Ok(())), r#"{"ok":true}"#);
    assert_eq!(command_reply(&Err("broken pipe".to_string())), r#"{"error":"broken pipe"}"#);
    assert_eq!(query_reply(Ok("[]".to_string())), "[]");
    assert_eq!(
        query_reply(Err("refused".to_string())),
        r#"{"error":"Failed to connect to ayatsuri daemon: refused"}"#
    );
    assert_eq!(focus_window_words(-42), vec!["window", "focus_id", "-42"]);
    assert_eq!(window_pair_words("move_to", 100, 200), vec!["window", "move_to", "100", "200"]);
    assert_eq!(set_mode_words("  floating "), vec!["mode", "floating"]);
    assert_eq!(set_mode_words(""), vec!["mode"]);
}

#[test]
fn wallpaper_paths_and_screens() {
    assert_eq!(expand_tilde("~/Pictures/a.png", Some("/Users/me")), "/Users/me/Pictures/a.png");
    assert_eq!(expand_tilde("~", Some("/h")), "/h");
    assert_eq!(expand_tilde("/abs/~x", Some("/h")), "/abs/~x");
    assert_eq!(expand_tilde("~/x", None), "~/x");
    assert!(check_screen_index(0, 1).is_ok());
    assert_eq!(check_screen_index(2, 2), Err("screen index 2 out of range (have 2)".to_string()));
    assert_eq!(check_any_screen(0), Err("no screens found".to_string()));
    assert!(check_any_screen(3).is_ok());
}

#[test]
fn notification_line() {
    assert_eq!(notification_text("Build", "done"), "[notification] Build: done");
}

#[test]
fn documented_queries_are_known() {
    assert_eq!(query_kind(b"full_config"), QueryKind::FullConfig);
    assert_eq!(query_kind(b"windows\0"), QueryKind::Windows);
    assert_eq!(query_kind(b"workspaces"), QueryKind::Workspaces);
    assert_eq!(query_kind(b"window:42"), QueryKind::Window(42));
    assert_eq!(query_kind(b"window:-7\0\0"), QueryKind::Window(-7));
    assert_eq!(query_kind(b"window:"), QueryKind::Unknown);
    assert_eq!(query_kind(b"window:4x"), QueryKind::Unknown);
    assert_eq!(query_kind(b"window:2147483648"), QueryKind::Unknown);
    assert_eq!(query_kind(b"window"), QueryKind::Unknown);
    let q = query_message("window:12").unwrap();
    assert!(matches!(read_request(&q[4..]), Request::Query(QueryKind::Window(12))));
}

#[test]
fn command_payload_reaches_parser() {
    let words = vec!["window".to_string(), "resize_to".to_string(), "800".to_string(), "600".to_string()];
    let m = command_message(&words).unwrap();
    assert!(matches!(read_request(&m[4..]), Request::Command(Ok(Command::Window(Operation::ResizeTo(800, 600))))));
}
