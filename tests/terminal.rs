use linenoise::terminal::{choose_columns, is_unsupported_term, parse_cursor_reply, strip_line_end};

#[test]
fn cursor_reply_is_parsed() {
    assert_eq!(parse_cursor_reply(b"\x1b[12;80R"), Some((12, 80)));
    assert_eq!(parse_cursor_reply(b"\x1b[1;1R"), Some((1, 1)));
    assert_eq!(parse_cursor_reply(b"\x1b[+3;4R"), Some((3, 4)));
}

#[test]
fn malformed_cursor_reply_is_refused() {
    assert_eq!(parse_cursor_reply(b""), None);
    assert_eq!(parse_cursor_reply(b"R"), None);
    assert_eq!(parse_cursor_reply(b"\x1b[R"), None);
    assert_eq!(parse_cursor_reply(b"\x1b[5R"), None);
    assert_eq!(parse_cursor_reply(b"\x1b[;5R"), None);
    assert_eq!(parse_cursor_reply(b"\x1b[5;R"), None);
    assert_eq!(parse_cursor_reply(b"\x1b[a;5R"), None);
    assert_eq!(parse_cursor_reply(b"\x1b[1;2;3R"), None);
    assert_eq!(parse_cursor_reply(b"\x1b[1;99999999999999999999999R"), None);
}

#[test]
fn denylisted_terminals() {
    assert!(is_unsupported_term("dumb"));
    assert!(is_unsupported_term("DUMB"));
    assert!(is_unsupported_term("Emacs"));
    assert!(is_unsupported_term("cons25"));
    assert!(!is_unsupported_term("xterm-256color"));
    assert!(!is_unsupported_term("dumbx"));
    assert!(!is_unsupported_term(""));
}

#[test]
fn columns_fall_back() {
    assert_eq!(choose_columns(Some(120), Some(3)), 120);
    assert_eq!(choose_columns(Some(0), Some(100)), 100);
    assert_eq!(choose_columns(None, Some(42)), 42);
    assert_eq!(choose_columns(None, None), 80);
}

#[test]
fn line_end_is_stripped() {
    assert_eq!(strip_line_end("abc\r\n"), "abc");
    assert_eq!(strip_line_end("abc\n"), "abc");
    assert_eq!(strip_line_end("abc"), "abc");
    assert_eq!(strip_line_end("a\r"), "a\r");
    assert_eq!(strip_line_end("\n"), "");
}

#[test]
fn cursor_reply_without_frame_is_refused() {
    assert_eq!(parse_cursor_reply(b"ab1;2R"), None);
    assert_eq!(parse_cursor_reply(b"\x1b(1;2R"), None);
    assert_eq!(parse_cursor_reply(b"\x1b[1;2"), None);
    assert_eq!(parse_cursor_reply(b"\x1b[1;23"), None);
    assert_eq!(parse_cursor_reply(b"\x1b[1;2X"), None);
}
