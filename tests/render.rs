use linenoise::render::{multiline_layout, refresh_multiline, refresh_singleline};
use linenoise::LineBuffer;

fn prompt(s: &str) -> Vec<char> {
    s.chars().collect()
}

fn buffer_with(s: &str) -> LineBuffer {
    let mut b = LineBuffer::new();
    b.set(s);
    b
}

#[test]
fn single_line_plain() {
    let out = refresh_singleline(&prompt("> "), &buffer_with("abc"), 80, false, &None, false);
    assert_eq!(out, "\r> abc\x1b[0K\r\x1b[5C");
}

#[test]
fn single_line_cursor_column_has_two_digits() {
    let out = refresh_singleline(&prompt("prompt> "), &buffer_with("abcd"), 80, false, &None, false);
    assert_eq!(out, "\rprompt> abcd\x1b[0K\r\x1b[12C");
}

#[test]
fn single_line_masked() {
    let out = refresh_singleline(&prompt("> "), &buffer_with("abc"), 80, true, &None, false);
    assert_eq!(out, "\r> ***\x1b[0K\r\x1b[5C");
}

#[test]
fn single_line_with_colored_hint() {
    let hint = Some((" world".to_string(), 35, false));
    let out = refresh_singleline(&prompt("> "), &buffer_with("hello"), 80, false, &hint, false);
    assert_eq!(out, "\r> hello\x1b[35m world\x1b[0m\x1b[0K\r\x1b[7C");
}

#[test]
fn single_line_bold_hint_is_truncated() {
    let hint = Some(("12345".to_string(), -1, true));
    let out = refresh_singleline(&prompt("> "), &buffer_with("ab"), 7, false, &hint, false);
    assert_eq!(out, "\r> ab\x1b[1m123\x1b[0m\x1b[0K\r\x1b[4C");
}

#[test]
fn single_line_no_hint_while_completing() {
    let hint = Some(("zzz".to_string(), 35, false));
    let out = refresh_singleline(&prompt("> "), &buffer_with("ab"), 80, false, &hint, true);
    assert_eq!(out, "\r> ab\x1b[0K\r\x1b[4C");
}

#[test]
fn single_line_window_follows_cursor() {
    let mut b = buffer_with("abcdefghij");
    let out = refresh_singleline(&prompt("> "), &b, 7, false, &None, false);
    assert_eq!(out, "\r> ghij\x1b[0K\r\x1b[6C");
    b.move_home();
    let out = refresh_singleline(&prompt("> "), &b, 7, false, &None, false);
    assert_eq!(out, "\r> abcde\x1b[0K\r\x1b[2C");
    for _ in 0..5 {
        b.move_right();
    }
    let out = refresh_singleline(&prompt("> "), &b, 7, false, &None, false);
    assert_eq!(out, "\r> defgh\x1b[0K\r\x1b[4C");
}

#[test]
fn layout_row_counts() {
    let l = multiline_layout(2, 13, 13, 5);
    assert_eq!(l.content_rows, 3);
    assert!(l.phantom);
    assert_eq!(l.total_rows, 4);
    assert_eq!(l.cursor_row, 3);
    assert_eq!(l.cursor_col, 0);
    let l = multiline_layout(2, 13, 10, 5);
    assert_eq!(l.content_rows, 3);
    assert!(!l.phantom);
    assert_eq!(l.total_rows, 3);
    assert_eq!(l.cursor_row, 2);
    assert_eq!(l.cursor_col, 2);
    let l = multiline_layout(2, 14, 14, 5);
    assert_eq!(l.content_rows, 4);
    assert!(!l.phantom);
    assert_eq!(l.total_rows, 4);
}

#[test]
fn layout_of_nothing_is_one_row() {
    let l = multiline_layout(0, 0, 0, 80);
    assert_eq!(l.content_rows, 1);
    assert!(!l.phantom);
    assert_eq!(l.total_rows, 1);
    assert_eq!(l.cursor_row, 0);
    assert_eq!(l.cursor_col, 0);
}

#[test]
fn layout_rows_match_ceiling_for_many_widths() {
    for w in 1..12usize {
        for len in 0..30usize {
            for pos in [0, len / 2, len] {
                let l = multiline_layout(3, len, pos, w);
                let n = 3 + len;
                assert_eq!(l.content_rows, (n + w - 1) / w);
                let extra = pos == len && (3 + pos) % w == 0;
                assert_eq!(l.total_rows, l.content_rows + if extra { 1 } else { 0 });
            }
        }
    }
}

#[test]
fn multi_line_first_draw() {
    let (out, l) = refresh_multiline(&prompt("> "), &buffer_with("abc"), 10, false, &None, false, 0, 0);
    assert_eq!(out, "\r\x1b[2K\r> abc\r\x1b[5C");
    assert_eq!(l.total_rows, 1);
    assert_eq!(l.cursor_row, 0);
}

#[test]
fn multi_line_phantom_row_and_redraw() {
    let b = buffer_with("abc");
    let (out, l) = refresh_multiline(&prompt("> "), &b, 5, false, &None, false, 0, 0);
    assert_eq!(out, "\r\x1b[2K\r\n\x1b[2K\x1b[1A\r> abc\r\n\r\x1b[0C");
    assert_eq!(l.total_rows, 2);
    assert_eq!(l.cursor_row, 1);
    let (out, _) = refresh_multiline(&prompt("> "), &b, 5, false, &None, false, l.total_rows, l.cursor_row);
    assert_eq!(out, "\r\x1b[1A\x1b[2K\r\n\x1b[2K\x1b[1A\r> abc\r\n\r\x1b[0C");
}

#[test]
fn multi_line_cursor_moves_up_to_its_row() {
    let mut b = buffer_with("abcdefgh");
    b.move_home();
    let (out, l) = refresh_multiline(&prompt("> "), &b, 5, false, &None, false, 0, 0);
    assert_eq!(out, "\r\x1b[2K\r\n\x1b[2K\x1b[1A\r> abcdefgh\x1b[1A\r\x1b[2C");
    assert_eq!(l.total_rows, 2);
    assert_eq!(l.cursor_row, 0);
}

#[test]
fn multi_line_hint_fills_rest_of_row() {
    let hint = Some(("xyzxyz".to_string(), 33, true));
    let (out, _) = refresh_multiline(&prompt("> "), &buffer_with("ab"), 8, false, &hint, false, 0, 0);
    assert_eq!(out, "\r\x1b[2K\r> ab\x1b[1m\x1b[33mxyzx\x1b[0m\r\x1b[4C");
}

#[test]
fn multi_line_masked() {
    let (out, _) = refresh_multiline(&prompt(""), &buffer_with("pw"), 10, true, &None, false, 0, 0);
    assert_eq!(out, "\r\x1b[2K\r**\r\x1b[2C");
}

#[test]
fn single_line_cursor_stays_on_screen_for_long_lines() {
    let line: String = std::iter::repeat('x').take(50).collect();
    let mut b = buffer_with(&line);
    for step in 0..=50 {
        let out = refresh_singleline(&prompt("> "), &b, 10, false, &None, false);
        let col: usize = out.rsplit("\r\x1b[").next().unwrap().trim_end_matches('C').parse().unwrap();
        assert!(col < 10, "cursor column {} at step {}", col, step);
        b.move_left();
    }
}

#[test]
fn multi_line_cursor_on_row_boundary_inside_line() {
    let mut b = buffer_with("abcdefgh");
    b.move_home();
    for _ in 0..3 {
        b.move_right();
    }
    let l = multiline_layout(2, 8, 3, 5);
    assert_eq!(l.cursor_row, 1);
    assert_eq!(l.cursor_col, 0);
    assert!(!l.phantom);
    let (out, l2) = refresh_multiline(&prompt("> "), &b, 5, false, &None, false, 0, 0);
    assert_eq!(out, "\r\x1b[2K\r\n\x1b[2K\x1b[1A\r> abcdefgh\r\x1b[0C");
    assert_eq!(l2.cursor_row, 1);
}
