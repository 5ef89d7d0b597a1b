use linenoise::{
    linenoise_history_add, linenoise_set_completion_callback, Config, Editor, Effect,
};

type Completer = fn(&str, &mut Vec<String>);
type Hinter = fn(&str) -> Option<(String, i32, bool)>;
type Settings = Config<Completer, Hinter>;

const MORE: Effect = Effect::Continue { refresh: true, beep: false };
const QUIET: Effect = Effect::Continue { refresh: false, beep: false };
const BELL: Effect = Effect::Continue { refresh: false, beep: true };

fn foo_completions(line: &str, out: &mut Vec<String>) {
    if line == "f" {
        out.push("foo".to_string());
        out.push("foobar".to_string());
    }
}

fn type_str(ed: &mut Editor, cfg: &Settings, s: &str) {
    for b in s.bytes() {
        ed.feed(b, cfg);
    }
}

/// Runs a completion request the way a session does.
fn complete(ed: &mut Editor, cfg: &Settings) -> Effect {
    match ed.feed(9, cfg) {
        Effect::Complete(line) => {
            let mut cands = Vec::new();
            (cfg.completion_callback.unwrap())(&line, &mut cands);
            ed.handle_completion(&cands)
        }
        other => other,
    }
}

#[test]
fn printable_bytes_are_inserted() {
    let cfg = Settings::new();
    let mut ed = Editor::new("> ");
    assert_eq!(ed.feed(b'h', &cfg), MORE);
    assert_eq!(ed.feed(b'i', &cfg), MORE);
    assert_eq!(ed.line(), "hi");
}

#[test]
fn enter_returns_line_unchanged_and_leaves_history() {
    let cfg = Settings::new();
    let mut ed = Editor::new("> ");
    type_str(&mut ed, &cfg, "echo hi");
    assert_eq!(ed.feed(13, &cfg), Effect::Done("echo hi".to_string()));
    assert_eq!(ed.line(), "echo hi");
    assert_eq!(cfg.history.len(), 0);
}

#[test]
fn completion_cycles_through_candidates() {
    let mut cfg = Settings::new();
    linenoise_set_completion_callback(&mut cfg, foo_completions as Completer);
    let mut ed = Editor::new("> ");
    type_str(&mut ed, &cfg, "f");
    assert_eq!(ed.feed(9, &cfg), Effect::Complete("f".to_string()));
    let mut ed = Editor::new("> ");
    type_str(&mut ed, &cfg, "f");
    assert_eq!(complete(&mut ed, &cfg), MORE);
    assert_eq!(ed.line(), "foo");
    assert_eq!(ed.feed(9, &cfg), Effect::Complete("f".to_string()));
    ed.handle_completion(&vec!["foo".to_string(), "foobar".to_string()]);
    assert_eq!(ed.line(), "foobar");
    assert_eq!(complete(&mut ed, &cfg), MORE);
    assert_eq!(ed.line(), "foo");
    assert_eq!(ed.feed(2, &cfg), MORE);
    assert!(ed.completion_state.is_none());
    assert_eq!(ed.feed(13, &cfg), Effect::Done("foo".to_string()));
}

#[test]
fn completion_without_candidates_rings_bell() {
    let mut cfg = Settings::new();
    linenoise_set_completion_callback(&mut cfg, foo_completions as Completer);
    let mut ed = Editor::new("> ");
    type_str(&mut ed, &cfg, "zz");
    assert_eq!(complete(&mut ed, &cfg), BELL);
    assert_eq!(ed.line(), "zz");
    assert!(ed.completion_state.is_none());
}

#[test]
fn tab_without_producer_does_nothing() {
    let cfg = Settings::new();
    let mut ed = Editor::new("> ");
    type_str(&mut ed, &cfg, "f");
    assert_eq!(ed.feed(9, &cfg), QUIET);
    assert_eq!(ed.line(), "f");
}

#[test]
fn history_older_then_newer_restores_line() {
    let mut cfg = Settings::new();
    for l in ["one", "two", "three"] {
        linenoise_history_add(&mut cfg, l);
    }
    for k in 0..=3 {
        let mut ed = Editor::new("> ");
        type_str(&mut ed, &cfg, "draft");
        for _ in 0..k {
            assert_eq!(ed.feed(16, &cfg), MORE);
        }
        for _ in 0..k {
            ed.feed(14, &cfg);
        }
        assert_eq!(ed.line(), "draft");
        assert_eq!(ed.history_index, 0);
    }
}

#[test]
fn history_browsing_shows_entries() {
    let mut cfg = Settings::new();
    for l in ["one", "two"] {
        linenoise_history_add(&mut cfg, l);
    }
    let mut ed = Editor::new("> ");
    ed.feed(16, &cfg);
    assert_eq!(ed.line(), "two");
    ed.feed(16, &cfg);
    assert_eq!(ed.line(), "one");
    ed.feed(16, &cfg);
    assert_eq!(ed.line(), "one");
    ed.feed(14, &cfg);
    assert_eq!(ed.line(), "two");
    ed.feed(14, &cfg);
    assert_eq!(ed.line(), "");
    ed.feed(14, &cfg);
    assert_eq!(ed.line(), "");
}

#[test]
fn history_keys_with_empty_history_change_nothing() {
    let cfg = Settings::new();
    let mut ed = Editor::new("> ");
    type_str(&mut ed, &cfg, "x");
    assert_eq!(ed.feed(16, &cfg), QUIET);
    assert_eq!(ed.line(), "x");
    assert!(ed.saved_line.is_none());
}

#[test]
fn arrow_escape_sequences() {
    let mut cfg = Settings::new();
    linenoise_history_add(&mut cfg, "prev");
    let mut ed = Editor::new("> ");
    type_str(&mut ed, &cfg, "abc");
    assert_eq!(ed.feed(27, &cfg), QUIET);
    assert_eq!(ed.feed(b'[', &cfg), QUIET);
    assert_eq!(ed.feed(b'D', &cfg), MORE);
    assert_eq!(ed.buffer.pos, 2);
    type_str(&mut ed, &cfg, "\x1bOH");
    assert_eq!(ed.buffer.pos, 0);
    type_str(&mut ed, &cfg, "\x1b[F");
    assert_eq!(ed.buffer.pos, 3);
    type_str(&mut ed, &cfg, "\x1b[A");
    assert_eq!(ed.line(), "prev");
    type_str(&mut ed, &cfg, "\x1b[B");
    assert_eq!(ed.line(), "abc");
}

#[test]
fn delete_key_sequence() {
    let cfg = Settings::new();
    let mut ed = Editor::new("> ");
    type_str(&mut ed, &cfg, "abc");
    ed.feed(1, &cfg);
    ed.feed(6, &cfg);
    type_str(&mut ed, &cfg, "\x1b[3");
    assert!(ed.is_pending());
    assert_eq!(ed.feed(b'~', &cfg), MORE);
    assert_eq!(ed.line(), "ac");
    assert!(!ed.is_pending());
}

#[test]
fn unknown_escape_sequence_is_ignored() {
    let cfg = Settings::new();
    let mut ed = Editor::new("> ");
    type_str(&mut ed, &cfg, "ab");
    assert_eq!(ed.feed(27, &cfg), QUIET);
    assert_eq!(ed.feed(b'[', &cfg), QUIET);
    assert_eq!(ed.feed(b'Z', &cfg), QUIET);
    assert_eq!(ed.line(), "ab");
    assert_eq!(ed.buffer.pos, 2);
    assert!(!ed.is_pending());
}

#[test]
fn incomplete_escape_is_dropped_quietly() {
    let cfg = Settings::new();
    let mut ed = Editor::new("> ");
    ed.feed(27, &cfg);
    assert!(ed.in_escape());
    assert_eq!(ed.input_exhausted(), QUIET);
    assert!(!ed.is_pending());
    assert_eq!(ed.feed(b'x', &cfg), MORE);
    assert_eq!(ed.line(), "x");
}

#[test]
fn utf8_sequences_insert_characters() {
    let cfg = Settings::new();
    let mut ed = Editor::new("> ");
    assert_eq!(ed.feed(0xC3, &cfg), QUIET);
    assert_eq!(ed.feed(0xA9, &cfg), MORE);
    for b in "€😀".bytes() {
        ed.feed(b, &cfg);
    }
    assert_eq!(ed.line(), "é€😀");
    assert_eq!(ed.buffer.pos, 3);
}

#[test]
fn invalid_utf8_rings_bell() {
    let cfg = Settings::new();
    let mut ed = Editor::new("> ");
    assert_eq!(ed.feed(0xFF, &cfg), BELL);
    assert_eq!(ed.feed(0x80, &cfg), BELL);
    ed.feed(0xC0, &cfg);
    assert_eq!(ed.feed(0x80, &cfg), BELL);
    ed.feed(0xED, &cfg);
    ed.feed(0xA0, &cfg);
    assert_eq!(ed.feed(0x80, &cfg), BELL);
    ed.feed(0xC3, &cfg);
    assert_eq!(ed.feed(b'a', &cfg), BELL);
    ed.feed(0xE2, &cfg);
    assert_eq!(ed.input_exhausted(), BELL);
    assert_eq!(ed.line(), "");
}

#[test]
fn ctrl_d_ends_input_only_on_empty_line() {
    let cfg = Settings::new();
    let mut ed = Editor::new("> ");
    assert_eq!(ed.feed(4, &cfg), Effect::EndOfInput);
    type_str(&mut ed, &cfg, "ab");
    assert_eq!(ed.feed(4, &cfg), QUIET);
    ed.feed(2, &cfg);
    assert_eq!(ed.feed(4, &cfg), MORE);
    assert_eq!(ed.line(), "a");
}

#[test]
fn ctrl_c_interrupts() {
    let cfg = Settings::new();
    let mut ed = Editor::new("> ");
    type_str(&mut ed, &cfg, "abc");
    assert_eq!(ed.feed(3, &cfg), Effect::Interrupted);
    assert_eq!(ed.line(), "abc");
}

#[test]
fn control_key_edits() {
    let cfg = Settings::new();
    let mut ed = Editor::new("> ");
    type_str(&mut ed, &cfg, "hello world");
    assert_eq!(ed.feed(23, &cfg), MORE);
    assert_eq!(ed.line(), "hello ");
    assert_eq!(ed.feed(127, &cfg), MORE);
    assert_eq!(ed.line(), "hello");
    ed.feed(8, &cfg);
    assert_eq!(ed.line(), "hell");
    ed.feed(2, &cfg);
    ed.feed(2, &cfg);
    assert_eq!(ed.feed(11, &cfg), MORE);
    assert_eq!(ed.line(), "he");
    ed.feed(20, &cfg);
    assert_eq!(ed.line(), "eh");
    ed.feed(21, &cfg);
    assert_eq!(ed.line(), "");
    assert_eq!(ed.buffer.pos, 0);
    assert_eq!(ed.feed(0, &cfg), QUIET);
}

#[test]
fn ctrl_l_resets_rows() {
    let mut cfg = Settings::new();
    cfg.multi_line = true;
    let mut ed = Editor::new("> ");
    type_str(&mut ed, &cfg, "abc");
    ed.refresh_line(&cfg, 5, &None);
    assert_eq!(ed.old_rows, 2);
    assert_eq!(ed.cursor_row_offset, 1);
    assert_eq!(ed.feed(12, &cfg), Effect::ClearScreen);
    assert_eq!(ed.old_rows, 0);
    assert_eq!(ed.cursor_row_offset, 0);
}

#[test]
fn refresh_line_follows_mode() {
    let mut cfg = Settings::new();
    let mut ed = Editor::new("> ");
    type_str(&mut ed, &cfg, "ab");
    assert_eq!(ed.refresh_line(&cfg, 80, &None), "\r> ab\x1b[0K\r\x1b[4C");
    cfg.mask_mode = true;
    cfg.multi_line = true;
    assert_eq!(ed.refresh_line(&cfg, 80, &None), "\r\x1b[2K\r> **\r\x1b[4C");
    assert_eq!(ed.old_rows, 1);
}

#[test]
fn older_at_oldest_entry_keeps_edits() {
    let mut cfg = Settings::new();
    for l in ["one", "two"] {
        linenoise_history_add(&mut cfg, l);
    }
    let mut ed = Editor::new("> ");
    ed.feed(16, &cfg);
    ed.feed(16, &cfg);
    assert_eq!(ed.line(), "one");
    ed.feed(1, &cfg);
    type_str(&mut ed, &cfg, "x");
    assert_eq!(ed.feed(16, &cfg), QUIET);
    assert_eq!(ed.line(), "xone");
    assert_eq!(ed.buffer.pos, 1);
}

#[test]
fn newer_on_live_line_keeps_edits() {
    let mut cfg = Settings::new();
    linenoise_history_add(&mut cfg, "one");
    let mut ed = Editor::new("> ");
    type_str(&mut ed, &cfg, "a");
    ed.feed(16, &cfg);
    ed.feed(14, &cfg);
    assert_eq!(ed.line(), "a");
    type_str(&mut ed, &cfg, "b");
    assert_eq!(ed.feed(14, &cfg), QUIET);
    assert_eq!(ed.line(), "ab");
    ed.feed(16, &cfg);
    assert_eq!(ed.line(), "one");
    ed.feed(14, &cfg);
    assert_eq!(ed.line(), "ab");
}
