use linenoise::{
    linenoise_history_add, linenoise_history_set_max_len, linenoise_mask_mode_disable,
    linenoise_mask_mode_enable, linenoise_set_hints_callback, linenoise_set_multi_line, Config,
};

type Completer = fn(&str, &mut Vec<String>);
type Hinter = fn(&str) -> Option<(String, i32, bool)>;

fn no_hint(_: &str) -> Option<(String, i32, bool)> {
    None
}

#[test]
fn settings_toggle() {
    let mut cfg: Config<Completer, Hinter> = Config::new();
    assert!(!cfg.multi_line && !cfg.mask_mode);
    linenoise_set_multi_line(&mut cfg, true);
    assert!(cfg.multi_line);
    linenoise_mask_mode_enable(&mut cfg);
    assert!(cfg.mask_mode);
    linenoise_mask_mode_disable(&mut cfg);
    assert!(!cfg.mask_mode);
    assert!(cfg.hints_callback.is_none());
    linenoise_set_hints_callback(&mut cfg, no_hint as Hinter);
    assert!(cfg.hints_callback.is_some());
}

#[test]
fn shared_history_functions() {
    let mut cfg: Config<Completer, Hinter> = Config::new();
    assert!(linenoise_history_add(&mut cfg, "a"));
    assert!(!linenoise_history_add(&mut cfg, "a"));
    assert!(linenoise_history_add(&mut cfg, "b"));
    assert!(!linenoise_history_set_max_len(&mut cfg, 0));
    assert!(linenoise_history_set_max_len(&mut cfg, 1));
    assert_eq!(cfg.history.len(), 1);
    assert_eq!(cfg.history.get(1), Some("b"));
}
