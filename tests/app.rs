use prefixlog::{
    classify, key_less, trim, App, Config, DisplayState, Line, Pattern, DEFAULT_PREFIX,
    ERROR_PATTERN, FILE_NAME_UNSAFE,
};

fn config() -> Config {
    Config {
        prefix: DEFAULT_PREFIX.to_string(),
        command: vec!["make".to_string(), "all".to_string()],
    }
}

fn app() -> App {
    App::new(&config()).unwrap()
}

fn keys(app: &App) -> Vec<String> {
    app.get_buckets().iter().map(|(k, _)| (*k).clone()).collect()
}

fn feed(app: &mut App, prefix: &str, message: &str, error: bool) {
    app.process_line(&Line::with_prefix(prefix.to_string(), message.to_string(), error));
}

#[test]
fn classifies_prefixed_line() {
    let a = app();
    let l = a.parse_line("alpha: build ok");
    assert_eq!(l.prefix.as_deref(), Some("alpha"));
    assert_eq!(l.message, "build ok");
    assert!(!l.has_error);
}

#[test]
fn classifies_line_without_prefix() {
    let a = app();
    let l = a.parse_line("no colon here");
    assert_eq!(l.prefix, None);
    assert_eq!(l.message, "no colon here");
    assert!(!l.has_error);
}

#[test]
fn unprefixed_line_is_trimmed() {
    let a = app();
    let l = a.parse_line("   padded text  ");
    assert_eq!(l.prefix, None);
    assert_eq!(l.message, "padded text");
}

#[test]
fn prefixed_line_carries_error_flag() {
    let a = app();
    let l = a.parse_line("web: Error: failed to compile");
    assert_eq!(l.prefix.as_deref(), Some("web"));
    assert!(l.has_error);
}

#[test]
fn error_heuristic_is_case_insensitive() {
    let p = Pattern::new(ERROR_PATTERN.to_string()).unwrap();
    assert!(p.is_match("Error: x"));
    assert!(p.is_match("Uncaught Exception"));
    assert!(p.is_match("StackTrace: y"));
    assert!(p.is_match("stack trace: y"));
    assert!(p.is_match("some ERROR in the middle"));
    assert!(!p.is_match("all good"));
}

#[test]
fn pattern_with_one_group_gives_unprefixed_line() {
    let a = App::new(&Config {
        prefix: r"^(\w+):".to_string(),
        command: vec![],
    })
    .unwrap();
    let l = a.parse_line("  tool: text ");
    assert_eq!(l.prefix, None);
    assert_eq!(l.message, "tool: text");
}

#[test]
fn bad_pattern_is_rejected() {
    let r = App::new(&Config {
        prefix: "(unclosed".to_string(),
        command: vec![],
    });
    match r {
        Err(e) => assert_eq!(e.pattern, "(unclosed"),
        Ok(_) => panic!("pattern should be rejected"),
    }
}

#[test]
fn classify_uses_both_groups() {
    let l = classify(
        Some((Some("p".to_string()), Some("m".to_string()))),
        "raw".to_string(),
        true,
    );
    assert_eq!(l.prefix.as_deref(), Some("p"));
    assert_eq!(l.message, "m");
    assert!(l.has_error);
    let u = classify(Some((Some("p".to_string()), None)), "raw".to_string(), true);
    assert_eq!(u.prefix, None);
    assert_eq!(u.message, "raw");
    assert!(!u.has_error);
    let n = classify(None, "raw".to_string(), false);
    assert_eq!(n.prefix, None);
}

#[test]
fn trim_strips_white_space() {
    assert_eq!(trim("\t  a b \n"), "a b");
    assert_eq!(trim(""), "");
    assert_eq!(trim("\u{3000}x y\u{a0}\u{85}"), "x y");
    assert_eq!(trim("\u{200b}z"), "\u{200b}z");
}

#[test]
fn buckets_come_in_key_order() {
    let mut a = app();
    feed(&mut a, "zeta", "one", false);
    feed(&mut a, "alpha", "two", false);
    feed(&mut a, "mid", "three", false);
    feed(&mut a, "alpha", "four", false);
    assert_eq!(keys(&a), vec!["alpha", "mid", "zeta"]);
    let b = a.get_buckets();
    assert_eq!(b[0].1.get_all_messages().len(), 2);
    assert_eq!(b[0].1.new_messages, 2);
}

#[test]
fn key_order_is_by_code_point() {
    assert!(key_less("Zeta", "alpha"));
    assert!(key_less("ab", "abc"));
    assert!(!key_less("abc", "abc"));
    assert!(!key_less("b", "a"));
    assert!(key_less("", "a"));
}

#[test]
fn output_lines_are_filed() {
    let mut a = app();
    a.process_output("web: started");
    a.process_output("garbage");
    a.process_error("oops");
    assert_eq!(keys(&a), vec!["web"]);
    assert_eq!(a.unprefixed_messages.get_all_messages().len(), 1);
    assert_eq!(a.error_messages.get_all_messages()[0].message, "oops");
    assert_eq!(a.error_messages.new_messages, 1);
}

#[test]
fn attention_prefers_errors() {
    let mut a = app();
    a.process_line(&Line::with_prefix("a".to_string(), "x".to_string(), false));
    for i in 0..3 {
        feed(&mut a, "b", "m", i < 2);
    }
    for _ in 0..5 {
        feed(&mut a, "c", "m", false);
    }
    a.clear_current_bucket();
    assert_eq!(a.get_selected_prefix().as_deref(), Some("a"));
    assert_eq!(a.get_current_bucket().unwrap().new_messages, 0);
    a.next_bucket();
    assert_eq!(a.get_selected_prefix().as_deref(), Some("b"));
}

#[test]
fn attention_falls_back_to_unseen_and_then_stays() {
    let mut a = app();
    feed(&mut a, "a", "x", false);
    feed(&mut a, "b", "x", false);
    feed(&mut a, "c", "x", false);
    a.next_bucket();
    assert_eq!(a.get_selected_prefix().as_deref(), Some("b"));
    a.clear_all_buckets();
    a.next_bucket();
    assert_eq!(a.get_selected_prefix().as_deref(), Some("b"));
}

#[test]
fn selection_wraps_both_ways() {
    let mut a = app();
    a.next_prefix();
    assert_eq!(a.selected, Some(0));
    feed(&mut a, "a", "x", false);
    feed(&mut a, "b", "x", false);
    a.previous_prefix();
    assert_eq!(a.get_selected_prefix().as_deref(), Some("b"));
    a.next_prefix();
    assert_eq!(a.get_selected_prefix().as_deref(), Some("a"));
    a.next_prefix();
    assert_eq!(a.get_selected_prefix().as_deref(), Some("b"));
}

#[test]
fn display_mode_toggles_and_cycles() {
    let mut a = app();
    a.set_display_state(DisplayState::Errors);
    assert_eq!(a.display_state, DisplayState::Errors);
    a.set_display_state(DisplayState::Errors);
    assert_eq!(a.display_state, DisplayState::Messages);
    a.set_display_state(DisplayState::ParseErrors);
    a.set_display_state(DisplayState::Errors);
    assert_eq!(a.display_state, DisplayState::Errors);
    a.cycle_display_state();
    assert_eq!(a.display_state, DisplayState::ParseErrors);
    a.cycle_display_state();
    assert_eq!(a.display_state, DisplayState::Messages);
}

#[test]
fn current_messages_read_and_acknowledge() {
    let mut a = app();
    assert!(a.get_current_messages(10).is_empty());
    for i in 0..6 {
        feed(&mut a, "web", &format!("m{}", i), i == 0);
    }
    assert_eq!(a.get_current_messages(5), vec!["m3", "m4", "m5"]);
    assert_eq!(a.get_current_bucket().unwrap().new_messages, 0);
    assert_eq!(a.get_current_bucket().unwrap().new_errors, 0);
    a.scroll_up(3);
    assert_eq!(a.get_current_bucket().unwrap().scroll, Some(2));
    a.scroll_up(3);
    assert_eq!(a.get_current_bucket().unwrap().scroll, Some(1));
    a.scroll_down(3);
    assert_eq!(a.get_current_bucket().unwrap().scroll, Some(2));
    a.scroll_down(3);
    assert_eq!(a.get_current_bucket().unwrap().scroll, None);
    a.scroll_up(3);
    a.scroll_reset();
    assert_eq!(a.get_current_bucket().unwrap().scroll, None);
}

#[test]
fn export_target_sanitizes_name() {
    let mut a = app();
    assert!(a.export_target().is_none());
    feed(&mut a, "@scope/pkg:build", "one", false);
    feed(&mut a, "@scope/pkg:build", "two", false);
    let (path, text) = a.export_target().unwrap();
    assert_eq!(path, "/tmp/_scope_pkg_build.log");
    assert_eq!(text, "@scope/pkg:build: one\n@scope/pkg:build: two");
    let p = Pattern::new(FILE_NAME_UNSAFE.to_string()).unwrap();
    assert_eq!(p.replace_all(r"a-b\c", "_"), "a_b_c");
}

#[test]
fn exit_is_recorded() {
    let mut a = app();
    assert_eq!(a.exit_code, None);
    a.notify_exit(Some(2));
    assert_eq!(a.exit_code, Some(Some(2)));
}

#[test]
fn command_words_join_with_spaces() {
    assert_eq!(config().command_line(), "make all");
    let one = Config {
        prefix: String::new(),
        command: vec!["ls".to_string()],
    };
    assert_eq!(one.command_line(), "ls");
}

#[test]
fn tiny_pane_reads_no_rows() {
    let mut a = app();
    feed(&mut a, "web", "m", false);
    assert!(a.get_current_messages(1).is_empty());
    assert_eq!(a.get_current_bucket().unwrap().new_messages, 0);
    assert_eq!(a.get_current_messages(3), vec!["m"]);
}
