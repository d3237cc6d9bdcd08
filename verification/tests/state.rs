use blankstop::clipboard::{open_backoff_ms, to_crlf};
use blankstop::sanitize::clean::normalize_line_endings;
use blankstop::sanitize::SanitizeSummary;
use blankstop::state::{
    backup_file_name, is_paused, is_paused_at, loaded_config, normalize_allowlist, now_ms,
    push_log, set_debug_capture, truncate_debug, ui_state, new_app_state, Config, LogEntry,
    DEBUG_MAX_CHARS, MAX_LOG_ENTRIES,
};
use blankstop::tray::{
    apply_config, format_enabled_toast, hides_menu_after, log_save_error, log_save_error_at,
    menu_state_at, menu_state_from, parse_menu_action, sanitize_now_message, set_paused,
    toggle_enabled, MenuAction, PAUSE_5_MS,
};

fn entry(ts: u64) -> LogEntry {
    LogEntry { timestamp_ms: ts, source_exe: None, summary: format!("entry {}", ts) }
}

#[test]
fn default_config_has_the_terminal_allowlist() {
    let config = Config::default();
    assert!(config.enabled && config.toast_enabled && config.status_toast_enabled);
    assert!(config.only_allowlisted && !config.run_on_startup);
    assert_eq!(config.allowlist.len(), 9);
    assert_eq!(config.allowlist[0], "windowsterminal.exe");
    assert_eq!(config.allowlist[8], "wsl.exe");
}

#[test]
fn allowlist_is_trimmed_lowercased_and_deduplicated() {
    let list = vec![
        "  WT.exe ".to_string(),
        "".to_string(),
        "   ".to_string(),
        "wt.exe".to_string(),
        "Code.EXE".to_string(),
        "wt.EXE\t".to_string(),
    ];
    assert_eq!(normalize_allowlist(&list), vec!["wt.exe".to_string(), "code.exe".to_string()]);
}

#[test]
fn config_normalize_keeps_the_switches() {
    let mut config = Config::default();
    config.enabled = false;
    config.allowlist = vec![" Bash.exe".to_string(), "bash.exe".to_string()];
    config.normalize();
    assert!(!config.enabled);
    assert_eq!(config.allowlist, vec!["bash.exe".to_string()]);
}

#[test]
fn log_keeps_the_ten_newest_first() {
    let mut state = new_app_state(Config::default());
    for ts in 0..12u64 {
        push_log(&mut state, entry(ts));
    }
    assert_eq!(state.log.len(), MAX_LOG_ENTRIES);
    assert_eq!(state.log[0].timestamp_ms, 11);
    assert_eq!(state.log[9].timestamp_ms, 2);
}

#[test]
fn ui_state_copies_what_the_window_shows() {
    let mut state = new_app_state(Config::default());
    state.last_source_exe = Some("wt.exe".to_string());
    push_log(&mut state, entry(5));
    set_debug_capture(&mut state, "raw", "summary");
    let ui = ui_state(&state);
    assert_eq!(ui.last_source_exe.as_deref(), Some("wt.exe"));
    assert_eq!(ui.log.len(), 1);
    assert_eq!(ui.log[0].summary, "entry 5");
    assert_eq!(ui.debug_last_clipboard.as_deref(), Some("raw"));
    assert_eq!(ui.debug_last_summary.as_deref(), Some("summary"));
    assert_eq!(ui.config.allowlist.len(), 9);
}

#[test]
fn debug_capture_is_cut_to_the_limit() {
    let long: String = "é".repeat(5000);
    assert_eq!(truncate_debug(&long).chars().count(), DEBUG_MAX_CHARS);
    assert_eq!(truncate_debug("short"), "short");
}

#[test]
fn pause_holds_until_its_end() {
    let mut state = new_app_state(Config::default());
    assert!(!is_paused(&state));
    set_paused(&mut state, Some(PAUSE_5_MS), 1_000);
    assert_eq!(state.paused_until, Some(301_000));
    assert!(is_paused_at(&state, 1_000));
    assert!(is_paused_at(&state, 300_999));
    assert!(!is_paused_at(&state, 301_000));
    set_paused(&mut state, None, 1_000);
    assert!(!is_paused_at(&state, 1_000));
    let now = now_ms();
    set_paused(&mut state, Some(PAUSE_5_MS), now);
    assert!(is_paused(&state));
    assert!(menu_state_from(&state).paused);
}

#[test]
fn menu_state_shows_enabled_and_paused() {
    let mut state = new_app_state(Config::default());
    state.paused_until = Some(50);
    let menu = menu_state_at(&state, 10);
    assert!(menu.enabled && menu.paused);
    state.config.enabled = false;
    let menu = menu_state_at(&state, 60);
    assert!(!menu.enabled && !menu.paused);
}

#[test]
fn menu_actions_are_parsed_by_name() {
    assert_eq!(parse_menu_action("enabled"), MenuAction::ToggleEnabled);
    assert_eq!(parse_menu_action("pause_5"), MenuAction::Pause5);
    assert_eq!(parse_menu_action("settings"), MenuAction::Settings);
    assert_eq!(parse_menu_action("sanitize_now"), MenuAction::SanitizeNow);
    assert_eq!(parse_menu_action("quit"), MenuAction::Quit);
    assert_eq!(parse_menu_action("Quit"), MenuAction::Unknown);
    assert_eq!(parse_menu_action(""), MenuAction::Unknown);
    assert!(!hides_menu_after(MenuAction::Settings));
    assert!(hides_menu_after(MenuAction::Quit));
    assert!(hides_menu_after(MenuAction::Unknown));
}

#[test]
fn toasts_for_toggles_and_sanitize_now() {
    assert_eq!(format_enabled_toast(true, Some("wt.exe")), "✓ Blankstop enabled");
    assert_eq!(format_enabled_toast(false, None), "✗ Blankstop disabled");
    assert_eq!(sanitize_now_message(true), "Sanitize now: changed");
    assert_eq!(sanitize_now_message(false), "Sanitize now: no changes");
}

#[test]
fn toggling_twice_restores_enabled() {
    let mut state = new_app_state(Config::default());
    let first = toggle_enabled(&mut state, true);
    assert!(!state.config.enabled);
    assert!(!first.config.enabled);
    assert_eq!(first.toast.as_deref(), Some("✗ Blankstop disabled"));
    let second = toggle_enabled(&mut state, false);
    assert!(state.config.enabled);
    assert!(second.toast.is_none());
    state.config.status_toast_enabled = false;
    assert!(toggle_enabled(&mut state, true).toast.is_none());
}

#[test]
fn applied_config_is_normalized() {
    let mut state = new_app_state(Config::default());
    let mut config = Config::default();
    config.toast_enabled = false;
    config.allowlist = vec![" PWSH.exe ".to_string(), String::new()];
    let saved = apply_config(&mut state, config);
    assert!(!state.config.toast_enabled);
    assert_eq!(state.config.allowlist, vec!["pwsh.exe".to_string()]);
    assert_eq!(saved.allowlist, vec!["pwsh.exe".to_string()]);
}

#[test]
fn save_errors_are_logged() {
    let mut state = new_app_state(Config::default());
    log_save_error_at(&mut state, "disk full", 42);
    assert_eq!(state.log[0].summary, "Config save failed: disk full");
    assert_eq!(state.log[0].timestamp_ms, 42);
    assert!(state.log[0].source_exe.is_none());
    log_save_error(&mut state, "denied");
    assert_eq!(state.log.len(), 2);
    assert_eq!(state.log[0].summary, "Config save failed: denied");
}

#[test]
fn unreadable_config_is_set_aside_by_timestamp() {
    assert_eq!(backup_file_name(1_700_000_000_123), "config.json.bad-1700000000123");
    assert_eq!(backup_file_name(0), "config.json.bad-0");
}

#[test]
fn missing_config_gives_defaults() {
    let config = loaded_config(None);
    assert!(config.enabled);
    assert_eq!(config.allowlist.len(), 9);
    let mut parsed = Config::default();
    parsed.allowlist = vec!["A.exe".to_string(), "a.exe".to_string()];
    parsed.run_on_startup = true;
    let config = loaded_config(Some(parsed));
    assert!(config.run_on_startup);
    assert_eq!(config.allowlist, vec!["a.exe".to_string()]);
}

fn summary() -> SanitizeSummary {
    SanitizeSummary::default()
}

#[test]
fn toast_message_without_changes() {
    assert_eq!(summary().toast_message(), "Clipboard sanitized");
}

#[test]
fn toast_message_counts_and_plurals() {
    let mut s = summary();
    s.unwrapped_lines = 1;
    s.trimmed_trailing_ws = 3;
    s.stripped_prefixes = 2;
    s.removed_cmd_carets = 1;
    s.joined_explicit_continuations = 12;
    assert_eq!(
        s.toast_message(),
        "Clipboard sanitized: unwrapped 1 line, trimmed 3 trailing spaces, stripped 2 bullet prefixes, removed 1 cmd caret, joined 12 explicit continuations"
    );
    let mut s = summary();
    s.trimmed_blank_lines = 2;
    s.removed_invisibles = 1;
    s.repaired_string_wraps = 10;
    s.stripped_prefixes = 1;
    assert_eq!(
        s.toast_message(),
        "Clipboard sanitized: trimmed 2 blank lines, removed 1 invisible char, stripped 1 bullet prefix, repaired 10 string wraps"
    );
}

#[test]
fn backoff_grows_with_each_attempt() {
    assert_eq!(open_backoff_ms(0), 15);
    assert_eq!(open_backoff_ms(9), 150);
}

#[test]
fn written_text_reads_back_as_the_output() {
    let output: Vec<char> = "line one\nline two\n\nend".chars().collect();
    let written = to_crlf(&output);
    assert_eq!(normalize_line_endings(&written), output);
}

#[test]
fn line_endings_are_normalized_to_lf() {
    let input: Vec<char> = "a\r\nb\rc\n\r".chars().collect();
    let out: String = normalize_line_endings(&input).into_iter().collect();
    assert_eq!(out, "a\nb\nc\n\n");
}

#[test]
fn split_then_join_gives_the_text_back() {
    for text in ["", "\n", "one\ntwo", "trailing\n", "\n\nx\n"] {
        let chars: Vec<char> = text.chars().collect();
        let lines = blankstop::text::split_lines_vec(&chars);
        let joined: String = blankstop::text::join_lines_vec(&lines).into_iter().collect();
        assert_eq!(joined, text);
    }
}

#[test]
fn normalizing_the_allowlist_twice_changes_nothing_more() {
    let list = vec![" WT.exe".to_string(), "wt.exe ".to_string(), "Code.exe".to_string(), String::new()];
    let once = normalize_allowlist(&list);
    assert_eq!(normalize_allowlist(&once), once);
}

#[test]
fn default_allowlist_is_already_normalized() {
    let config = Config::default();
    assert_eq!(normalize_allowlist(&config.allowlist), config.allowlist);
    assert_eq!(loaded_config(None).allowlist, config.allowlist);
}
