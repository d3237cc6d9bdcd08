use blankstop::clipboard::{
    apply_write_result, format_sanitize_toast, owner_allowed_by, plan_sanitize, sanitize_now_step,
    to_crlf, update_step, write_fail_summary, ClipboardEvent, NowAction, NowPhase, UpdateAction,
    UpdatePhase, SELF_WRITE_WINDOW_MS,
};
use blankstop::process::{basename_from_path, next_image_name_capacity};
use blankstop::state::{hash_text, new_app_state, now_ms, AppState, Config};

fn base_state() -> AppState {
    AppState {
        config: Config::default(),
        paused_until: None,
        last_written_hash: None,
        self_write_until: Some(now_ms()),
        last_source_exe: None,
        log: Vec::new(),
        debug_last_clipboard: None,
        debug_last_summary: None,
    }
}

const WRITE_FAIL_SUMMARY: &str = "clipboard write failed (locked)";

#[test]
fn apply_write_result_clears_guard_on_failure() {
    let mut state = base_state();
    apply_write_result(
        &mut state,
        false,
        123,
        Some("wt.exe".to_string()),
        WRITE_FAIL_SUMMARY.to_string(),
    );
    assert!(state.last_written_hash.is_none());
    assert!(state.self_write_until.is_none());
    assert_eq!(state.log.len(), 1);
    assert_eq!(state.log[0].summary, WRITE_FAIL_SUMMARY);
}

#[test]
fn apply_write_result_sets_hash_on_success() {
    let mut state = base_state();
    apply_write_result(
        &mut state,
        true,
        456,
        Some("code.exe".to_string()),
        "ok".to_string(),
    );
    assert_eq!(state.last_written_hash, Some(456));
    assert!(state.self_write_until.is_some());
    assert_eq!(state.log.len(), 1);
    assert_eq!(state.log[0].summary, "ok");
}

#[test]
fn basename_from_path_handles_backslash() {
    let name = basename_from_path("C:\\Program Files\\Foo\\Bar.exe");
    assert_eq!(name.as_deref(), Some("bar.exe"));
}

#[test]
fn basename_from_path_handles_forwardslash() {
    let name = basename_from_path("C:/Foo/Bar.exe");
    assert_eq!(name.as_deref(), Some("bar.exe"));
}

#[test]
fn basename_skips_trailing_separators_and_rejects_bare_separators() {
    assert_eq!(basename_from_path("C:\\Tools\\WT.EXE\\\\").as_deref(), Some("wt.exe"));
    assert_eq!(basename_from_path("Code.exe").as_deref(), Some("code.exe"));
    assert_eq!(basename_from_path("\\/\\"), None);
    assert_eq!(basename_from_path(""), None);
}

#[test]
fn write_fail_summary_matches_log_text() {
    assert_eq!(write_fail_summary(), WRITE_FAIL_SUMMARY);
}

#[test]
fn sanitize_toast_names_the_source() {
    assert_eq!(format_sanitize_toast("ignored", Some("wt.exe")), "✓ Sanitized from wt.exe");
    assert_eq!(format_sanitize_toast("ignored", None), "✓ Clipboard sanitized");
}

#[test]
fn crlf_doubles_each_line_feed() {
    let chars: Vec<char> = "a\nb\n".chars().collect();
    let out: String = to_crlf(&chars).into_iter().collect();
    assert_eq!(out, "a\r\nb\r\n");
}

#[test]
fn hash_is_stable_and_tells_texts_apart() {
    assert_eq!(hash_text("echo hi"), hash_text("echo hi"));
    assert_ne!(hash_text("echo hi"), hash_text("echo ho"));
}

#[test]
fn clock_reads_after_2020() {
    assert!(now_ms() > 1_577_836_800_000);
}

#[test]
fn owner_must_be_on_the_allowlist() {
    let mut config = Config::default();
    assert!(owner_allowed_by(&config, &Some("wt.exe".to_string())));
    assert!(!owner_allowed_by(&config, &Some("notepad.exe".to_string())));
    assert!(!owner_allowed_by(&config, &None));
    config.only_allowlisted = false;
    assert!(owner_allowed_by(&config, &None));
    assert!(owner_allowed_by(&config, &Some("notepad.exe".to_string())));
}

#[test]
fn image_name_capacity_doubles_up_to_the_limit() {
    assert_eq!(next_image_name_capacity(260, true), Some(520));
    assert_eq!(next_image_name_capacity(20000, true), Some(32768));
    assert_eq!(next_image_name_capacity(32768, true), None);
    assert_eq!(next_image_name_capacity(260, false), None);
}

#[test]
fn plan_reports_unchanged_text() {
    let plan = plan_sanitize("const a = 1;\r\nconst b = 2;");
    assert!(!plan.changed);
    let plan = plan_sanitize("hello\r\n");
    assert!(plan.changed);
    assert_eq!(plan.output_for_clipboard, "hello");
    assert_eq!(plan.toast_message, "Clipboard sanitized: trimmed 1 blank line");
}

const WRAPPED: &str = "🟦 improve(docs): document HUD GPU clear state restore\r\n  requirement\r\n";

fn run_update(state: &mut AppState, now: u64, text: &str, owner: Option<&str>) -> Vec<String> {
    let mut actions = Vec::new();
    let (phase, action) = update_step(state, UpdatePhase::Start, ClipboardEvent::Begin, now);
    let mut phase = phase;
    let mut action = action;
    loop {
        let event = match action {
            UpdateAction::ReadClipboard => {
                actions.push("read".to_string());
                ClipboardEvent::TextRead(Some(text.to_string()))
            }
            UpdateAction::ResolveOwner => {
                actions.push("owner".to_string());
                ClipboardEvent::OwnerResolved {
                    owner_exe: owner.map(|o| o.to_string()),
                    source_exe: owner.map(|o| o.to_string()),
                }
            }
            UpdateAction::WriteClipboard(out) => {
                actions.push(format!("write:{}", out));
                ClipboardEvent::WriteFinished(true)
            }
            UpdateAction::ShowToast(msg) => {
                actions.push(format!("toast:{}", msg));
                ClipboardEvent::ToastFinished(None)
            }
            UpdateAction::Finish => break,
        };
        let (p, a) = update_step(state, phase, event, now);
        phase = p;
        action = a;
    }
    actions
}

#[test]
fn update_run_writes_sanitized_text_for_allowed_owner() {
    let mut state = new_app_state(Config::default());
    let actions = run_update(&mut state, 1_000, WRAPPED, Some("wt.exe"));
    let expected = "🟦 improve(docs): document HUD GPU clear state restore requirement";
    assert_eq!(
        actions,
        vec![
            "read".to_string(),
            "owner".to_string(),
            format!("write:{}", expected),
            "toast:✓ Sanitized from wt.exe".to_string(),
        ]
    );
    assert_eq!(state.last_written_hash, Some(hash_text(expected)));
    assert_eq!(state.self_write_until, Some(1_000 + SELF_WRITE_WINDOW_MS));
    assert_eq!(state.last_source_exe.as_deref(), Some("wt.exe"));
    assert_eq!(state.log.len(), 1);
    assert_eq!(
        state.log[0].summary,
        "Clipboard sanitized: unwrapped 1 line, trimmed 1 blank line"
    );
    assert_eq!(state.debug_last_clipboard.as_deref(), Some(WRAPPED));
}

#[test]
fn update_run_ignores_its_own_write() {
    let mut state = new_app_state(Config::default());
    run_update(&mut state, 1_000, WRAPPED, Some("wt.exe"));
    let written = "🟦 improve(docs): document HUD GPU clear state restore requirement";
    let actions = run_update(&mut state, 5_000, written, Some("wt.exe"));
    assert_eq!(actions, vec!["read".to_string()]);
    assert_eq!(state.log.len(), 1);
}

#[test]
fn update_run_stops_when_disabled_paused_or_echoing() {
    let mut state = new_app_state(Config::default());
    state.config.enabled = false;
    assert!(run_update(&mut state, 1_000, WRAPPED, Some("wt.exe")).is_empty());
    state.config.enabled = true;
    state.paused_until = Some(2_000);
    assert!(run_update(&mut state, 1_000, WRAPPED, Some("wt.exe")).is_empty());
    state.paused_until = None;
    state.self_write_until = Some(1_500);
    assert!(run_update(&mut state, 1_000, WRAPPED, Some("wt.exe")).is_empty());
    assert!(state.log.is_empty());
}

#[test]
fn update_run_stops_for_unlisted_or_unknown_owner() {
    let mut state = new_app_state(Config::default());
    let actions = run_update(&mut state, 1_000, WRAPPED, Some("notepad.exe"));
    assert_eq!(actions, vec!["read".to_string(), "owner".to_string()]);
    let actions = run_update(&mut state, 1_000, WRAPPED, None);
    assert_eq!(actions, vec!["read".to_string(), "owner".to_string()]);
    assert!(state.log.is_empty());
    assert!(state.debug_last_clipboard.is_none());
}

#[test]
fn update_run_stops_when_nothing_changes() {
    let mut state = new_app_state(Config::default());
    let actions = run_update(&mut state, 1_000, "const a = 1;\r\nconst b = 2;", Some("wt.exe"));
    assert_eq!(actions, vec!["read".to_string(), "owner".to_string()]);
    assert!(state.log.is_empty());
    assert_eq!(state.debug_last_summary.as_deref(), Some("Clipboard sanitized"));
    assert!(state.self_write_until.is_none());
}

#[test]
fn update_run_without_toasts_skips_the_toast() {
    let mut config = Config::default();
    config.toast_enabled = false;
    let mut state = new_app_state(config);
    let actions = run_update(&mut state, 1_000, WRAPPED, Some("wt.exe"));
    assert_eq!(actions.len(), 3);
}

#[test]
fn failed_write_is_logged_and_releases_the_window() {
    let mut state = new_app_state(Config::default());
    let (p, _) = update_step(&mut state, UpdatePhase::Start, ClipboardEvent::Begin, 10);
    let (p, _) = update_step(&mut state, p, ClipboardEvent::TextRead(Some(WRAPPED.to_string())), 10);
    let (p, a) = update_step(
        &mut state,
        p,
        ClipboardEvent::OwnerResolved {
            owner_exe: Some("wt.exe".to_string()),
            source_exe: Some("wt.exe".to_string()),
        },
        10,
    );
    assert!(matches!(a, UpdateAction::WriteClipboard(_)));
    assert_eq!(state.self_write_until, Some(710));
    let (_, a) = update_step(&mut state, p, ClipboardEvent::WriteFinished(false), 20);
    assert!(matches!(a, UpdateAction::Finish));
    assert!(state.self_write_until.is_none());
    assert!(state.last_written_hash.is_none());
    assert_eq!(state.log[0].summary, WRITE_FAIL_SUMMARY);
    assert_eq!(state.log[0].timestamp_ms, 20);
}

#[test]
fn failed_toast_is_logged() {
    let mut state = new_app_state(Config::default());
    let (_, a) = update_step(
        &mut state,
        UpdatePhase::Toasting { source_exe: None },
        ClipboardEvent::ToastFinished(Some("no window".to_string())),
        7,
    );
    assert!(matches!(a, UpdateAction::Finish));
    assert_eq!(state.log[0].summary, "Toast failed: no window");
}

#[test]
fn unexpected_event_ends_the_run() {
    let mut state = new_app_state(Config::default());
    let (_, a) = update_step(&mut state, UpdatePhase::Start, ClipboardEvent::WriteFinished(true), 7);
    assert!(matches!(a, UpdateAction::Finish));
    assert!(state.log.is_empty());
}

fn run_now(state: &mut AppState, now: u64, text: Option<&str>, owner: Option<&str>) -> (bool, usize) {
    let mut steps = 0;
    let (mut phase, mut action) = sanitize_now_step(state, NowPhase::Start, ClipboardEvent::Begin, now);
    loop {
        steps += 1;
        let event = match action {
            NowAction::ResolveOwner => ClipboardEvent::OwnerResolved {
                owner_exe: owner.map(|o| o.to_string()),
                source_exe: owner.map(|o| o.to_string()),
            },
            NowAction::ReadClipboard => ClipboardEvent::TextRead(text.map(|t| t.to_string())),
            NowAction::WriteClipboard(_) => ClipboardEvent::WriteFinished(true),
            NowAction::Finish(changed) => return (changed, steps),
        };
        let (p, a) = sanitize_now_step(state, phase, event, now);
        phase = p;
        action = a;
    }
}

#[test]
fn sanitize_now_changes_allowed_text() {
    let mut state = new_app_state(Config::default());
    assert_eq!(run_now(&mut state, 100, Some(WRAPPED), Some("wt.exe")), (true, 4));
    assert!(state.last_written_hash.is_some());
}

#[test]
fn sanitize_now_does_nothing_while_disabled() {
    let mut config = Config::default();
    config.enabled = false;
    let mut state = new_app_state(config);
    assert_eq!(run_now(&mut state, 100, Some(WRAPPED), Some("wt.exe")), (false, 1));
    assert!(state.last_written_hash.is_none());
    assert!(state.debug_last_clipboard.is_none());
    assert!(state.log.is_empty());
}

#[test]
fn sanitize_now_reports_no_change() {
    let mut state = new_app_state(Config::default());
    assert_eq!(run_now(&mut state, 100, Some("plain"), Some("wt.exe")), (false, 3));
    assert_eq!(run_now(&mut state, 100, None, Some("wt.exe")), (false, 3));
    assert_eq!(run_now(&mut state, 100, Some(WRAPPED), Some("notepad.exe")), (false, 2));
    state.paused_until = Some(200);
    assert_eq!(run_now(&mut state, 100, Some(WRAPPED), Some("wt.exe")), (false, 1));
}

#[test]
fn written_output_reads_back_as_sanitizer_output() {
    let text = "PS> echo one\r  two\rthree\r\n\r\n";
    let plan = plan_sanitize(text);
    let written: Vec<char> = plan.output_for_clipboard.chars().collect();
    let read_back: String =
        blankstop::sanitize::clean::normalize_line_endings(&written).into_iter().collect();
    assert_eq!(read_back, blankstop::sanitize::sanitize_text(text).output);
    assert!(!read_back.contains('\r'));
}

#[test]
fn basename_lowers_ascii_and_other_letters() {
    assert_eq!(basename_from_path("D:\\Tools\\PWSH.EXE").as_deref(), Some("pwsh.exe"));
    assert_eq!(basename_from_path("C:/Programme/ÄPP.EXE").as_deref(), Some("äpp.exe"));
}
