//! What the tray menu shows and what its actions do to the state.
use vstd::prelude::*;

use crate::lits::{
    arr_disabled_toast, arr_enabled_toast, arr_sanitize_now_changed, arr_sanitize_now_unchanged,
    arr_save_failed, lit_disabled_toast, lit_enabled_toast, lit_sanitize_now_changed,
    lit_sanitize_now_unchanged, lit_save_failed,
};
use crate::state::{
    clone_config, clone_opt_string, now_ms, opt_str, paused_at, push_log, AppState,
    AppStateModel, Config, ConfigModel, LogEntry, LogEntryModel, normalized_list,
};
use crate::text::{append_chars, chars_of};
use crate::unicode::string_from_chars;

verus! {

/// How long "Pause 5 min" pauses, in milliseconds.
pub const PAUSE_5_MS: u64 = 300_000;

/// What the tray menu shows.
#[derive(Clone, Copy, Debug, PartialEq, Eq)]
pub struct TrayMenuState {
    pub enabled: bool,
    pub paused: bool,
}

/// The menu state at time `now`.
pub fn menu_state_at(state: &AppState, now: u64) -> (r: TrayMenuState)
    ensures
        r.enabled == state.config.enabled,
        r.paused == paused_at(state.paused_until, now),
{
    let paused = match state.paused_until {
        Some(until) => until > now,
        None => false,
    };
    TrayMenuState { enabled: state.config.enabled, paused }
}

/// The menu state now, by the system clock.
pub fn menu_state_from(state: &AppState) -> (r: TrayMenuState)
    ensures
        r.enabled == state.config.enabled,
        state.paused_until is None ==> !r.paused,
        r.paused ==> state.paused_until is Some,
{
    let now = now_ms();
    menu_state_at(state, now)
}

/// The actions of the tray menu, by the names its page sends.
#[derive(Clone, Copy, Debug, PartialEq, Eq)]
pub enum MenuAction {
    ToggleEnabled,
    Pause5,
    Settings,
    SanitizeNow,
    Quit,
    Unknown,
}

/// The name by which the menu page sends `a`.
pub open spec fn action_name(a: MenuAction) -> Seq<char> {
    match a {
        MenuAction::ToggleEnabled => seq!['e', 'n', 'a', 'b', 'l', 'e', 'd'],
        MenuAction::Pause5 => seq!['p', 'a', 'u', 's', 'e', '_', '5'],
        MenuAction::Settings => seq!['s', 'e', 't', 't', 'i', 'n', 'g', 's'],
        MenuAction::SanitizeNow => seq![
            's', 'a', 'n', 'i', 't', 'i', 'z', 'e', '_', 'n', 'o', 'w',
        ],
        MenuAction::Quit => seq!['q', 'u', 'i', 't'],
        MenuAction::Unknown => Seq::<char>::empty(),
    }
}

fn same_chars(a: &[char], b: &[char]) -> (r: bool)
    ensures
        r == (a@ == b@),
{
    crate::shell::heredoc::seq_eq(a, b)
}

/// The action the menu page names with `action`; `Unknown` for any other text.
pub fn parse_menu_action(action: &str) -> (r: MenuAction)
    ensures
        r != MenuAction::Unknown ==> action_name(r) == action@,
        r == MenuAction::Unknown ==> forall|a: MenuAction|
            a != MenuAction::Unknown ==> #[trigger] action_name(a) != action@,
{
    let a = chars_of(action);
    let enabled: [char; 7] = ['e', 'n', 'a', 'b', 'l', 'e', 'd'];
    let pause: [char; 7] = ['p', 'a', 'u', 's', 'e', '_', '5'];
    let settings: [char; 8] = ['s', 'e', 't', 't', 'i', 'n', 'g', 's'];
    let now: [char; 12] = ['s', 'a', 'n', 'i', 't', 'i', 'z', 'e', '_', 'n', 'o', 'w'];
    let quit: [char; 4] = ['q', 'u', 'i', 't'];
    assert(enabled@ =~= action_name(MenuAction::ToggleEnabled));
    assert(pause@ =~= action_name(MenuAction::Pause5));
    assert(settings@ =~= action_name(MenuAction::Settings));
    assert(now@ =~= action_name(MenuAction::SanitizeNow));
    assert(quit@ =~= action_name(MenuAction::Quit));
    if same_chars(a.as_slice(), &enabled) {
        MenuAction::ToggleEnabled
    } else if same_chars(a.as_slice(), &pause) {
        MenuAction::Pause5
    } else if same_chars(a.as_slice(), &settings) {
        MenuAction::Settings
    } else if same_chars(a.as_slice(), &now) {
        MenuAction::SanitizeNow
    } else if same_chars(a.as_slice(), &quit) {
        MenuAction::Quit
    } else {
        proof {
            if action@.len() == 0 {
                assert(action_name(MenuAction::Unknown) =~= action@);
            }
        }
        MenuAction::Unknown
    }
}

/// Whether the menu closes after `action`: all but "settings" close it (that one
/// hides the menu itself when it opens the settings window).
pub fn hides_menu_after(action: MenuAction) -> (r: bool)
    ensures
        r == (action != MenuAction::Settings),
{
    match action {
        MenuAction::Settings => false,
        _ => true,
    }
}

/// The toast shown when Enabled is toggled.
pub open spec fn enabled_toast_text(enabled: bool) -> Seq<char> {
    if enabled {
        lit_enabled_toast()
    } else {
        lit_disabled_toast()
    }
}

/// The toast shown when Enabled is toggled; the source executable is not shown.
pub fn format_enabled_toast(enabled: bool, _source_exe: Option<&str>) -> (r: String)
    ensures
        r@ == enabled_toast_text(enabled),
{
    if enabled {
        string_from_chars(&arr_enabled_toast())
    } else {
        string_from_chars(&arr_disabled_toast())
    }
}

/// The toast shown after "Sanitize now".
pub open spec fn sanitize_now_text(changed: bool) -> Seq<char> {
    if changed {
        lit_sanitize_now_changed()
    } else {
        lit_sanitize_now_unchanged()
    }
}

pub fn sanitize_now_message(changed: bool) -> (r: String)
    ensures
        r@ == sanitize_now_text(changed),
{
    if changed {
        string_from_chars(&arr_sanitize_now_changed())
    } else {
        string_from_chars(&arr_sanitize_now_unchanged())
    }
}

/// When a pause of `duration_ms` set at `now` ends; `None` lifts the pause.
pub open spec fn pause_end(duration_ms: Option<u64>, now: u64) -> Option<u64> {
    match duration_ms {
        Some(d) => Some((now + d) as u64),
        None => None,
    }
}

/// Pauses sanitizing for `duration_ms` from `now`, or lifts the pause.
pub fn set_paused(state: &mut AppState, duration_ms: Option<u64>, now: u64)
    requires
        duration_ms matches Some(d) ==> now + d <= u64::MAX,
    ensures
        final(state)@ == (AppStateModel { paused_until: pause_end(duration_ms, now), ..old(state)@ }),
{
    state.paused_until = match duration_ms {
        Some(d) => Some(now + d),
        None => None,
    };
}

/// What toggling Enabled hands back: the settings to save, and the toast to
/// show, if any.
pub struct ToggleOutcome {
    pub config: Config,
    pub toast: Option<String>,
}

/// Flips Enabled. The toast is the enabled or disabled message where one was
/// asked for and status toasts are on.
pub fn toggle_enabled(state: &mut AppState, show_toast_notification: bool) -> (r: ToggleOutcome)
    ensures
        final(state)@ == (AppStateModel {
            config: ConfigModel { enabled: !old(state).config.enabled, ..old(state)@.config },
            ..old(state)@
        }),
        r.config@ == final(state)@.config,
        opt_str(r.toast) == (if show_toast_notification && old(state).config.status_toast_enabled {
            Some(enabled_toast_text(!old(state).config.enabled))
        } else {
            None
        }),
{
    state.config.enabled = !state.config.enabled;
    let config = clone_config(&state.config);
    let toast = if show_toast_notification && config.status_toast_enabled {
        let source = clone_opt_string(&state.last_source_exe);
        let source_ref: Option<&str> = match &source {
            Some(s) => Some(s.as_str()),
            None => None,
        };
        Some(format_enabled_toast(config.enabled, source_ref))
    } else {
        None
    };
    ToggleOutcome { config, toast }
}

/// Puts new settings in place, normalized; hands back the settings to save.
pub fn apply_config(state: &mut AppState, config: Config) -> (r: Config)
    ensures
        final(state)@ == (AppStateModel {
            config: ConfigModel { allowlist: normalized_list(config@.allowlist), ..config@ },
            ..old(state)@
        }),
        r@ == final(state)@.config,
{
    let mut config = config;
    config.normalize();
    let saved = clone_config(&config);
    state.config = config;
    saved
}

/// The log line for a failed save of the settings.
pub open spec fn save_error_text(err: Seq<char>) -> Seq<char> {
    lit_save_failed() + err
}

/// Logs that saving the settings failed with `err`, at time `now`.
pub fn log_save_error_at(state: &mut AppState, err: &str, now: u64)
    ensures
        final(state)@ == old(state)@.logged(
            LogEntryModel { timestamp_ms: now, source_exe: None, summary: save_error_text(err@) },
        ),
{
    let mut text: Vec<char> = Vec::new();
    append_chars(&mut text, &arr_save_failed());
    let e = chars_of(err);
    append_chars(&mut text, e.as_slice());
    let entry = LogEntry { timestamp_ms: now, source_exe: None, summary: string_from_chars(text.as_slice()) };
    push_log(state, entry);
}

/// Logs that saving the settings failed with `err`, stamped by the system clock.
pub fn log_save_error(state: &mut AppState, err: &str)
    ensures
        final(state)@ == old(state)@.logged(
            LogEntryModel {
                timestamp_ms: final(state)@.log[0].timestamp_ms,
                source_exe: None,
                summary: save_error_text(err@),
            },
        ),
{
    let now = now_ms();
    log_save_error_at(state, err, now);
}


// ---------------------------------------------------------------------------
// Laws
// ---------------------------------------------------------------------------

/// A pause of `d` milliseconds set at `now` holds exactly before `now + d`;
/// lifting the pause ends it at once.
pub proof fn law_pause_window(d: u64, now: u64, t: u64)
    requires
        now + d <= u64::MAX,
    ensures
        paused_at(pause_end(Some(d), now), t) == (t < now + d),
        !paused_at(pause_end(None, now), t),
{
}

/// Toggling Enabled twice gives back the settings one started with.
pub proof fn law_toggle_twice(c: ConfigModel)
    ensures
        ({
            let once = ConfigModel { enabled: !c.enabled, ..c };
            ConfigModel { enabled: !once.enabled, ..once }
        }) == c,
{
}

} // verus!
