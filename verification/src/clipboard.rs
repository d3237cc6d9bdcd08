//! The decisions of the clipboard listener: whether a clipboard update is
//! sanitized, what is written back, and what the state records of it.
//!
//! Reading and writing the clipboard, finding the owner's executable and
//! showing toasts happen outside; each handling is a run of steps, and each
//! step takes the outcome of the last outside action and names the next one.
use vstd::prelude::*;

use crate::lits::{
    arr_clipboard_sanitized_check, arr_handler_panicked, arr_sanitized_from, arr_toast_failed,
    arr_write_fail, lit_clipboard_sanitized_check, lit_handler_panicked, lit_sanitized_from,
    lit_toast_failed, lit_write_fail,
};
use crate::sanitize::clean::{normalize_eol, normalize_line_endings};
use crate::sanitize::line_ends::{law_sanitized_output_has_no_cr, no_cr};
use crate::sanitize::{sanitize_spec, sanitize_text, toast_text};
use crate::shell::heredoc::seq_eq;
use crate::state::{
    hash_text, now_ms, opt_str, paused_at, push_log, set_debug_capture, text_hash, AppState,
    AppStateModel, Config, ConfigModel, LogEntry, LogEntryModel, strs,
};
use crate::text::{append_chars, chars_of};
use crate::unicode::string_from_chars;

verus! {

/// How long after its own write the listener ignores clipboard updates, in
/// milliseconds.
pub const SELF_WRITE_WINDOW_MS: u64 = 700;

// ---------------------------------------------------------------------------
// Line endings for the clipboard
// ---------------------------------------------------------------------------

/// `s` with each LF written as CRLF.
pub open spec fn crlf(s: Seq<char>) -> Seq<char>
    decreases s.len(),
{
    if s.len() == 0 {
        Seq::<char>::empty()
    } else {
        crlf(s.drop_last()) + (if s.last() == '\n' {
            seq!['\r', '\n']
        } else {
            seq![s.last()]
        })
    }
}

pub fn to_crlf(text: &[char]) -> (r: Vec<char>)
    ensures
        r@ == crlf(text@),
{
    let mut out: Vec<char> = Vec::new();
    let mut i: usize = 0;
    while i < text.len()
        invariant
            i <= text@.len(),
            out@ == crlf(text@.subrange(0, i as int)),
        decreases text.len() - i,
    {
        let ghost before = out@;
        if text[i] == '\n' {
            out.push('\r');
            out.push('\n');
        } else {
            out.push(text[i]);
        }
        assert(text@.subrange(0, i + 1).drop_last() =~= text@.subrange(0, i as int));
        assert(out@ =~= crlf(text@.subrange(0, i + 1)));
        i = i + 1;
    }
    assert(text@.subrange(0, text@.len() as int) =~= text@);
    out
}

// ---------------------------------------------------------------------------
// What a sanitize pass makes of a clipboard text
// ---------------------------------------------------------------------------

/// The toast message for the sanitize pass over `text`.
pub open spec fn plan_message(text: Seq<char>) -> Seq<char> {
    toast_text(sanitize_spec(text).1)
}

/// Whether the sanitize pass over `text` changes it: its output differs from
/// the text with normalized line endings.
pub open spec fn plan_changes(text: Seq<char>) -> bool {
    sanitize_spec(text).0 != normalize_eol(text)
}

/// The text to write back for `text`: the sanitizer's output with CRLF line
/// endings.
pub open spec fn plan_output(text: Seq<char>) -> Seq<char> {
    crlf(sanitize_spec(text).0)
}

/// What a sanitize pass makes of a clipboard text.
pub struct SanitizePlan {
    pub output_for_clipboard: String,
    pub toast_message: String,
    pub changed: bool,
}

pub fn plan_sanitize(text: &str) -> (r: SanitizePlan)
    ensures
        r.output_for_clipboard@ == plan_output(text@),
        r.toast_message@ == plan_message(text@),
        r.changed == plan_changes(text@),
{
    let result = sanitize_text(text);
    let toast_message = result.summary.toast_message();
    let input = chars_of(text);
    let normalized = normalize_line_endings(input.as_slice());
    let output = chars_of(result.output.as_str());
    let changed = !seq_eq(output.as_slice(), normalized.as_slice());
    let written = to_crlf(output.as_slice());
    SanitizePlan {
        output_for_clipboard: string_from_chars(written.as_slice()),
        toast_message,
        changed,
    }
}

// ---------------------------------------------------------------------------
// Single decisions
// ---------------------------------------------------------------------------

/// Whether the window after the listener's own write is still open at `now`.
pub open spec fn self_write_active(until: Option<u64>, now: u64) -> bool {
    match until {
        Some(u) => u > now,
        None => false,
    }
}

/// Whether a clipboard update at `now` is looked at: sanitizing is enabled, not
/// paused, and the update is not the echo of the listener's own write.
pub open spec fn update_gate(s: AppStateModel, now: u64) -> bool {
    s.config.enabled && !paused_at(s.paused_until, now) && !self_write_active(s.self_write_until, now)
}

pub fn update_gate_at(state: &AppState, now: u64) -> (r: bool)
    ensures
        r == update_gate(state@, now),
{
    if !state.config.enabled {
        return false;
    }
    let paused = match state.paused_until {
        Some(until) => until > now,
        None => false,
    };
    if paused {
        return false;
    }
    match state.self_write_until {
        Some(until) => until <= now,
        None => true,
    }
}

/// Whether the listener wrote `text_hash` itself last.
pub fn is_own_write(state: &AppState, hash: u64) -> (r: bool)
    ensures
        r == (state.last_written_hash == Some(hash)),
{
    match state.last_written_hash {
        Some(h) => h == hash,
        None => false,
    }
}

/// Whether the clipboard owner `owner` may have its text sanitized: always
/// where the allowlist is off; else only a known owner on the allowlist.
pub open spec fn owner_allowed(c: ConfigModel, owner: Option<Seq<char>>) -> bool {
    !c.only_allowlisted || (owner is Some && c.allowlist.contains(owner->0))
}

pub fn owner_allowed_by(config: &Config, owner: &Option<String>) -> (r: bool)
    ensures
        r == owner_allowed(config@, opt_str(*owner)),
{
    if !config.only_allowlisted {
        return true;
    }
    match owner {
        None => false,
        Some(exe) => {
            let mut i: usize = 0;
            while i < config.allowlist.len()
                invariant
                    i <= config.allowlist@.len(),
                    opt_str(*owner) == Some(exe@),
                    config.only_allowlisted,
                    forall|k: int| 0 <= k < i ==> strs(config.allowlist@)[k] != exe@,
                decreases config.allowlist.len() - i,
            {
                if config.allowlist[i] == *exe {
                    assert(strs(config.allowlist@)[i as int] == exe@);
                    assert(config@.allowlist[i as int] == exe@);
                    assert(config@.allowlist.contains(exe@));
                    return true;
                }
                i = i + 1;
            }
            false
        },
    }
}

/// Opens the window in which the listener ignores the echo of its own write.
pub fn begin_self_write(state: &mut AppState, now: u64)
    requires
        now + SELF_WRITE_WINDOW_MS <= u64::MAX,
    ensures
        final(state)@ == (AppStateModel {
            self_write_until: Some((now + SELF_WRITE_WINDOW_MS) as u64),
            ..old(state)@
        }),
{
    state.self_write_until = Some(now + SELF_WRITE_WINDOW_MS);
}

/// The state after a write of the clipboard: on success the written hash and
/// the source are kept; on failure the self-write window is closed. Either way
/// the outcome is logged at `now`.
pub open spec fn write_result(
    s: AppStateModel,
    write_ok: bool,
    written_hash: u64,
    source_exe: Option<Seq<char>>,
    summary: Seq<char>,
    now: u64,
) -> AppStateModel {
    let s1 = if write_ok {
        AppStateModel { last_written_hash: Some(written_hash), last_source_exe: source_exe, ..s }
    } else {
        AppStateModel { self_write_until: None, ..s }
    };
    s1.logged(LogEntryModel { timestamp_ms: now, source_exe: source_exe, summary: summary })
}

pub fn apply_write_result_at(
    state: &mut AppState,
    write_ok: bool,
    written_hash: u64,
    source_exe: Option<String>,
    summary: String,
    now: u64,
)
    ensures
        final(state)@ == write_result(
            old(state)@,
            write_ok,
            written_hash,
            opt_str(source_exe),
            summary@,
            now,
        ),
{
    let log_source = crate::state::clone_opt_string(&source_exe);
    if write_ok {
        state.last_written_hash = Some(written_hash);
        state.last_source_exe = source_exe;
    } else {
        state.self_write_until = None;
    }
    push_log(state, LogEntry { timestamp_ms: now, source_exe: log_source, summary });
}

/// Records the outcome of a clipboard write, stamped by the system clock.
pub fn apply_write_result(
    state: &mut AppState,
    write_ok: bool,
    written_hash: u64,
    source_exe: Option<String>,
    summary: String,
)
    ensures
        final(state)@ == write_result(
            old(state)@,
            write_ok,
            written_hash,
            opt_str(source_exe),
            summary@,
            final(state)@.log[0].timestamp_ms,
        ),
{
    let now = now_ms();
    apply_write_result_at(state, write_ok, written_hash, source_exe, summary, now);
}

/// The log line for a failed clipboard write.
pub fn write_fail_summary() -> (r: String)
    ensures
        r@ == lit_write_fail(),
{
    string_from_chars(&arr_write_fail())
}

/// The toast after a sanitize pass: it names the source executable where it
/// is known.
pub open spec fn sanitize_toast_text(source_exe: Option<Seq<char>>) -> Seq<char> {
    match source_exe {
        Some(exe) => lit_sanitized_from() + exe,
        None => lit_clipboard_sanitized_check(),
    }
}

pub fn format_sanitize_toast(_message: &str, source_exe: Option<&str>) -> (r: String)
    ensures
        r@ == sanitize_toast_text(match source_exe {
            Some(e) => Some(e@),
            None => None,
        }),
{
    match source_exe {
        Some(exe) => {
            let mut text: Vec<char> = Vec::new();
            append_chars(&mut text, &arr_sanitized_from());
            let e = chars_of(exe);
            append_chars(&mut text, e.as_slice());
            string_from_chars(text.as_slice())
        },
        None => string_from_chars(&arr_clipboard_sanitized_check()),
    }
}

/// The log line for a toast that could not be shown.
pub open spec fn toast_failed_text(err: Seq<char>) -> Seq<char> {
    lit_toast_failed() + err
}

fn toast_failed_summary(err: &String) -> (r: String)
    ensures
        r@ == toast_failed_text(err@),
{
    let mut text: Vec<char> = Vec::new();
    append_chars(&mut text, &arr_toast_failed());
    let e = chars_of(err.as_str());
    append_chars(&mut text, e.as_slice());
    string_from_chars(text.as_slice())
}

/// Logs, at `now`, that handling a clipboard update panicked and the listener
/// went on.
pub fn log_handler_panic_at(state: &mut AppState, now: u64)
    ensures
        final(state)@ == old(state)@.logged(
            LogEntryModel { timestamp_ms: now, source_exe: None, summary: lit_handler_panicked() },
        ),
{
    let entry = LogEntry {
        timestamp_ms: now,
        source_exe: None,
        summary: string_from_chars(&arr_handler_panicked()),
    };
    push_log(state, entry);
}


/// How many times the clipboard is tried before a read or write gives up.
pub const MAX_OPEN_ATTEMPTS: u32 = 10;

/// The wait after a failed attempt to open the clipboard, in milliseconds.
pub const OPEN_BACKOFF_MS: u32 = 15;

/// The wait after the failed attempt number `attempt` (from 0): it grows by
/// `OPEN_BACKOFF_MS` with each attempt.
pub fn open_backoff_ms(attempt: u32) -> (r: u32)
    requires
        attempt < MAX_OPEN_ATTEMPTS,
    ensures
        r == OPEN_BACKOFF_MS * (attempt + 1),
{
    OPEN_BACKOFF_MS * (attempt + 1)
}

// ---------------------------------------------------------------------------
// Events
// ---------------------------------------------------------------------------

/// The outcome of the last outside action of a run.
pub enum ClipboardEvent {
    /// The run starts.
    Begin,
    /// The clipboard was read: its text, if it holds text.
    TextRead(Option<String>),
    /// The clipboard owner's executable was looked up, and the source shown to
    /// the user (the owner, or else the foreground window's executable).
    OwnerResolved { owner_exe: Option<String>, source_exe: Option<String> },
    /// The clipboard was written, or the write failed.
    WriteFinished(bool),
    /// A toast was shown, or failed with a message.
    ToastFinished(Option<String>),
}

pub enum EventModel {
    Begin,
    TextRead(Option<Seq<char>>),
    OwnerResolved { owner_exe: Option<Seq<char>>, source_exe: Option<Seq<char>> },
    WriteFinished(bool),
    ToastFinished(Option<Seq<char>>),
}

impl View for ClipboardEvent {
    type V = EventModel;

    open spec fn view(&self) -> EventModel {
        match self {
            ClipboardEvent::Begin => EventModel::Begin,
            ClipboardEvent::TextRead(t) => EventModel::TextRead(opt_str(*t)),
            ClipboardEvent::OwnerResolved { owner_exe, source_exe } => EventModel::OwnerResolved {
                owner_exe: opt_str(*owner_exe),
                source_exe: opt_str(*source_exe),
            },
            ClipboardEvent::WriteFinished(ok) => EventModel::WriteFinished(*ok),
            ClipboardEvent::ToastFinished(e) => EventModel::ToastFinished(opt_str(*e)),
        }
    }
}

// ---------------------------------------------------------------------------
// Handling a clipboard update
// ---------------------------------------------------------------------------

/// Where the handling of a clipboard update stands.
pub enum UpdatePhase {
    Start,
    ReadingText,
    ResolvingOwner { text: String },
    Writing { output: String, message: String, source_exe: Option<String>, toast_enabled: bool },
    Toasting { source_exe: Option<String> },
    Done,
}

pub enum UpdatePhaseModel {
    Start,
    ReadingText,
    ResolvingOwner { text: Seq<char> },
    Writing {
        output: Seq<char>,
        message: Seq<char>,
        source_exe: Option<Seq<char>>,
        toast_enabled: bool,
    },
    Toasting { source_exe: Option<Seq<char>> },
    Done,
}

impl View for UpdatePhase {
    type V = UpdatePhaseModel;

    open spec fn view(&self) -> UpdatePhaseModel {
        match self {
            UpdatePhase::Start => UpdatePhaseModel::Start,
            UpdatePhase::ReadingText => UpdatePhaseModel::ReadingText,
            UpdatePhase::ResolvingOwner { text } => UpdatePhaseModel::ResolvingOwner { text: text@ },
            UpdatePhase::Writing { output, message, source_exe, toast_enabled } =>
                UpdatePhaseModel::Writing {
                    output: output@,
                    message: message@,
                    source_exe: opt_str(*source_exe),
                    toast_enabled: *toast_enabled,
                },
            UpdatePhase::Toasting { source_exe } => UpdatePhaseModel::Toasting {
                source_exe: opt_str(*source_exe),
            },
            UpdatePhase::Done => UpdatePhaseModel::Done,
        }
    }
}

/// The next outside action of an update run.
pub enum UpdateAction {
    ReadClipboard,
    ResolveOwner,
    WriteClipboard(String),
    ShowToast(String),
    Finish,
}

pub enum UpdateActionModel {
    ReadClipboard,
    ResolveOwner,
    WriteClipboard(Seq<char>),
    ShowToast(Seq<char>),
    Finish,
}

impl View for UpdateAction {
    type V = UpdateActionModel;

    open spec fn view(&self) -> UpdateActionModel {
        match self {
            UpdateAction::ReadClipboard => UpdateActionModel::ReadClipboard,
            UpdateAction::ResolveOwner => UpdateActionModel::ResolveOwner,
            UpdateAction::WriteClipboard(t) => UpdateActionModel::WriteClipboard(t@),
            UpdateAction::ShowToast(t) => UpdateActionModel::ShowToast(t@),
            UpdateAction::Finish => UpdateActionModel::Finish,
        }
    }
}

/// One step of handling a clipboard update, at time `now`: the state after
/// it, the phase it leaves, and the next action.
///
/// A run stops unless `update_gate` holds; it reads the clipboard and stops at
/// a text whose hash is that of the listener's last write; it looks up the
/// owner and stops at an owner that is not allowed; it records the text and
/// message for debugging and stops where the sanitizer changes nothing; else it
/// opens the self-write window and writes the output back. The outcome of the
/// write is recorded, and a toast follows where toasts are on. An event that
/// does not fit the phase ends the run.
pub open spec fn update_step_spec(
    s: AppStateModel,
    p: UpdatePhaseModel,
    e: EventModel,
    now: u64,
) -> (AppStateModel, UpdatePhaseModel, UpdateActionModel) {
    match p {
        UpdatePhaseModel::Start => match e {
            EventModel::Begin => if update_gate(s, now) {
                (s, UpdatePhaseModel::ReadingText, UpdateActionModel::ReadClipboard)
            } else {
                (s, UpdatePhaseModel::Done, UpdateActionModel::Finish)
            },
            _ => (s, UpdatePhaseModel::Done, UpdateActionModel::Finish),
        },
        UpdatePhaseModel::ReadingText => match e {
            EventModel::TextRead(Some(t)) => if s.last_written_hash == Some(text_hash(t)) {
                (s, UpdatePhaseModel::Done, UpdateActionModel::Finish)
            } else {
                (s, UpdatePhaseModel::ResolvingOwner { text: t }, UpdateActionModel::ResolveOwner)
            },
            _ => (s, UpdatePhaseModel::Done, UpdateActionModel::Finish),
        },
        UpdatePhaseModel::ResolvingOwner { text } => match e {
            EventModel::OwnerResolved { owner_exe, source_exe } => if !owner_allowed(
                s.config,
                owner_exe,
            ) {
                (s, UpdatePhaseModel::Done, UpdateActionModel::Finish)
            } else {
                let s1 = s.with_debug(text, plan_message(text));
                if !plan_changes(text) {
                    (s1, UpdatePhaseModel::Done, UpdateActionModel::Finish)
                } else {
                    (
                        AppStateModel {
                            self_write_until: Some((now + SELF_WRITE_WINDOW_MS) as u64),
                            ..s1
                        },
                        UpdatePhaseModel::Writing {
                            output: plan_output(text),
                            message: plan_message(text),
                            source_exe: source_exe,
                            toast_enabled: s.config.toast_enabled,
                        },
                        UpdateActionModel::WriteClipboard(plan_output(text)),
                    )
                }
            },
            _ => (s, UpdatePhaseModel::Done, UpdateActionModel::Finish),
        },
        UpdatePhaseModel::Writing { output, message, source_exe, toast_enabled } => match e {
            EventModel::WriteFinished(ok) => if ok {
                let s1 = write_result(s, true, text_hash(output), source_exe, message, now);
                if toast_enabled {
                    (
                        s1,
                        UpdatePhaseModel::Toasting { source_exe: source_exe },
                        UpdateActionModel::ShowToast(sanitize_toast_text(source_exe)),
                    )
                } else {
                    (s1, UpdatePhaseModel::Done, UpdateActionModel::Finish)
                }
            } else {
                (
                    write_result(s, false, 0, source_exe, lit_write_fail(), now),
                    UpdatePhaseModel::Done,
                    UpdateActionModel::Finish,
                )
            },
            _ => (s, UpdatePhaseModel::Done, UpdateActionModel::Finish),
        },
        UpdatePhaseModel::Toasting { source_exe } => match e {
            EventModel::ToastFinished(Some(err)) => (
                s.logged(
                    LogEntryModel {
                        timestamp_ms: now,
                        source_exe: source_exe,
                        summary: toast_failed_text(err),
                    },
                ),
                UpdatePhaseModel::Done,
                UpdateActionModel::Finish,
            ),
            _ => (s, UpdatePhaseModel::Done, UpdateActionModel::Finish),
        },
        UpdatePhaseModel::Done => (s, UpdatePhaseModel::Done, UpdateActionModel::Finish),
    }
}

fn opt_as_str(o: &Option<String>) -> (r: Option<&str>)
    ensures
        match r {
            Some(s) => o.is_some() && s@ == o->0@,
            None => o.is_none(),
        },
{
    match o {
        Some(s) => Some(s.as_str()),
        None => None,
    }
}

/// One step of handling a clipboard update; see `update_step_spec`.
pub fn update_step(state: &mut AppState, phase: UpdatePhase, event: ClipboardEvent, now: u64) -> (r: (
    UpdatePhase,
    UpdateAction,
))
    requires
        phase@ is ResolvingOwner ==> now + SELF_WRITE_WINDOW_MS <= u64::MAX,
    ensures
        (final(state)@, r.0@, r.1@) == update_step_spec(old(state)@, phase@, event@, now),
{
    match phase {
        UpdatePhase::Start => match event {
            ClipboardEvent::Begin => if update_gate_at(state, now) {
                (UpdatePhase::ReadingText, UpdateAction::ReadClipboard)
            } else {
                (UpdatePhase::Done, UpdateAction::Finish)
            },
            _ => (UpdatePhase::Done, UpdateAction::Finish),
        },
        UpdatePhase::ReadingText => match event {
            ClipboardEvent::TextRead(Some(text)) => {
                let h = hash_text(text.as_str());
                if is_own_write(state, h) {
                    (UpdatePhase::Done, UpdateAction::Finish)
                } else {
                    (UpdatePhase::ResolvingOwner { text }, UpdateAction::ResolveOwner)
                }
            },
            _ => (UpdatePhase::Done, UpdateAction::Finish),
        },
        UpdatePhase::ResolvingOwner { text } => match event {
            ClipboardEvent::OwnerResolved { owner_exe, source_exe } => {
                if !owner_allowed_by(&state.config, &owner_exe) {
                    return (UpdatePhase::Done, UpdateAction::Finish);
                }
                let toast_enabled = state.config.toast_enabled;
                let plan = plan_sanitize(text.as_str());
                set_debug_capture(state, text.as_str(), plan.toast_message.as_str());
                if !plan.changed {
                    return (UpdatePhase::Done, UpdateAction::Finish);
                }
                begin_self_write(state, now);
                let output = crate::state::clone_string(&plan.output_for_clipboard);
                (
                    UpdatePhase::Writing {
                        output: plan.output_for_clipboard,
                        message: plan.toast_message,
                        source_exe,
                        toast_enabled,
                    },
                    UpdateAction::WriteClipboard(output),
                )
            },
            _ => (UpdatePhase::Done, UpdateAction::Finish),
        },
        UpdatePhase::Writing { output, message, source_exe, toast_enabled } => match event {
            ClipboardEvent::WriteFinished(ok) => {
                if ok {
                    let h = hash_text(output.as_str());
                    let toast_source = crate::state::clone_opt_string(&source_exe);
                    apply_write_result_at(state, true, h, source_exe, message, now);
                    if toast_enabled {
                        let toast = format_sanitize_toast("", opt_as_str(&toast_source));
                        (UpdatePhase::Toasting { source_exe: toast_source }, UpdateAction::ShowToast(toast))
                    } else {
                        (UpdatePhase::Done, UpdateAction::Finish)
                    }
                } else {
                    apply_write_result_at(state, false, 0, source_exe, write_fail_summary(), now);
                    (UpdatePhase::Done, UpdateAction::Finish)
                }
            },
            _ => (UpdatePhase::Done, UpdateAction::Finish),
        },
        UpdatePhase::Toasting { source_exe } => match event {
            ClipboardEvent::ToastFinished(Some(err)) => {
                let entry = LogEntry {
                    timestamp_ms: now,
                    source_exe,
                    summary: toast_failed_summary(&err),
                };
                push_log(state, entry);
                (UpdatePhase::Done, UpdateAction::Finish)
            },
            _ => (UpdatePhase::Done, UpdateAction::Finish),
        },
        UpdatePhase::Done => (UpdatePhase::Done, UpdateAction::Finish),
    }
}


// ---------------------------------------------------------------------------
// "Sanitize now"
// ---------------------------------------------------------------------------

/// Where a "Sanitize now" run stands.
pub enum NowPhase {
    Start,
    ResolvingOwner,
    ReadingText { source_exe: Option<String> },
    Writing { output: String, message: String, source_exe: Option<String> },
    Done,
}

pub enum NowPhaseModel {
    Start,
    ResolvingOwner,
    ReadingText { source_exe: Option<Seq<char>> },
    Writing { output: Seq<char>, message: Seq<char>, source_exe: Option<Seq<char>> },
    Done,
}

impl View for NowPhase {
    type V = NowPhaseModel;

    open spec fn view(&self) -> NowPhaseModel {
        match self {
            NowPhase::Start => NowPhaseModel::Start,
            NowPhase::ResolvingOwner => NowPhaseModel::ResolvingOwner,
            NowPhase::ReadingText { source_exe } => NowPhaseModel::ReadingText {
                source_exe: opt_str(*source_exe),
            },
            NowPhase::Writing { output, message, source_exe } => NowPhaseModel::Writing {
                output: output@,
                message: message@,
                source_exe: opt_str(*source_exe),
            },
            NowPhase::Done => NowPhaseModel::Done,
        }
    }
}

/// The next outside action of a "Sanitize now" run; `Finish` tells whether the
/// clipboard was changed.
pub enum NowAction {
    ResolveOwner,
    ReadClipboard,
    WriteClipboard(String),
    Finish(bool),
}

pub enum NowActionModel {
    ResolveOwner,
    ReadClipboard,
    WriteClipboard(Seq<char>),
    Finish(bool),
}

impl View for NowAction {
    type V = NowActionModel;

    open spec fn view(&self) -> NowActionModel {
        match self {
            NowAction::ResolveOwner => NowActionModel::ResolveOwner,
            NowAction::ReadClipboard => NowActionModel::ReadClipboard,
            NowAction::WriteClipboard(t) => NowActionModel::WriteClipboard(t@),
            NowAction::Finish(changed) => NowActionModel::Finish(*changed),
        }
    }
}

/// One step of a "Sanitize now" run, at time `now`.
///
/// A run stops while sanitizing is disabled or paused, looks up the owner,
/// stops at an owner that is not allowed, reads the clipboard, records the text
/// and message for debugging, stops where the sanitizer changes nothing, and
/// else opens the self-write window and writes the output back; the write's
/// outcome is recorded and reported. Unlike a clipboard update, it does not
/// wait out the self-write window, and the listener's own last write is
/// sanitized again. An event that does not fit the phase ends the run with no
/// change.
pub open spec fn now_step_spec(
    s: AppStateModel,
    p: NowPhaseModel,
    e: EventModel,
    now: u64,
) -> (AppStateModel, NowPhaseModel, NowActionModel) {
    match p {
        NowPhaseModel::Start => match e {
            EventModel::Begin => if !s.config.enabled || paused_at(s.paused_until, now) {
                (s, NowPhaseModel::Done, NowActionModel::Finish(false))
            } else {
                (s, NowPhaseModel::ResolvingOwner, NowActionModel::ResolveOwner)
            },
            _ => (s, NowPhaseModel::Done, NowActionModel::Finish(false)),
        },
        NowPhaseModel::ResolvingOwner => match e {
            EventModel::OwnerResolved { owner_exe, source_exe } => if owner_allowed(
                s.config,
                owner_exe,
            ) {
                (
                    s,
                    NowPhaseModel::ReadingText { source_exe: source_exe },
                    NowActionModel::ReadClipboard,
                )
            } else {
                (s, NowPhaseModel::Done, NowActionModel::Finish(false))
            },
            _ => (s, NowPhaseModel::Done, NowActionModel::Finish(false)),
        },
        NowPhaseModel::ReadingText { source_exe } => match e {
            EventModel::TextRead(Some(text)) => {
                let s1 = s.with_debug(text, plan_message(text));
                if !plan_changes(text) {
                    (s1, NowPhaseModel::Done, NowActionModel::Finish(false))
                } else {
                    (
                        AppStateModel {
                            self_write_until: Some((now + SELF_WRITE_WINDOW_MS) as u64),
                            ..s1
                        },
                        NowPhaseModel::Writing {
                            output: plan_output(text),
                            message: plan_message(text),
                            source_exe: source_exe,
                        },
                        NowActionModel::WriteClipboard(plan_output(text)),
                    )
                }
            },
            _ => (s, NowPhaseModel::Done, NowActionModel::Finish(false)),
        },
        NowPhaseModel::Writing { output, message, source_exe } => match e {
            EventModel::WriteFinished(ok) => if ok {
                (
                    write_result(s, true, text_hash(output), source_exe, message, now),
                    NowPhaseModel::Done,
                    NowActionModel::Finish(true),
                )
            } else {
                (
                    write_result(s, false, 0, source_exe, lit_write_fail(), now),
                    NowPhaseModel::Done,
                    NowActionModel::Finish(false),
                )
            },
            _ => (s, NowPhaseModel::Done, NowActionModel::Finish(false)),
        },
        NowPhaseModel::Done => (s, NowPhaseModel::Done, NowActionModel::Finish(false)),
    }
}

/// One step of a "Sanitize now" run; see `now_step_spec`.
pub fn sanitize_now_step(state: &mut AppState, phase: NowPhase, event: ClipboardEvent, now: u64) -> (r: (
    NowPhase,
    NowAction,
))
    requires
        phase@ is ReadingText ==> now + SELF_WRITE_WINDOW_MS <= u64::MAX,
    ensures
        (final(state)@, r.0@, r.1@) == now_step_spec(old(state)@, phase@, event@, now),
{
    match phase {
        NowPhase::Start => match event {
            ClipboardEvent::Begin => {
                let paused = match state.paused_until {
                    Some(until) => until > now,
                    None => false,
                };
                if !state.config.enabled || paused {
                    (NowPhase::Done, NowAction::Finish(false))
                } else {
                    (NowPhase::ResolvingOwner, NowAction::ResolveOwner)
                }
            },
            _ => (NowPhase::Done, NowAction::Finish(false)),
        },
        NowPhase::ResolvingOwner => match event {
            ClipboardEvent::OwnerResolved { owner_exe, source_exe } => {
                if owner_allowed_by(&state.config, &owner_exe) {
                    (NowPhase::ReadingText { source_exe }, NowAction::ReadClipboard)
                } else {
                    (NowPhase::Done, NowAction::Finish(false))
                }
            },
            _ => (NowPhase::Done, NowAction::Finish(false)),
        },
        NowPhase::ReadingText { source_exe } => match event {
            ClipboardEvent::TextRead(Some(text)) => {
                let plan = plan_sanitize(text.as_str());
                set_debug_capture(state, text.as_str(), plan.toast_message.as_str());
                if !plan.changed {
                    return (NowPhase::Done, NowAction::Finish(false));
                }
                begin_self_write(state, now);
                let output = crate::state::clone_string(&plan.output_for_clipboard);
                (
                    NowPhase::Writing {
                        output: plan.output_for_clipboard,
                        message: plan.toast_message,
                        source_exe,
                    },
                    NowAction::WriteClipboard(output),
                )
            },
            _ => (NowPhase::Done, NowAction::Finish(false)),
        },
        NowPhase::Writing { output, message, source_exe } => match event {
            ClipboardEvent::WriteFinished(ok) => {
                if ok {
                    let h = hash_text(output.as_str());
                    apply_write_result_at(state, true, h, source_exe, message, now);
                    (NowPhase::Done, NowAction::Finish(true))
                } else {
                    apply_write_result_at(state, false, 0, source_exe, write_fail_summary(), now);
                    (NowPhase::Done, NowAction::Finish(false))
                }
            },
            _ => (NowPhase::Done, NowAction::Finish(false)),
        },
        NowPhase::Done => (NowPhase::Done, NowAction::Finish(false)),
    }
}


// ---------------------------------------------------------------------------
// Laws
// ---------------------------------------------------------------------------

/// An update run that reads `text` from an owner `owner_exe` writes the
/// clipboard exactly when sanitizing is enabled and not paused, the update is
/// not the echo of the listener's own write, the owner is allowed, and the
/// sanitizer changes the text; what it writes is the sanitizer's output with
/// CRLF line endings.
pub proof fn law_update_writes_only_when_allowed(
    s0: AppStateModel,
    t1: u64,
    t2: u64,
    t3: u64,
    text: Seq<char>,
    owner_exe: Option<Seq<char>>,
    source_exe: Option<Seq<char>>,
)
    ensures
        ({
            let r1 = update_step_spec(s0, UpdatePhaseModel::Start, EventModel::Begin, t1);
            let r2 = update_step_spec(r1.0, r1.1, EventModel::TextRead(Some(text)), t2);
            let r3 = update_step_spec(
                r2.0,
                r2.1,
                EventModel::OwnerResolved { owner_exe: owner_exe, source_exe: source_exe },
                t3,
            );
            &&& (r3.2 is WriteClipboard) == (update_gate(s0, t1) && s0.last_written_hash != Some(
                text_hash(text),
            ) && owner_allowed(s0.config, owner_exe) && plan_changes(text))
            &&& r3.2 is WriteClipboard ==> r3.2 == UpdateActionModel::WriteClipboard(
                plan_output(text),
            )
        }),
{
}

/// In any step of an update run, the clipboard is written only from the
/// phase after the owner lookup, for an allowed owner and a text that the
/// sanitizer changes.
pub proof fn law_update_write_step(s: AppStateModel, p: UpdatePhaseModel, e: EventModel, now: u64)
    ensures
        update_step_spec(s, p, e, now).2 is WriteClipboard ==> (p matches UpdatePhaseModel::ResolvingOwner {
            text,
        } && e matches EventModel::OwnerResolved { owner_exe, .. } && owner_allowed(
            s.config,
            owner_exe,
        ) && plan_changes(text)),
{
}

/// Once a write of `output` has succeeded, reading `output` back is taken for
/// the echo of that write: the run ends and the state is left alone.
pub proof fn law_own_write_is_not_sanitized_again(
    s: AppStateModel,
    output: Seq<char>,
    message: Seq<char>,
    source_exe: Option<Seq<char>>,
    toast_enabled: bool,
    t1: u64,
    t2: u64,
)
    ensures
        ({
            let r1 = update_step_spec(
                s,
                UpdatePhaseModel::Writing {
                    output: output,
                    message: message,
                    source_exe: source_exe,
                    toast_enabled: toast_enabled,
                },
                EventModel::WriteFinished(true),
                t1,
            );
            let r2 = update_step_spec(
                r1.0,
                UpdatePhaseModel::ReadingText,
                EventModel::TextRead(Some(output)),
                t2,
            );
            r2 == (r1.0, UpdatePhaseModel::Done, UpdateActionModel::Finish)
        }),
{
}

/// A failed write closes the self-write window, so the next update is looked
/// at as soon as sanitizing is enabled and not paused.
pub proof fn law_failed_write_closes_window(
    s: AppStateModel,
    output: Seq<char>,
    message: Seq<char>,
    source_exe: Option<Seq<char>>,
    toast_enabled: bool,
    t1: u64,
    t2: u64,
)
    ensures
        ({
            let r1 = update_step_spec(
                s,
                UpdatePhaseModel::Writing {
                    output: output,
                    message: message,
                    source_exe: source_exe,
                    toast_enabled: toast_enabled,
                },
                EventModel::WriteFinished(false),
                t1,
            );
            &&& r1.0.self_write_until is None
            &&& r1.0.last_written_hash == s.last_written_hash
            &&& update_gate(r1.0, t2) == (s.config.enabled && !paused_at(s.paused_until, t2))
        }),
{
}

/// A "Sanitize now" run that finds the owner `owner_exe` and reads `text`
/// writes the clipboard exactly when sanitizing is enabled and not paused, the
/// owner is allowed and the sanitizer changes the text, and then reports a
/// change once the write succeeds.
pub proof fn law_sanitize_now_writes_only_when_allowed(
    s0: AppStateModel,
    t1: u64,
    t2: u64,
    t3: u64,
    t4: u64,
    text: Seq<char>,
    owner_exe: Option<Seq<char>>,
    source_exe: Option<Seq<char>>,
)
    ensures
        ({
            let r1 = now_step_spec(s0, NowPhaseModel::Start, EventModel::Begin, t1);
            let r2 = now_step_spec(
                r1.0,
                r1.1,
                EventModel::OwnerResolved { owner_exe: owner_exe, source_exe: source_exe },
                t2,
            );
            let r3 = now_step_spec(r2.0, r2.1, EventModel::TextRead(Some(text)), t3);
            let r4 = now_step_spec(r3.0, r3.1, EventModel::WriteFinished(true), t4);
            &&& (r3.2 is WriteClipboard) == (s0.config.enabled && !paused_at(s0.paused_until, t1)
                && owner_allowed(s0.config, owner_exe) && plan_changes(text))
            &&& r3.2 is WriteClipboard ==> r3.2 == NowActionModel::WriteClipboard(plan_output(text))
                && r4.2 == NowActionModel::Finish(true)
        }),
{
}

/// While sanitizing is disabled, "Sanitize now" changes nothing: its first step
/// ends the run, reports no change, and leaves the state as it was.
pub proof fn law_sanitize_now_inert_while_disabled(s: AppStateModel, now: u64)
    requires
        !s.config.enabled,
    ensures
        now_step_spec(s, NowPhaseModel::Start, EventModel::Begin, now) == (
            s,
            NowPhaseModel::Done,
            NowActionModel::Finish(false),
        ),
{
}

proof fn lemma_normalize_eol_append(a: Seq<char>, b: Seq<char>)
    requires
        a.len() == 0 || a.last() != '\r',
    ensures
        normalize_eol(a + b) == normalize_eol(a) + normalize_eol(b),
    decreases a.len(),
{
    if a.len() == 0 {
        assert(a + b =~= b);
        assert(normalize_eol(a) =~= Seq::<char>::empty());
        assert(normalize_eol(a) + normalize_eol(b) =~= normalize_eol(b));
    } else if a[0] == '\r' && a.len() > 1 && a[1] == '\n' {
        let rest = a.subrange(2, a.len() as int);
        assert((a + b).subrange(2, (a + b).len() as int) =~= rest + b);
        if rest.len() > 0 {
            assert(rest.last() == a.last());
        }
        lemma_normalize_eol_append(rest, b);
        assert(normalize_eol(a + b) =~= seq!['\n'] + normalize_eol(rest + b));
    } else {
        let rest = a.drop_first();
        assert((a + b).drop_first() =~= rest + b);
        if rest.len() > 0 {
            assert(rest.last() == a.last());
        }
        lemma_normalize_eol_append(rest, b);
        assert(a.len() == 1 ==> a[0] != '\r');
        assert((a + b)[0] == a[0]);
        if a[0] == '\r' {
            assert((a + b)[1] == a[1]);
        }
    }
}

proof fn lemma_crlf_last(x: Seq<char>)
    requires
        !x.contains('\r'),
    ensures
        crlf(x).len() == 0 || crlf(x).last() != '\r',
    decreases x.len(),
{
    if x.len() > 0 {
        assert(x.last() == x[x.len() - 1]);
    }
}

/// The text written to the clipboard, read back with its line endings
/// normalized, is the sanitizer's output again (for an output without CR).
pub proof fn law_written_text_reads_back(x: Seq<char>)
    requires
        !x.contains('\r'),
    ensures
        normalize_eol(crlf(x)) == x,
    decreases x.len(),
{
    if x.len() == 0 {
        assert(normalize_eol(crlf(x)) =~= x);
    } else {
        let init = x.drop_last();
        assert(!init.contains('\r')) by {
            if init.contains('\r') {
                let k = choose|k: int| 0 <= k < init.len() && init[k] == '\r';
                assert(x[k] == '\r');
            }
        }
        law_written_text_reads_back(init);
        lemma_crlf_last(init);
        let piece = if x.last() == '\n' {
            seq!['\r', '\n']
        } else {
            seq![x.last()]
        };
        lemma_normalize_eol_append(crlf(init), piece);
        assert(x.last() == x[x.len() - 1]);
        if x.last() == '\n' {
            assert(piece.subrange(2, 2) =~= Seq::<char>::empty());
            assert(normalize_eol(Seq::<char>::empty()) =~= Seq::<char>::empty());
            assert(normalize_eol(piece) =~= seq!['\n']);
        } else {
            assert(piece.drop_first() =~= Seq::<char>::empty());
            assert(normalize_eol(Seq::<char>::empty()) =~= Seq::<char>::empty());
            assert(normalize_eol(piece) =~= seq![x.last()]);
        }
        assert(x =~= init + seq![x.last()]);
    }
}


/// What the listener writes for `text`, read back with its line endings
/// normalized, is exactly the sanitizer's output for `text`.
pub proof fn law_written_output_reads_back(text: Seq<char>)
    ensures
        normalize_eol(plan_output(text)) == sanitize_spec(text).0,
{
    let out = sanitize_spec(text).0;
    law_sanitized_output_has_no_cr(text);
    assert(!out.contains('\r')) by {
        if out.contains('\r') {
            let i = choose|i: int| 0 <= i < out.len() && out[i] == '\r';
            assert(no_cr(out));
        }
    }
    law_written_text_reads_back(out);
}

} // verus!
