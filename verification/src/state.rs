//! Settings, the activity log and the runtime state of the app.
use vstd::prelude::*;
use vstd::std_specs::hash::DefaultHasherAdditionalSpecFns;

use std::collections::hash_map::DefaultHasher;
use std::hash::{Hash, Hasher};
use std::time::Duration;

use crate::lits::{arr_bad_config_prefix, lit_bad_config_prefix};
use crate::text::{
    append_chars, ascii_lower_seq, chars_of, decimal, decimal_u64, is_ascii_text, is_ws,
    lemma_trim_end_prefix, lemma_trim_start_suffix, subvec, trim, trim_end, trim_vec,
};
use crate::unicode::{lowercase_text, str_to_lowercase, string_from_chars};

verus! {

// ---------------------------------------------------------------------------
// Clock and hashing
// ---------------------------------------------------------------------------

#[verifier::external_type_specification]
#[verifier::external_body]
pub struct ExSystemTime(std::time::SystemTime);

#[verifier::external_type_specification]
#[verifier::external_body]
pub struct ExSystemTimeError(std::time::SystemTimeError);

/// Calls `SystemTime::now`. Nothing is claimed of the value: it is the time of
/// the call.
#[verifier::external_body]
fn system_now() -> std::time::SystemTime {
    std::time::SystemTime::now()
}

/// Calls `SystemTime::duration_since` with `UNIX_EPOCH`: the time elapsed since
/// the epoch, or an error for a clock set before it. Nothing is claimed of the
/// value.
#[verifier::external_body]
fn since_epoch(t: &std::time::SystemTime) -> Result<Duration, std::time::SystemTimeError> {
    t.duration_since(std::time::UNIX_EPOCH)
}

/// Calls `Duration::as_millis`: the whole milliseconds of `d`. Nothing is
/// claimed of the value, since `Duration` is opaque here.
#[verifier::external_body]
fn whole_millis(d: &Duration) -> u128 {
    d.as_millis()
}

/// Milliseconds since the Unix epoch by the system clock, truncated to 64 bits;
/// 0 for a clock set before the epoch.
pub fn now_ms() -> u64 {
    let now = system_now();
    match since_epoch(&now) {
        Ok(d) => {
            let ms = whole_millis(&d);
            ms as u64
        },
        Err(_) => 0,
    }
}

/// The writes that `<str as Hash>::hash` hands a hasher for the text `s`.
pub uninterp spec fn str_hash_writes(s: Seq<char>) -> Seq<Seq<u8>>;

/// Calls `<str as Hash>::hash`, which feeds the hasher the bytes of the text
/// and a terminator. Claimed: what it adds to the hasher's record of writes is
/// a function of the text alone (`str_hash_writes`); the bytes themselves are
/// not stated.
#[verifier::external_body]
fn hash_str_into(text: &str, hasher: &mut DefaultHasher)
    ensures
        final(hasher)@ == old(hasher)@ + str_hash_writes(text@),
{
    Hash::hash(text, hasher)
}

/// The hash of the text `s`: a fresh `DefaultHasher` fed `s` and finished.
pub open spec fn text_hash(s: Seq<char>) -> u64 {
    DefaultHasher::spec_finish(Seq::<Seq<u8>>::empty() + str_hash_writes(s))
}

/// The hash by which the app recognises a text it wrote itself.
pub fn hash_text(text: &str) -> (r: u64)
    ensures
        r == text_hash(text@),
{
    let mut hasher = DefaultHasher::new();
    hash_str_into(text, &mut hasher);
    hasher.finish()
}

// ---------------------------------------------------------------------------
// Strings
// ---------------------------------------------------------------------------

pub open spec fn opt_str(o: Option<String>) -> Option<Seq<char>> {
    match o {
        Some(s) => Some(s@),
        None => None,
    }
}

pub fn clone_string(s: &String) -> (r: String)
    ensures
        r@ == s@,
{
    s.clone()
}

pub fn clone_opt_string(o: &Option<String>) -> (r: Option<String>)
    ensures
        opt_str(r) == opt_str(*o),
{
    match o {
        Some(s) => Some(clone_string(s)),
        None => None,
    }
}

pub open spec fn strs(v: Seq<String>) -> Seq<Seq<char>> {
    v.map_values(|s: String| s@)
}

pub fn clone_strings(v: &Vec<String>) -> (r: Vec<String>)
    ensures
        strs(r@) == strs(v@),
{
    let mut out: Vec<String> = Vec::new();
    let mut i: usize = 0;
    while i < v.len()
        invariant
            i <= v@.len(),
            strs(out@) == strs(v@.subrange(0, i as int)),
        decreases v.len() - i,
    {
        let ghost before = out@;
        out.push(clone_string(&v[i]));
        assert(strs(out@) =~= strs(before).push(v@[i as int]@));
        assert(strs(v@.subrange(0, i + 1)) =~= strs(v@.subrange(0, i as int)).push(v@[i as int]@));
        i = i + 1;
    }
    assert(v@.subrange(0, v@.len() as int) =~= v@);
    out
}

// ---------------------------------------------------------------------------
// Configuration
// ---------------------------------------------------------------------------

#[derive(Clone, Debug)]
pub struct Config {
    pub enabled: bool,
    pub toast_enabled: bool,
    pub status_toast_enabled: bool,
    pub only_allowlisted: bool,
    pub allowlist: Vec<String>,
    pub run_on_startup: bool,
}

pub struct ConfigModel {
    pub enabled: bool,
    pub toast_enabled: bool,
    pub status_toast_enabled: bool,
    pub only_allowlisted: bool,
    pub allowlist: Seq<Seq<char>>,
    pub run_on_startup: bool,
}

impl View for Config {
    type V = ConfigModel;

    open spec fn view(&self) -> ConfigModel {
        ConfigModel {
            enabled: self.enabled,
            toast_enabled: self.toast_enabled,
            status_toast_enabled: self.status_toast_enabled,
            only_allowlisted: self.only_allowlisted,
            allowlist: strs(self.allowlist@),
            run_on_startup: self.run_on_startup,
        }
    }
}

/// The executables allowed by default.
pub open spec fn default_allowlist() -> Seq<Seq<char>> {
    seq![
        "windowsterminal.exe"@,
        "wt.exe"@,
        "code.exe"@,
        "conhost.exe"@,
        "pwsh.exe"@,
        "powershell.exe"@,
        "cmd.exe"@,
        "bash.exe"@,
        "wsl.exe"@,
    ]
}

impl Default for Config {
    fn default() -> (r: Config)
        ensures
            r.enabled,
            r.toast_enabled,
            r.status_toast_enabled,
            r.only_allowlisted,
            !r.run_on_startup,
            r@.allowlist == default_allowlist(),
    {
        let mut allowlist: Vec<String> = Vec::new();
        allowlist.push(String::from_str("windowsterminal.exe"));
        allowlist.push(String::from_str("wt.exe"));
        allowlist.push(String::from_str("code.exe"));
        allowlist.push(String::from_str("conhost.exe"));
        allowlist.push(String::from_str("pwsh.exe"));
        allowlist.push(String::from_str("powershell.exe"));
        allowlist.push(String::from_str("cmd.exe"));
        allowlist.push(String::from_str("bash.exe"));
        allowlist.push(String::from_str("wsl.exe"));
        let r = Config {
            enabled: true,
            toast_enabled: true,
            status_toast_enabled: true,
            only_allowlisted: true,
            allowlist,
            run_on_startup: false,
        };
        assert(r@.allowlist =~= default_allowlist());
        r
    }
}

pub fn clone_config(c: &Config) -> (r: Config)
    ensures
        r@ == c@,
{
    Config {
        enabled: c.enabled,
        toast_enabled: c.toast_enabled,
        status_toast_enabled: c.status_toast_enabled,
        only_allowlisted: c.only_allowlisted,
        allowlist: clone_strings(&c.allowlist),
        run_on_startup: c.run_on_startup,
    }
}

/// An allowlist entry as it is stored: trimmed and in lower case.
pub open spec fn normalize_entry(s: Seq<char>) -> Seq<char> {
    lowercase_text(trim(s))
}

/// The allowlist `ls` normalized: each entry trimmed and in lower case, empty
/// entries dropped, and only the first of equal entries kept.
pub open spec fn normalized_list(ls: Seq<Seq<char>>) -> Seq<Seq<char>>
    decreases ls.len(),
{
    if ls.len() == 0 {
        Seq::<Seq<char>>::empty()
    } else {
        let out = normalized_list(ls.drop_last());
        let e = normalize_entry(ls.last());
        if e.len() == 0 || out.contains(e) {
            out
        } else {
            out.push(e)
        }
    }
}

/// An ASCII allowlist entry as it is stored: trimmed and in ASCII lower case.
pub open spec fn ascii_entry(s: Seq<char>) -> Seq<char> {
    ascii_lower_seq(trim(s))
}

/// Whether every entry of `ls` is ASCII.
pub open spec fn all_ascii(ls: Seq<Seq<char>>) -> bool {
    forall|k: int| 0 <= k < ls.len() ==> is_ascii_text(#[trigger] ls[k])
}

/// `normalized_list` for an allowlist of ASCII entries, where lower-casing is
/// the ASCII mapping.
pub open spec fn ascii_normalized_list(ls: Seq<Seq<char>>) -> Seq<Seq<char>>
    decreases ls.len(),
{
    if ls.len() == 0 {
        Seq::<Seq<char>>::empty()
    } else {
        let out = ascii_normalized_list(ls.drop_last());
        let e = ascii_entry(ls.last());
        if e.len() == 0 || out.contains(e) {
            out
        } else {
            out.push(e)
        }
    }
}

proof fn lemma_ascii_subrange(s: Seq<char>, i: int, j: int)
    requires
        is_ascii_text(s),
        0 <= i <= j <= s.len(),
    ensures
        is_ascii_text(s.subrange(i, j)),
{
    assert forall|k: int| 0 <= k < j - i implies (#[trigger] s.subrange(i, j)[k] as u32) < 128 by {
        assert(s.subrange(i, j)[k] == s[i + k]);
    }
}

/// The trimmed text: ASCII where the text is, and with no white space at
/// either end.
proof fn lemma_trim_shape(x: Seq<char>)
    ensures
        is_ascii_text(x) ==> is_ascii_text(trim(x)),
        trim(x).len() == 0 || (!is_ws(trim(x)[0]) && !is_ws(trim(x).last())),
{
    let e = trim_end(x);
    lemma_trim_end_prefix(x);
    lemma_trim_start_suffix(e);
    let t = trim(x);
    if is_ascii_text(x) {
        lemma_ascii_subrange(x, 0, e.len() as int);
        lemma_ascii_subrange(e, e.len() - t.len(), e.len() as int);
    }
    if t.len() > 0 {
        assert(t.last() == e[e.len() - 1]);
        assert(e.last() == e[e.len() - 1]);
    }
}

/// An ASCII entry normalized once is left as it is by normalizing again.
proof fn lemma_ascii_entry_idempotent(x: Seq<char>)
    requires
        is_ascii_text(x),
    ensures
        is_ascii_text(ascii_entry(x)),
        ascii_entry(ascii_entry(x)) == ascii_entry(x),
{
    let t = trim(x);
    lemma_trim_shape(x);
    let u = ascii_lower_seq(t);
    assert forall|k: int| 0 <= k < u.len() implies (#[trigger] u[k] as u32) < 128 by {
        assert(u[k] == crate::text::ascii_lower(t[k]));
        assert((t[k] as u32) < 128);
    }
    if u.len() > 0 {
        assert(u[0] == crate::text::ascii_lower(t[0]));
        assert(u.last() == u[u.len() - 1]);
        assert(u[u.len() - 1] == crate::text::ascii_lower(t[t.len() - 1]));
        assert(t.last() == t[t.len() - 1]);
        assert(!is_ws(u[0]));
        assert(!is_ws(u.last()));
        assert(trim_end(u) == u);
        assert(crate::text::trim_start(u) == u);
    } else {
        assert(trim_end(u) == u);
        assert(crate::text::trim_start(u) == u);
    }
    assert(trim(u) == u);
    assert(ascii_lower_seq(u) =~= u);
}

/// What ASCII normalization makes of an ASCII allowlist: ASCII entries, none
/// twice, none empty, each left as it is by normalizing again.
proof fn lemma_ascii_list_shape(ls: Seq<Seq<char>>)
    requires
        all_ascii(ls),
    ensures
        all_ascii(ascii_normalized_list(ls)),
        forall|i: int, j: int|
            0 <= i < j < ascii_normalized_list(ls).len() ==> ascii_normalized_list(ls)[i]
                != ascii_normalized_list(ls)[j],
        forall|i: int|
            0 <= i < ascii_normalized_list(ls).len() ==> (#[trigger] ascii_normalized_list(ls)[i]).len()
                > 0,
        forall|i: int|
            0 <= i < ascii_normalized_list(ls).len() ==> ascii_entry(
                #[trigger] ascii_normalized_list(ls)[i],
            ) == ascii_normalized_list(ls)[i],
    decreases ls.len(),
{
    if ls.len() > 0 {
        let init = ls.drop_last();
        assert forall|k: int| 0 <= k < init.len() implies is_ascii_text(#[trigger] init[k]) by {
            assert(init[k] == ls[k]);
        }
        lemma_ascii_list_shape(init);
        assert(is_ascii_text(ls[ls.len() - 1]));
        lemma_ascii_entry_idempotent(ls.last());
    }
}

proof fn lemma_ascii_list_fixed(m: Seq<Seq<char>>)
    requires
        forall|i: int, j: int| 0 <= i < j < m.len() ==> m[i] != m[j],
        forall|i: int| 0 <= i < m.len() ==> (#[trigger] m[i]).len() > 0,
        forall|i: int| 0 <= i < m.len() ==> ascii_entry(#[trigger] m[i]) == m[i],
    ensures
        ascii_normalized_list(m) == m,
    decreases m.len(),
{
    if m.len() > 0 {
        let init = m.drop_last();
        assert forall|i: int, j: int| 0 <= i < j < init.len() implies init[i] != init[j] by {
            assert(init[i] == m[i] && init[j] == m[j]);
        }
        assert forall|i: int| 0 <= i < init.len() implies (#[trigger] init[i]).len() > 0 by {
            assert(init[i] == m[i]);
        }
        assert forall|i: int| 0 <= i < init.len() implies ascii_entry(#[trigger] init[i])
            == init[i] by {
            assert(init[i] == m[i]);
        }
        lemma_ascii_list_fixed(init);
        let last = m[m.len() - 1];
        assert(ascii_entry(last) == last);
        assert(!init.contains(last)) by {
            if init.contains(last) {
                let k = choose|k: int| 0 <= k < init.len() && init[k] == last;
                assert(m[k] == m[m.len() - 1]);
            }
        }
        assert(init.push(last) =~= m);
    }
}

/// Normalizing an allowlist of ASCII entries twice gives what normalizing it
/// once gives, and the result is ASCII again.
pub proof fn law_ascii_allowlist_idempotent(ls: Seq<Seq<char>>)
    requires
        all_ascii(ls),
    ensures
        all_ascii(ascii_normalized_list(ls)),
        ascii_normalized_list(ascii_normalized_list(ls)) == ascii_normalized_list(ls),
{
    lemma_ascii_list_shape(ls);
    lemma_ascii_list_fixed(ascii_normalized_list(ls));
}

fn contains_string(v: &Vec<String>, s: &String) -> (r: bool)
    ensures
        r == strs(v@).contains(s@),
{
    let mut i: usize = 0;
    while i < v.len()
        invariant
            i <= v@.len(),
            forall|k: int| 0 <= k < i ==> strs(v@)[k] != s@,
        decreases v.len() - i,
    {
        if v[i] == *s {
            assert(strs(v@)[i as int] == s@);
            return true;
        }
        i = i + 1;
    }
    false
}

fn normalize_entry_exec(entry: &String) -> (r: String)
    ensures
        r@ == normalize_entry(entry@),
        is_ascii_text(entry@) ==> r@ == ascii_entry(entry@),
{
    proof {
        lemma_trim_shape(entry@);
    }
    let chars = chars_of(entry.as_str());
    let trimmed = trim_vec(chars.as_slice());
    let t = string_from_chars(trimmed.as_slice());
    str_to_lowercase(t.as_str())
}

pub fn normalize_allowlist(list: &[String]) -> (r: Vec<String>)
    ensures
        strs(r@) == normalized_list(strs(list@)),
        all_ascii(strs(list@)) ==> strs(r@) == ascii_normalized_list(strs(list@)),
{
    let ghost ls = strs(list@);
    let mut out: Vec<String> = Vec::new();
    let mut i: usize = 0;
    while i < list.len()
        invariant
            ls == strs(list@),
            i <= list@.len(),
            strs(out@) == normalized_list(ls.subrange(0, i as int)),
            all_ascii(ls) ==> strs(out@) == ascii_normalized_list(ls.subrange(0, i as int)),
        decreases list.len() - i,
    {
        let ghost pre = ls.subrange(0, i + 1);
        assert(all_ascii(ls) ==> is_ascii_text(ls[i as int]));
        assert(pre.drop_last() =~= ls.subrange(0, i as int));
        assert(pre.last() == list@[i as int]@);
        let trimmed = normalize_entry_exec(&list[i]);
        if trimmed.as_str().is_empty() {
            i = i + 1;
            continue;
        }
        if !contains_string(&out, &trimmed) {
            let ghost before = out@;
            out.push(trimmed);
            assert(strs(out@) =~= strs(before).push(out@.last()@));
        }
        i = i + 1;
    }
    assert(ls.subrange(0, ls.len() as int) =~= ls);
    out
}

impl Config {
    /// Normalizes the allowlist (see `normalized_list`); the other settings stay.
    pub fn normalize(&mut self)
        ensures
            final(self)@.allowlist == normalized_list(old(self)@.allowlist),
            all_ascii(old(self)@.allowlist) ==> final(self)@.allowlist == ascii_normalized_list(
                old(self)@.allowlist,
            ),
            final(self).enabled == old(self).enabled,
            final(self).toast_enabled == old(self).toast_enabled,
            final(self).status_toast_enabled == old(self).status_toast_enabled,
            final(self).only_allowlisted == old(self).only_allowlisted,
            final(self).run_on_startup == old(self).run_on_startup,
    {
        self.allowlist = normalize_allowlist(self.allowlist.as_slice());
    }
}


/// The name under which a settings file that could not be read is kept.
pub open spec fn backup_name(timestamp_ms: u64) -> Seq<char> {
    lit_bad_config_prefix() + decimal(timestamp_ms as nat)
}

/// The file name for a settings file that could not be read, set aside at
/// `timestamp_ms`.
pub fn backup_file_name(timestamp_ms: u64) -> (r: String)
    ensures
        r@ == backup_name(timestamp_ms),
{
    let mut name: Vec<char> = Vec::new();
    append_chars(&mut name, &arr_bad_config_prefix());
    let digits = decimal_u64(timestamp_ms);
    append_chars(&mut name, digits.as_slice());
    string_from_chars(name.as_slice())
}

/// The settings to start with: those read from the settings file, or the
/// defaults where there was none or it could not be read; normalized.
pub fn loaded_config(parsed: Option<Config>) -> (r: Config)
    ensures
        parsed matches Some(c) ==> r@ == (ConfigModel { allowlist: normalized_list(c@.allowlist), ..c@ }),
        parsed is None ==> r@ == (ConfigModel {
            enabled: true,
            toast_enabled: true,
            status_toast_enabled: true,
            only_allowlisted: true,
            allowlist: normalized_list(default_allowlist()),
            run_on_startup: false,
        }),
        parsed is None ==> r@.allowlist == default_allowlist(),
{
    proof {
        law_default_allowlist_normalized();
    }
    let mut config = match parsed {
        Some(c) => c,
        None => Config::default(),
    };
    config.normalize();
    config
}

// ---------------------------------------------------------------------------
// Log and state
// ---------------------------------------------------------------------------

/// The most log entries kept.
pub const MAX_LOG_ENTRIES: usize = 10;

/// The most characters of a debug capture kept.
pub const DEBUG_MAX_CHARS: usize = 4096;

#[derive(Clone, Debug)]
pub struct LogEntry {
    pub timestamp_ms: u64,
    pub source_exe: Option<String>,
    pub summary: String,
}

pub struct LogEntryModel {
    pub timestamp_ms: u64,
    pub source_exe: Option<Seq<char>>,
    pub summary: Seq<char>,
}

impl View for LogEntry {
    type V = LogEntryModel;

    open spec fn view(&self) -> LogEntryModel {
        LogEntryModel {
            timestamp_ms: self.timestamp_ms,
            source_exe: opt_str(self.source_exe),
            summary: self.summary@,
        }
    }
}

pub open spec fn entries(v: Seq<LogEntry>) -> Seq<LogEntryModel> {
    v.map_values(|e: LogEntry| e@)
}

pub fn clone_entry(e: &LogEntry) -> (r: LogEntry)
    ensures
        r@ == e@,
{
    LogEntry {
        timestamp_ms: e.timestamp_ms,
        source_exe: clone_opt_string(&e.source_exe),
        summary: clone_string(&e.summary),
    }
}

pub fn clone_log(v: &Vec<LogEntry>) -> (r: Vec<LogEntry>)
    ensures
        entries(r@) == entries(v@),
{
    let mut out: Vec<LogEntry> = Vec::new();
    let mut i: usize = 0;
    while i < v.len()
        invariant
            i <= v@.len(),
            entries(out@) == entries(v@.subrange(0, i as int)),
        decreases v.len() - i,
    {
        let ghost before = out@;
        out.push(clone_entry(&v[i]));
        assert(entries(out@) =~= entries(before).push(v@[i as int]@));
        assert(entries(v@.subrange(0, i + 1)) =~= entries(v@.subrange(0, i as int)).push(v@[i as int]@));
        i = i + 1;
    }
    assert(v@.subrange(0, v@.len() as int) =~= v@);
    out
}

/// The state the settings window shows.
#[derive(Clone, Debug)]
pub struct UiState {
    pub config: Config,
    pub last_source_exe: Option<String>,
    pub log: Vec<LogEntry>,
    pub debug_last_clipboard: Option<String>,
    pub debug_last_summary: Option<String>,
}

/// The runtime state. Times are milliseconds by `now_ms`.
pub struct AppState {
    pub config: Config,
    pub paused_until: Option<u64>,
    pub last_written_hash: Option<u64>,
    pub self_write_until: Option<u64>,
    pub last_source_exe: Option<String>,
    pub log: Vec<LogEntry>,
    pub debug_last_clipboard: Option<String>,
    pub debug_last_summary: Option<String>,
}

/// The runtime state with texts as character sequences.
pub struct AppStateModel {
    pub config: ConfigModel,
    pub paused_until: Option<u64>,
    pub last_written_hash: Option<u64>,
    pub self_write_until: Option<u64>,
    pub last_source_exe: Option<Seq<char>>,
    pub log: Seq<LogEntryModel>,
    pub debug_last_clipboard: Option<Seq<char>>,
    pub debug_last_summary: Option<Seq<char>>,
}

impl View for AppState {
    type V = AppStateModel;

    open spec fn view(&self) -> AppStateModel {
        AppStateModel {
            config: self.config@,
            paused_until: self.paused_until,
            last_written_hash: self.last_written_hash,
            self_write_until: self.self_write_until,
            last_source_exe: opt_str(self.last_source_exe),
            log: entries(self.log@),
            debug_last_clipboard: opt_str(self.debug_last_clipboard),
            debug_last_summary: opt_str(self.debug_last_summary),
        }
    }
}

impl AppStateModel {
    /// The state with `entry` logged.
    pub open spec fn logged(self, entry: LogEntryModel) -> AppStateModel {
        AppStateModel { log: log_after(self.log, entry), ..self }
    }

    /// The state with the last clipboard text and summary recorded for debugging.
    pub open spec fn with_debug(self, raw: Seq<char>, summary: Seq<char>) -> AppStateModel {
        AppStateModel {
            debug_last_clipboard: Some(debug_prefix(raw)),
            debug_last_summary: Some(debug_prefix(summary)),
            ..self
        }
    }
}

/// The state the app starts with: the given settings, not paused, nothing
/// written or logged yet.
pub fn new_app_state(config: Config) -> (r: AppState)
    ensures
        r.config@ == config@,
        r.paused_until is None,
        r.last_written_hash is None,
        r.self_write_until is None,
        r.last_source_exe is None,
        r.log@.len() == 0,
        r.debug_last_clipboard is None,
        r.debug_last_summary is None,
{
    AppState {
        config,
        paused_until: None,
        last_written_hash: None,
        self_write_until: None,
        last_source_exe: None,
        log: Vec::new(),
        debug_last_clipboard: None,
        debug_last_summary: None,
    }
}

/// Whether a pause set until `paused_until` is still on at time `now`.
pub open spec fn paused_at(paused_until: Option<u64>, now: u64) -> bool {
    match paused_until {
        Some(until) => until > now,
        None => false,
    }
}

pub fn is_paused_at(state: &AppState, now: u64) -> (r: bool)
    ensures
        r == paused_at(state.paused_until, now),
{
    match state.paused_until {
        Some(until) => until > now,
        None => false,
    }
}

/// Whether the pause is on now, by the system clock.
pub fn is_paused(state: &AppState) -> (r: bool)
    ensures
        state.paused_until is None ==> !r,
        r ==> state.paused_until is Some,
{
    let now = now_ms();
    is_paused_at(state, now)
}

/// The log after `entry` is logged: newest first, at most `MAX_LOG_ENTRIES`.
pub open spec fn log_after(log: Seq<LogEntryModel>, entry: LogEntryModel) -> Seq<LogEntryModel> {
    let l = seq![entry] + log;
    if l.len() > MAX_LOG_ENTRIES {
        l.subrange(0, MAX_LOG_ENTRIES as int)
    } else {
        l
    }
}

/// Logs `entry`: it goes first, and only the newest `MAX_LOG_ENTRIES` are kept.
pub fn push_log(state: &mut AppState, entry: LogEntry)
    ensures
        final(state)@ == old(state)@.logged(entry@),
{
    let ghost e = entry@;
    let ghost before = state.log@;
    state.log.insert(0, entry);
    assert(entries(state.log@) =~= seq![e] + entries(before));
    if state.log.len() > MAX_LOG_ENTRIES {
        let ghost full = state.log@;
        state.log.truncate(MAX_LOG_ENTRIES);
        assert(entries(state.log@) =~= entries(full).subrange(0, MAX_LOG_ENTRIES as int));
    }
}

/// What the settings window is shown of the state.
pub fn ui_state(state: &AppState) -> (r: UiState)
    ensures
        r.config@ == state.config@,
        opt_str(r.last_source_exe) == opt_str(state.last_source_exe),
        entries(r.log@) == entries(state.log@),
        opt_str(r.debug_last_clipboard) == opt_str(state.debug_last_clipboard),
        opt_str(r.debug_last_summary) == opt_str(state.debug_last_summary),
{
    UiState {
        config: clone_config(&state.config),
        last_source_exe: clone_opt_string(&state.last_source_exe),
        log: clone_log(&state.log),
        debug_last_clipboard: clone_opt_string(&state.debug_last_clipboard),
        debug_last_summary: clone_opt_string(&state.debug_last_summary),
    }
}

/// The first `DEBUG_MAX_CHARS` characters of `s`.
pub open spec fn debug_prefix(s: Seq<char>) -> Seq<char> {
    if s.len() > DEBUG_MAX_CHARS {
        s.subrange(0, DEBUG_MAX_CHARS as int)
    } else {
        s
    }
}

/// The first `DEBUG_MAX_CHARS` characters of `value`.
pub fn truncate_debug(value: &str) -> (r: String)
    ensures
        r@ == debug_prefix(value@),
{
    let chars = chars_of(value);
    let n = if chars.len() > DEBUG_MAX_CHARS {
        DEBUG_MAX_CHARS
    } else {
        chars.len()
    };
    let kept = subvec(chars.as_slice(), 0, n);
    assert(chars@.subrange(0, chars@.len() as int) =~= chars@);
    string_from_chars(kept.as_slice())
}

/// Records the last clipboard text and summary, each cut to `DEBUG_MAX_CHARS`.
pub fn set_debug_capture(state: &mut AppState, raw: &str, summary: &str)
    ensures
        final(state)@ == old(state)@.with_debug(raw@, summary@),
{
    state.debug_last_clipboard = Some(truncate_debug(raw));
    state.debug_last_summary = Some(truncate_debug(summary));
}


// ---------------------------------------------------------------------------
// Laws
// ---------------------------------------------------------------------------

/// The log stays newest first and at most `MAX_LOG_ENTRIES` long: a logged
/// entry comes first, the older entries follow in their order, and the oldest
/// is dropped when the log is full.
pub proof fn law_log_newest_first_bounded(log: Seq<LogEntryModel>, entry: LogEntryModel)
    ensures
        log_after(log, entry).len() == (if log.len() + 1 > MAX_LOG_ENTRIES {
            MAX_LOG_ENTRIES as nat
        } else {
            log.len() + 1
        }),
        log_after(log, entry)[0] == entry,
        forall|i: int|
            0 <= i < log_after(log, entry).len() - 1 ==> #[trigger] log_after(log, entry)[i + 1]
                == log[i],
{
}

/// A normalized allowlist holds no entry twice and no empty entry; each of its
/// entries is some given entry normalized, and each given entry that is not
/// empty once normalized is in it.
pub proof fn law_normalized_allowlist(ls: Seq<Seq<char>>)
    ensures
        forall|i: int, j: int|
            0 <= i < j < normalized_list(ls).len() ==> normalized_list(ls)[i]
                != normalized_list(ls)[j],
        forall|i: int| 0 <= i < normalized_list(ls).len() ==> normalized_list(ls)[i].len() > 0,
        forall|i: int|
            #![trigger normalized_list(ls)[i]]
            0 <= i < normalized_list(ls).len() ==> exists|k: int|
                0 <= k < ls.len() && normalized_list(ls)[i] == normalize_entry(#[trigger] ls[k]),
        forall|k: int|
            0 <= k < ls.len() && normalize_entry(ls[k]).len() > 0 ==> normalized_list(ls).contains(
                normalize_entry(#[trigger] ls[k]),
            ),
    decreases ls.len(),
{
    if ls.len() > 0 {
        let init = ls.drop_last();
        law_normalized_allowlist(init);
        let out = normalized_list(init);
        let e = normalize_entry(ls.last());
        assert forall|i: int|
            #![trigger normalized_list(ls)[i]]
            0 <= i < normalized_list(ls).len() implies exists|k: int|
                0 <= k < ls.len() && normalized_list(ls)[i] == normalize_entry(#[trigger] ls[k]) by {
            if i < out.len() {
                let k = choose|k: int| 0 <= k < init.len() && out[i] == normalize_entry(#[trigger] init[k]);
                assert(ls[k] == init[k]);
            } else {
                assert(ls[ls.len() - 1] == ls.last());
            }
        }
        assert forall|k: int|
            0 <= k < ls.len() && normalize_entry(ls[k]).len() > 0 implies normalized_list(ls).contains(
                normalize_entry(#[trigger] ls[k]),
            ) by {
            if k < init.len() {
                assert(ls[k] == init[k]);
                let j = choose|j: int| 0 <= j < out.len() && out[j] == normalize_entry(init[k]);
                assert(normalized_list(ls)[j] == out[j]);
            } else {
                assert(ls[k] == ls.last());
                if !(e.len() == 0 || out.contains(e)) {
                    assert(normalized_list(ls)[out.len() as int] == e);
                } else {
                    let j = choose|j: int| 0 <= j < out.len() && out[j] == e;
                    assert(normalized_list(ls)[j] == out[j]);
                }
            }
        }
    }
}


proof fn lemma_normalized_list_fixed(m: Seq<Seq<char>>)
    requires
        forall|i: int, j: int| 0 <= i < j < m.len() ==> m[i] != m[j],
        forall|i: int| 0 <= i < m.len() ==> (#[trigger] m[i]).len() > 0,
        forall|i: int| 0 <= i < m.len() ==> normalize_entry(#[trigger] m[i]) == m[i],
    ensures
        normalized_list(m) == m,
    decreases m.len(),
{
    if m.len() > 0 {
        let init = m.drop_last();
        assert forall|i: int, j: int| 0 <= i < j < init.len() implies init[i] != init[j] by {
            assert(init[i] == m[i] && init[j] == m[j]);
        }
        assert forall|i: int| 0 <= i < init.len() implies (#[trigger] init[i]).len() > 0 by {
            assert(init[i] == m[i]);
        }
        assert forall|i: int| 0 <= i < init.len() implies normalize_entry(#[trigger] init[i])
            == init[i] by {
            assert(init[i] == m[i]);
        }
        lemma_normalized_list_fixed(init);
        let last = m[m.len() - 1];
        assert(normalize_entry(last) == last);
        assert(!init.contains(last)) by {
            if init.contains(last) {
                let k = choose|k: int| 0 <= k < init.len() && init[k] == last;
                assert(m[k] == m[m.len() - 1]);
            }
        }
        assert(init.push(last) =~= m);
    }
}

/// Normalizing an allowlist twice gives what normalizing it once gives, where
/// trimming and lower-casing leave each normalized entry as it is.
pub proof fn law_normalize_allowlist_idempotent(ls: Seq<Seq<char>>)
    requires
        forall|i: int|
            0 <= i < normalized_list(ls).len() ==> normalize_entry(#[trigger] normalized_list(ls)[i])
                == normalized_list(ls)[i],
    ensures
        normalized_list(normalized_list(ls)) == normalized_list(ls),
{
    law_normalized_allowlist(ls);
    lemma_normalized_list_fixed(normalized_list(ls));
}


/// A text with no white space at either end and no ASCII capital is its own
/// ASCII entry.
proof fn lemma_ascii_entry_of_plain(s: Seq<char>)
    requires
        s.len() > 0,
        !is_ws(s[0]),
        !is_ws(s.last()),
        forall|i: int| 0 <= i < s.len() ==> !('A' <= #[trigger] s[i] && s[i] <= 'Z'),
    ensures
        ascii_entry(s) == s,
{
    assert(trim_end(s) == s);
    assert(crate::text::trim_start(s) == s);
    assert(ascii_lower_seq(s) =~= s);
}

/// The default allowlist is already normalized: ASCII, lower case, trimmed,
/// with no entry twice.
pub proof fn law_default_allowlist_normalized()
    ensures
        all_ascii(default_allowlist()),
        ascii_normalized_list(default_allowlist()) == default_allowlist(),
{
    let d = default_allowlist();
    assert forall|k: int| 0 <= k < d.len() implies is_ascii_text(#[trigger] d[k]) by {
        reveal_strlit("windowsterminal.exe");
        reveal_strlit("wt.exe");
        reveal_strlit("code.exe");
        reveal_strlit("conhost.exe");
        reveal_strlit("pwsh.exe");
        reveal_strlit("powershell.exe");
        reveal_strlit("cmd.exe");
        reveal_strlit("bash.exe");
        reveal_strlit("wsl.exe");
    }
    reveal_strlit("windowsterminal.exe");
    reveal_strlit("wt.exe");
    reveal_strlit("code.exe");
    reveal_strlit("conhost.exe");
    reveal_strlit("pwsh.exe");
    reveal_strlit("powershell.exe");
    reveal_strlit("cmd.exe");
    reveal_strlit("bash.exe");
    reveal_strlit("wsl.exe");
    assert forall|k: int| 0 <= k < d.len() implies ascii_entry(#[trigger] d[k]) == d[k] by {
        lemma_ascii_entry_of_plain(d[k]);
    }
    assert forall|i: int, j: int| 0 <= i < j < d.len() implies d[i] != d[j] by {
        if d[i] == d[j] {
            assert(d[i].len() == d[j].len());
            assert(d[i][0] == d[j][0]);
            assert(d[i][1] == d[j][1]);
        }
    }
    lemma_ascii_list_fixed(d);
}

} // verus!
