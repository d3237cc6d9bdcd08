//! Deciding whether a multi-line text is a shell session, and of which
//! flavour, from per-line signals.
use vstd::prelude::*;

use crate::lits::{arr_cd_space, arr_copy_space, arr_dir, arr_dollar_brace, arr_dollar_paren, arr_dollar_space, arr_env_lower, arr_env_upper, arr_export_space, arr_get_verb, arr_hash_space, arr_import_verb, arr_invoke_verb, arr_new_verb, arr_ps_prompt, arr_ps_space, arr_remove_verb, arr_select_verb, arr_set_space, arr_set_verb, arr_start_verb, arr_stop_verb, arr_sudo_space, arr_test_verb, arr_write_verb, arr_wsl_share, lit_cd_space, lit_copy_space, lit_dir, lit_dollar_brace, lit_dollar_paren, lit_dollar_space, lit_env_lower, lit_env_upper, lit_export_space, lit_get_verb, lit_hash_space, lit_import_verb, lit_invoke_verb, lit_new_verb, lit_ps_prompt, lit_ps_space, lit_remove_verb, lit_select_verb, lit_set_space, lit_set_verb, lit_start_verb, lit_stop_verb, lit_sudo_space, lit_test_verb, lit_write_verb, lit_wsl_share};
use crate::shell::detect_helpers::{has_heredoc_op, has_heredoc_operator, powershell_signal_score, ps_signal};
use crate::text::{
    ascii_alpha, chars_of, contains_at, contains_char, contains_seq, is_ascii_alpha, split_lines,
    split_lines_vec, starts_with, starts_with_at, trim, trim_end, trim_end_len, trim_start,
    total_len, trim_start_vec, trim_vec, views,
};

verus! {

#[derive(Debug, Clone, Copy, PartialEq, Eq)]
pub enum ShellFlavor {
    Bash,
    PowerShell,
    Cmd,
}

/// `l` without one trailing carriage return.
pub open spec fn strip_cr(l: Seq<char>) -> Seq<char> {
    if l.len() > 0 && l.last() == '\r' {
        l.drop_last()
    } else {
        l
    }
}

/// The lines of a text that neither is empty nor ends in white space (what
/// `str::lines` gives for such a text).
pub open spec fn text_lines(t: Seq<char>) -> Seq<Seq<char>> {
    split_lines(t).map_values(|l: Seq<char>| strip_cr(l))
}

pub open spec fn has_ps_verb(l: Seq<char>) -> bool {
    starts_with(l, lit_get_verb()) || starts_with(l, lit_set_verb()) || starts_with(
        l,
        lit_new_verb(),
    ) || starts_with(l, lit_remove_verb()) || starts_with(l, lit_write_verb()) || starts_with(
        l,
        lit_select_verb(),
    ) || starts_with(l, lit_start_verb()) || starts_with(l, lit_stop_verb()) || starts_with(
        l,
        lit_test_verb(),
    ) || starts_with(l, lit_invoke_verb()) || starts_with(l, lit_import_verb())
}

pub fn has_powershell_verb(line: &[char]) -> (r: bool)
    ensures
        r == has_ps_verb(line@),
{
    starts_with_at(line, &arr_get_verb()) || starts_with_at(line, &arr_set_verb())
        || starts_with_at(line, &arr_new_verb()) || starts_with_at(line, &arr_remove_verb())
        || starts_with_at(line, &arr_write_verb()) || starts_with_at(line, &arr_select_verb())
        || starts_with_at(line, &arr_start_verb()) || starts_with_at(line, &arr_stop_verb())
        || starts_with_at(line, &arr_test_verb()) || starts_with_at(line, &arr_invoke_verb())
        || starts_with_at(line, &arr_import_verb())
}

/// A PowerShell variable assignment: `$name ... = ...`.
pub open spec fn is_ps_assignment(l: Seq<char>) -> bool {
    let t = trim_start(l);
    t.len() > 0 && t[0] == '$' && !starts_with(t, lit_dollar_space()) && t.subrange(
        1,
        t.len() as int,
    ).contains('=')
}

pub fn is_powershell_assignment(line: &[char]) -> (r: bool)
    ensures
        r == is_ps_assignment(line@),
{
    let t = trim_start_vec(line);
    if t.len() == 0 || t[0] != '$' {
        return false;
    }
    if starts_with_at(t.as_slice(), &arr_dollar_space()) {
        return false;
    }
    let rest = &t.as_slice()[1..t.len()];
    contains_char(rest, '=')
}

/// A cmd prompt such as `C:\`.
pub open spec fn is_drive(l: Seq<char>) -> bool {
    l.len() >= 3 && is_ascii_alpha(l[0]) && l[1] == ':' && l[2] == '\\'
}

pub fn is_drive_prompt(line: &[char]) -> (r: bool)
    ensures
        r == is_drive(line@),
{
    line.len() >= 3 && ascii_alpha(line[0]) && line[1] == ':' && line[2] == '\\'
}

/// The flavour whose continuation marker ends `l`.
pub open spec fn trailing_marker(l: Seq<char>) -> Option<ShellFlavor> {
    let t = trim_end(l);
    if t.len() == 0 {
        None
    } else if t.last() == '\\' {
        Some(ShellFlavor::Bash)
    } else if t.last() == '`' {
        Some(ShellFlavor::PowerShell)
    } else if t.last() == '^' {
        Some(ShellFlavor::Cmd)
    } else {
        None
    }
}

pub fn continuation_kind(line: &[char]) -> (r: Option<ShellFlavor>)
    ensures
        r == trailing_marker(line@),
{
    let n = trim_end_len(line);
    if n == 0 {
        return None;
    }
    let last = line[n - 1];
    assert(line@.subrange(0, n as int).last() == last);
    if last == '\\' {
        Some(ShellFlavor::Bash)
    } else if last == '`' {
        Some(ShellFlavor::PowerShell)
    } else if last == '^' {
        Some(ShellFlavor::Cmd)
    } else {
        None
    }
}

pub open spec fn ite(b: bool, n: nat) -> nat {
    if b {
        n
    } else {
        0
    }
}

/// The (bash, PowerShell, cmd) scores that one line contributes; `lt` is the
/// line without leading white space.
pub open spec fn line_scores(lt: Seq<char>) -> (nat, nat, nat) {
    let m = trailing_marker(lt);
    (
        ite(starts_with(lt, lit_dollar_space()) || starts_with(lt, lit_hash_space()), 2) + ite(
            starts_with(lt, lit_export_space()) || starts_with(lt, lit_sudo_space())
                || starts_with(lt, lit_cd_space()),
            1,
        ) + ite(
            contains_seq(lt, lit_dollar_paren()) || contains_seq(lt, lit_dollar_brace()),
            1,
        ) + ite(has_heredoc_op(lt), 3) + ite(m == Some(ShellFlavor::Bash), 2),
        ite(starts_with(lt, lit_ps_space()) || starts_with(lt, lit_ps_prompt()), 3) + ite(
            starts_with(lt, lit_env_lower()) || starts_with(lt, lit_env_upper()),
            3,
        ) + ite(is_ps_assignment(lt), 2) + ite(has_ps_verb(lt), 2) + ps_signal(lt) + ite(
            m == Some(ShellFlavor::PowerShell),
            2,
        ),
        ite(is_drive(lt), 3) + ite(
            starts_with(lt, lit_set_space()) || starts_with(lt, lit_dir()) || starts_with(
                lt,
                lit_copy_space(),
            ),
            1,
        ) + ite(m == Some(ShellFlavor::Cmd), 2),
    )
}

/// The scores summed over `lines`.
pub open spec fn scores_fold(lines: Seq<Seq<char>>) -> (nat, nat, nat)
    decreases lines.len(),
{
    if lines.len() == 0 {
        (0, 0, 0)
    } else {
        let p = scores_fold(lines.drop_last());
        let s = line_scores(trim_start(lines.last()));
        (p.0 + s.0, p.1 + s.1, p.2 + s.2)
    }
}

/// The winning flavour and its score; PowerShell wins ties, then bash.
pub open spec fn max_score_spec(bash: nat, ps: nat, cmd: nat) -> (ShellFlavor, nat) {
    if ps >= bash && ps >= cmd {
        (ShellFlavor::PowerShell, ps)
    } else if bash >= cmd {
        (ShellFlavor::Bash, bash)
    } else {
        (ShellFlavor::Cmd, cmd)
    }
}

pub fn max_score(bash: u128, ps: u128, cmd: u128) -> (r: (ShellFlavor, u128))
    ensures
        (r.0, r.1 as nat) == max_score_spec(bash as nat, ps as nat, cmd as nat),
{
    if ps >= bash && ps >= cmd {
        return (ShellFlavor::PowerShell, ps);
    }
    if bash >= cmd {
        return (ShellFlavor::Bash, bash);
    }
    (ShellFlavor::Cmd, cmd)
}

/// The shell flavour of a text: none for an empty or one-line text; else the
/// best-scoring flavour over its lines, where a `\\wsl$` path adds 2 to
/// PowerShell and 1 to cmd, if that score is at least 2.
pub open spec fn shell_flavor(text: Seq<char>) -> Option<ShellFlavor> {
    let t = trim(text);
    if t.len() == 0 || !t.contains('\n') {
        None
    } else {
        let s = scores_fold(text_lines(t));
        let wsl = contains_seq(t, lit_wsl_share());
        let m = max_score_spec(s.0, s.1 + ite(wsl, 2), s.2 + ite(wsl, 1));
        if m.1 >= 2 {
            Some(m.0)
        } else {
            None
        }
    }
}

pub open spec fn is_shell_like(text: Seq<char>) -> bool {
    shell_flavor(text) is Some
}

pub proof fn lemma_split_lines_bounds(s: Seq<char>)
    ensures
        split_lines(s).len() <= s.len() + 1,
        forall|i: int| 0 <= i < split_lines(s).len() ==> (#[trigger] split_lines(s)[i]).len() <= s.len(),
    decreases s.len(),
{
    if s.len() > 0 {
        lemma_split_lines_bounds(s.drop_last());
        crate::text::lemma_split_lines_props(s.drop_last());
    }
}

proof fn lemma_ps_signal_bound(l: Seq<char>)
    ensures
        4 * ps_signal(l) <= l.len() + 12,
{
    crate::shell::detect_helpers::lemma_ps_signal_le(l);
}

fn strip_cr_vec(l: &Vec<char>) -> (r: Vec<char>)
    ensures
        r@ == strip_cr(l@),
{
    let n = l.len();
    if n > 0 && l[n - 1] == '\r' {
        crate::text::subvec(l.as_slice(), 0, n - 1)
    } else {
        crate::text::subvec(l.as_slice(), 0, n)
    }
}

fn ite_u64(b: bool, n: u64) -> (r: u64)
    ensures
        r as nat == ite(b, n as nat),
{
    if b {
        n
    } else {
        0
    }
}

fn bash_score_exec(lt: &[char], m: Option<ShellFlavor>) -> (r: u64)
    ensures
        r as nat == line_scores(lt@).0 || m != trailing_marker(lt@),
        r <= 9,
{
    let a = starts_with_at(lt, &arr_dollar_space()) || starts_with_at(lt, &arr_hash_space());
    let b = starts_with_at(lt, &arr_export_space()) || starts_with_at(lt, &arr_sudo_space())
        || starts_with_at(lt, &arr_cd_space());
    let c = contains_at(lt, &arr_dollar_paren()) || contains_at(lt, &arr_dollar_brace());
    let d = has_heredoc_operator(lt);
    let e = match m {
        Some(ShellFlavor::Bash) => true,
        _ => false,
    };
    ite_u64(a, 2) + ite_u64(b, 1) + ite_u64(c, 1) + ite_u64(d, 3) + ite_u64(e, 2)
}

fn ps_score_exec(lt: &[char], m: Option<ShellFlavor>) -> (r: u64)
    ensures
        r as nat == line_scores(lt@).1 || m != trailing_marker(lt@),
        4 * r <= lt@.len() + 60,
{
    assert(lt@.len() == lt.len());
    let sig = powershell_signal_score(lt);
    proof {
        lemma_ps_signal_bound(lt@);
    }
    let a = starts_with_at(lt, &arr_ps_space()) || starts_with_at(lt, &arr_ps_prompt());
    let b = starts_with_at(lt, &arr_env_lower()) || starts_with_at(lt, &arr_env_upper());
    let c = is_powershell_assignment(lt);
    let d = has_powershell_verb(lt);
    let e = match m {
        Some(ShellFlavor::PowerShell) => true,
        _ => false,
    };
    ite_u64(a, 3) + ite_u64(b, 3) + ite_u64(c, 2) + ite_u64(d, 2) + (sig as u64) + ite_u64(e, 2)
}

fn cmd_score_exec(lt: &[char], m: Option<ShellFlavor>) -> (r: u64)
    ensures
        r as nat == line_scores(lt@).2 || m != trailing_marker(lt@),
        r <= 6,
{
    let a = is_drive_prompt(lt);
    let b = starts_with_at(lt, &arr_set_space()) || starts_with_at(lt, &arr_dir())
        || starts_with_at(lt, &arr_copy_space());
    let c = match m {
        Some(ShellFlavor::Cmd) => true,
        _ => false,
    };
    ite_u64(a, 3) + ite_u64(b, 1) + ite_u64(c, 2)
}

fn line_scores_exec(lt: &[char]) -> (r: (u64, u64, u64))
    ensures
        (r.0 as nat, r.1 as nat, r.2 as nat) == line_scores(lt@),
        r.0 <= 9,
        4 * r.1 <= lt@.len() + 60,
        r.2 <= 6,
{
    let m = continuation_kind(lt);
    (bash_score_exec(lt, m), ps_score_exec(lt, m), cmd_score_exec(lt, m))
}

pub fn detect_shell_flavor(text: &[char]) -> (r: Option<ShellFlavor>)
    ensures
        r == shell_flavor(text@),
{
    let trimmed = trim_vec(text);
    proof {
        crate::text::lemma_trim_end_prefix(text@);
        crate::text::lemma_trim_start_suffix(trim_end(text@));
    }
    if trimmed.len() == 0 || !contains_char(trimmed.as_slice(), '\n') {
        return None;
    }
    let lines = split_lines_vec(trimmed.as_slice());
    let ghost ls = text_lines(trimmed@);
    proof {
        lemma_split_lines_bounds(trimmed@);
        assert forall|k: int| 0 <= k < lines@.len() implies (#[trigger] lines@[k])@.len()
            <= trimmed@.len() by {
            assert(views(lines@)[k] == lines@[k]@);
        }
    }
    proof {
        crate::text::lemma_split_total_len(trimmed@);
    }
    assert(trimmed@.len() == trimmed.len());
    let mut bash: u128 = 0;
    let mut ps: u128 = 0;
    let mut cmd: u128 = 0;
    let mut i: usize = 0;
    while i < lines.len()
        invariant
            trimmed@.len() <= usize::MAX,
            views(lines@) == split_lines(trimmed@),
            total_len(views(lines@)) + views(lines@).len() == trimmed@.len() + 1,
            ls == text_lines(trimmed@),
            ls.len() == lines@.len(),
            i <= lines@.len(),
            (bash as nat, ps as nat, cmd as nat) == scores_fold(ls.subrange(0, i as int)),
            bash <= 9 * i,
            4 * ps <= total_len(views(lines@).subrange(0, i as int)) + 60 * i,
            cmd <= 6 * i,
        decreases lines.len() - i,
    {
        assert(views(lines@)[i as int] == lines@[i as int]@);
        let l = strip_cr_vec(&lines[i]);
        let lt = trim_start_vec(l.as_slice());
        proof {
            crate::text::lemma_trim_start_suffix(l@);
            assert(ls[i as int] == strip_cr(split_lines(trimmed@)[i as int]));
            assert(ls.subrange(0, i + 1).drop_last() =~= ls.subrange(0, i as int));
            let vs = views(lines@);
            assert(vs.subrange(0, i + 1).drop_last() =~= vs.subrange(0, i as int));
            assert(vs.subrange(0, i + 1).last() == vs[i as int]);
            crate::text::lemma_total_len_prefix(vs, i + 1);
        }
        let (b, p, c) = line_scores_exec(lt.as_slice());
        bash = bash + b as u128;
        ps = ps + p as u128;
        cmd = cmd + c as u128;
        i = i + 1;
    }
    assert(ls.subrange(0, ls.len() as int) =~= ls);
    assert(views(lines@).subrange(0, i as int) =~= views(lines@));
    assert(4 * ps <= 61 * (trimmed@.len() + 1));
    if contains_at(trimmed.as_slice(), &arr_wsl_share()) {
        ps = ps + 2;
        cmd = cmd + 1;
    }
    let (flavor, score) = max_score(bash, ps, cmd);
    if score >= 2 {
        Some(flavor)
    } else {
        None
    }
}

pub fn looks_shell_like_chars(text: &[char]) -> (r: bool)
    ensures
        r == is_shell_like(text@),
{
    detect_shell_flavor(text).is_some()
}

/// Whether `text` is a shell session (see `shell_flavor`).
pub fn looks_shell_like(text: &str) -> (r: bool)
    ensures
        r == is_shell_like(text@),
{
    let chars = chars_of(text);
    looks_shell_like_chars(chars.as_slice())
}

} // verus!
