//! Reflowing a shell session: joining explicit continuations, strings and
//! path tokens that a terminal wrapped, and leaving here-strings alone.
use vstd::prelude::*;

use crate::lits::{arr_at_double, arr_at_single, lit_at_double, lit_at_single};
use crate::sanitize::heuristics::{is_token_wrap_boundary, token_wrap_boundary};
use crate::shell::continuation::{
    continuation_kind, continuation_spec, line_quote_run, line_quote_run_exec, strip_continuation_marker,
    strip_marker_spec, ContinuationKind,
};
use crate::shell::heredoc::{repair_terminators, repair_terminators_chars};
use crate::unicode::string_from_chars;
use crate::text::{
    append_chars, ascii_alnum, chars_of, ends_with, ends_with_at, is_ascii_alnum, is_ws, split_lines,
    split_lines_vec, subvec, trim, trim_end, trim_end_len, trim_start, trim_start_len, trim_vec,
    views,
};

verus! {

/// What the shell reflow changed.
#[derive(Debug, Clone, Copy, PartialEq, Eq)]
pub struct ShellReflowSummary {
    pub unwrapped_lines: usize,
    pub repaired_string_wraps: usize,
    pub removed_cmd_carets: usize,
    pub joined_explicit_continuations: usize,
}

#[derive(Debug)]
pub struct ShellReflowResult {
    pub output: String,
    pub summary: ShellReflowSummary,
}

/// The number of spaces and tabs that start `line`.
pub open spec fn lead_blank(line: Seq<char>) -> nat
    decreases line.len(),
{
    if line.len() > 0 && (line[0] == ' ' || line[0] == '\t') {
        1 + lead_blank(line.drop_first())
    } else {
        0
    }
}

pub proof fn lemma_lead_blank_le(line: Seq<char>)
    ensures
        lead_blank(line) <= line.len(),
    decreases line.len(),
{
    if line.len() > 0 && (line[0] == ' ' || line[0] == '\t') {
        lemma_lead_blank_le(line.drop_first());
    }
}

pub fn count_leading_ws(line: &[char]) -> (r: usize)
    ensures
        r == lead_blank(line@),
        r <= line@.len(),
{
    let mut k: usize = 0;
    assert(line@.subrange(0, line@.len() as int) =~= line@);
    while k < line.len() && (line[k] == ' ' || line[k] == '\t')
        invariant
            k <= line@.len(),
            k + lead_blank(line@.subrange(k as int, line@.len() as int)) == lead_blank(line@),
        decreases line.len() - k,
    {
        assert(line@.subrange(k as int, line@.len() as int).drop_first() =~= line@.subrange(
            k + 1,
            line@.len() as int,
        ));
        k = k + 1;
    }
    k
}

/// `line` without its first `count` characters, unless that is none or all of them.
pub open spec fn trim_leading_by_spec(line: Seq<char>, count: nat) -> Seq<char> {
    if count == 0 || count >= line.len() {
        line
    } else {
        line.subrange(count as int, line.len() as int)
    }
}

/// Where a PowerShell here-string opens at the end of `line`, and its quote.
pub open spec fn here_start(line: Seq<char>) -> Option<(int, char)> {
    let t = trim_end(line);
    if ends_with(t, lit_at_double()) {
        Some((t.len() - 2, '"'))
    } else if ends_with(t, lit_at_single()) {
        Some((t.len() - 2, '\''))
    } else {
        None
    }
}

pub fn starts_here_string(line: &[char]) -> (r: Option<(usize, char)>)
    ensures
        match r {
            Some((i, d)) => here_start(line@) == Some((i as int, d)) && i <= line@.len(),
            None => here_start(line@) is None,
        },
{
    let n = trim_end_len(line);
    let t = &line[0..n];
    if ends_with_at(t, &arr_at_double()) {
        return Some((n - 2, '"'));
    }
    if ends_with_at(t, &arr_at_single()) {
        return Some((n - 2, '\''));
    }
    None
}

/// Whether `line` closes a here-string opened with quote `delim`.
pub open spec fn here_end(line: Seq<char>, delim: char) -> bool {
    let t = trim(line);
    t.len() == 2 && t[0] == delim && t[1] == '@'
}

pub fn ends_here_string(line: &[char], delim: char) -> (r: bool)
    ensures
        r == here_end(line@, delim),
{
    let t = trim_vec(line);
    t.len() == 2 && t[0] == delim && t[1] == '@'
}

/// A character that may sit on either side of a terminal wrap inside a string.
pub open spec fn join_char(c: char) -> bool {
    is_ascii_alnum(c) || c == '_' || c == '-' || c == '.' || c == '/' || c == '\\' || c == ':'
        || c == '$' || c == '@'
}

pub fn is_join_char(ch: char) -> (r: bool)
    ensures
        r == join_char(ch),
{
    ascii_alnum(ch) || ch == '_' || ch == '-' || ch == '.' || ch == '/' || ch == '\\' || ch == ':'
        || ch == '$' || ch == '@'
}

/// Whether an open string was wrapped between `line` and the indented `next`:
/// the wrap falls between two path-like characters.
pub open spec fn string_wrap(line: Seq<char>, next: Seq<char>) -> bool {
    let l = trim_end(line);
    let n = trim_start(next);
    l.len() > 0 && !is_ws(l.last()) && n.len() > 0 && lead_blank(next) != 0 && join_char(l.last())
        && join_char(n[0])
}

pub fn should_join_string_wrap(line: &[char], next: &[char]) -> (r: bool)
    ensures
        r == string_wrap(line@, next@),
{
    let ln = trim_end_len(line);
    if ln == 0 {
        return false;
    }
    let last = line[ln - 1];
    assert(line@.subrange(0, ln as int).last() == last);
    if crate::text::is_whitespace(last) {
        return false;
    }
    let k = trim_start_len(next);
    if k == next.len() {
        return false;
    }
    if count_leading_ws(next) == 0 {
        return false;
    }
    let first = next[k];
    assert(next@.subrange(k as int, next@.len() as int)[0] == first);
    is_join_char(last) && is_join_char(first)
}

/// The state carried from line to line.
pub struct ReflowState {
    pub in_single: bool,
    pub in_double: bool,
    pub here: Option<char>,
    pub skip: nat,
}

/// Counters: (unwrapped, string wraps, cmd carets, explicit continuations).
pub type Counts = (nat, nat, nat, nat);

pub open spec fn add_counts(a: Counts, b: Counts) -> Counts {
    (a.0 + b.0, a.1 + b.1, a.2 + b.2, a.3 + b.3)
}

pub open spec fn nl_unless(last: bool) -> Seq<char> {
    if last {
        Seq::<char>::empty()
    } else {
        seq!['\n']
    }
}

/// How line `k` of `lines` ends the output: joined to the next line (with the
/// counter it bumps), or ended with a newline.
pub enum JoinKind {
    Continuation(ContinuationKind),
    StringWrap,
    TokenWrap,
    NoJoin,
}

pub open spec fn join_kind(line: Seq<char>, next: Seq<char>, st: ReflowState, ins: bool, ind: bool) -> JoinKind {
    match continuation_spec(line, st.in_single, st.in_double) {
        Some(kind) => JoinKind::Continuation(kind),
        None => if (ins || ind) && string_wrap(line, next) {
            JoinKind::StringWrap
        } else if token_wrap_boundary(line, next, lead_blank(next)) {
            JoinKind::TokenWrap
        } else {
            JoinKind::NoJoin
        },
    }
}

/// What line `k` of `lines` contributes to the output, the counters it bumps,
/// and the state passed to the next line, from state `st`.
pub open spec fn reflow_line(lines: Seq<Seq<char>>, k: int, st: ReflowState) -> (Seq<char>, Counts, ReflowState) {
    let line = trim_leading_by_spec(lines[k], st.skip);
    let is_last = k == lines.len() - 1;
    match st.here {
        Some(d) => (
            line + nl_unless(is_last),
            (0, 0, 0, 0),
            ReflowState {
                in_single: st.in_single,
                in_double: st.in_double,
                here: if here_end(line, d) {
                    None
                } else {
                    Some(d)
                },
                skip: 0,
            },
        ),
        None => {
            let hs = here_start(line);
            let lq = match hs {
                Some((idx, _)) => line.subrange(0, idx),
                None => line,
            };
            let q = line_quote_run(lq, (st.in_single, st.in_double, false));
            match hs {
                Some((_, d)) => (
                    line + nl_unless(is_last),
                    (0, 0, 0, 0),
                    ReflowState { in_single: q.0, in_double: q.1, here: Some(d), skip: 0 },
                ),
                None => if is_last {
                    (line, (0, 0, 0, 0), ReflowState { in_single: q.0, in_double: q.1, here: None, skip: 0 })
                } else {
                    let next = lines[k + 1];
                    let jk = join_kind(line, next, st, q.0, q.1);
                    let out: Seq<char> = match jk {
                        JoinKind::Continuation(_) => strip_marker_spec(line),
                        JoinKind::NoJoin => line + seq!['\n'],
                        _ => line,
                    };
                    let c: Counts = match jk {
                        JoinKind::Continuation(ContinuationKind::Cmd) => (0, 0, 1, 0),
                        JoinKind::Continuation(_) => (0, 0, 0, 1),
                        JoinKind::StringWrap => (0, 1, 0, 0),
                        JoinKind::TokenWrap => (1, 0, 0, 0),
                        JoinKind::NoJoin => (0, 0, 0, 0),
                    };
                    (
                        out,
                        c,
                        ReflowState {
                            in_single: q.0,
                            in_double: q.1,
                            here: None,
                            skip: if jk is NoJoin {
                                0
                            } else {
                                lead_blank(next)
                            },
                        },
                    )
                },
            }
        },
    }
}

/// The reflowed output of `lines[k..]`, and its counters, from state `st`.
pub open spec fn reflow_from(lines: Seq<Seq<char>>, k: int, st: ReflowState) -> (Seq<char>, Counts)
    decreases lines.len() - k,
{
    if k < 0 || k >= lines.len() {
        (Seq::<char>::empty(), (0, 0, 0, 0))
    } else {
        let s = reflow_line(lines, k, st);
        let rest = reflow_from(lines, k + 1, s.2);
        (s.0 + rest.0, add_counts(s.1, rest.1))
    }
}

pub open spec fn initial_state() -> ReflowState {
    ReflowState { in_single: false, in_double: false, here: None, skip: 0 }
}

/// The shell reflow of `text`: heredoc terminators repaired, then the lines
/// reflowed as `reflow_from` describes.
pub open spec fn reflow_shell_spec(text: Seq<char>) -> (Seq<char>, Counts) {
    reflow_from(split_lines(repair_terminators(text)), 0, initial_state())
}

pub fn trim_leading_by(line: &[char], count: usize) -> (r: &[char])
    ensures
        r@ == trim_leading_by_spec(line@, count as nat),
{
    if count == 0 || count >= line.len() {
        line
    } else {
        &line[count..line.len()]
    }
}

pub open spec fn state_of(in_single: bool, in_double: bool, here: Option<char>, skip: usize) -> ReflowState {
    ReflowState { in_single, in_double, here, skip: skip as nat }
}

fn count_of(kind: u8) -> (r: (usize, usize, usize, usize))
    requires
        kind <= 4,
    ensures
        r.0 + r.1 + r.2 + r.3 <= 1,
        kind == 1 ==> r == (1usize, 0usize, 0usize, 0usize),
        kind == 2 ==> r == (0usize, 1usize, 0usize, 0usize),
        kind == 3 ==> r == (0usize, 0usize, 1usize, 0usize),
        kind == 4 ==> r == (0usize, 0usize, 0usize, 1usize),
        kind == 0 ==> r == (0usize, 0usize, 0usize, 0usize),
{
    if kind == 1 {
        (1, 0, 0, 0)
    } else if kind == 2 {
        (0, 1, 0, 0)
    } else if kind == 3 {
        (0, 0, 1, 0)
    } else if kind == 4 {
        (0, 0, 0, 1)
    } else {
        (0, 0, 0, 0)
    }
}

pub open spec fn counts_view(c: (usize, usize, usize, usize)) -> Counts {
    (c.0 as nat, c.1 as nat, c.2 as nat, c.3 as nat)
}

/// One step of the reflow: line `k` in state (`in_single`, `in_double`, `here`, `skip`).
fn reflow_line_exec(
    lines: &Vec<Vec<char>>,
    k: usize,
    in_single: bool,
    in_double: bool,
    here: Option<char>,
    skip: usize,
) -> (r: (Vec<char>, (usize, usize, usize, usize), (bool, bool, Option<char>, usize)))
    requires
        k < lines@.len(),
    ensures
        ({
            let s = reflow_line(views(lines@), k as int, state_of(in_single, in_double, here, skip));
            &&& r.0@ == s.0
            &&& counts_view(r.1) == s.1
            &&& state_of(r.2.0, r.2.1, r.2.2, r.2.3) == s.2
            &&& r.1.0 + r.1.1 + r.1.2 + r.1.3 <= 1
        }),
{
    let ghost ls = views(lines@);
    let raw = lines[k].as_slice();
    assert(ls[k as int] == raw@);
    let line: &[char] = if skip > 0 {
        trim_leading_by(raw, skip)
    } else {
        raw
    };
    let is_last = k == lines.len() - 1;
    let mut out: Vec<char> = Vec::new();
    append_chars(&mut out, line);
    assert(out@ =~= line@);
    match here {
        Some(d) => {
            if !is_last {
                out.push('\n');
            }
            assert(out@ =~= line@ + nl_unless(is_last));
            let nh = if ends_here_string(line, d) {
                None
            } else {
                Some(d)
            };
            return (out, count_of(0), (in_single, in_double, nh, 0));
        },
        None => {},
    }
    let hs = starts_here_string(line);
    let lq: &[char] = match hs {
        Some((idx, _)) => &line[0..idx],
        None => line,
    };
    let q = line_quote_run_exec(lq, lq.len(), (in_single, in_double, false));
    assert(lq@.subrange(0, lq@.len() as int) =~= lq@);
    match hs {
        Some((_, d)) => {
            if !is_last {
                out.push('\n');
            }
            assert(out@ =~= line@ + nl_unless(is_last));
            return (out, count_of(0), (q.0, q.1, Some(d), 0));
        },
        None => {},
    }
    if is_last {
        return (out, count_of(0), (q.0, q.1, None, 0));
    }
    let next = lines[k + 1].as_slice();
    assert(ls[k + 1] == next@);
    match continuation_kind(line, in_single, in_double) {
        Some(kind) => {
            let stripped = strip_continuation_marker(line);
            let mut o2: Vec<char> = Vec::new();
            append_chars(&mut o2, stripped);
            assert(o2@ =~= stripped@);
            let c = match kind {
                ContinuationKind::Cmd => count_of(3),
                _ => count_of(4),
            };
            (o2, c, (q.0, q.1, None, count_leading_ws(next)))
        },
        None => {
            if (q.0 || q.1) && should_join_string_wrap(line, next) {
                (out, count_of(2), (q.0, q.1, None, count_leading_ws(next)))
            } else if is_token_wrap_boundary(line, next, count_leading_ws(next)) {
                (out, count_of(1), (q.0, q.1, None, count_leading_ws(next)))
            } else {
                out.push('\n');
                assert(out@ =~= line@ + seq!['\n']);
                (out, count_of(0), (q.0, q.1, None, 0))
            }
        },
    }
}

/// Reflows a shell session given as characters; the output and the counters
/// are those of `reflow_shell_spec`.
pub fn reflow_shell_chars(text: &[char]) -> (r: (Vec<char>, ShellReflowSummary))
    ensures
        r.0@ == reflow_shell_spec(text@).0,
        (r.1.unwrapped_lines as nat, r.1.repaired_string_wraps as nat, r.1.removed_cmd_carets as nat,
            r.1.joined_explicit_continuations as nat) == reflow_shell_spec(text@).1,
{
    let repaired = repair_terminators_chars(text);
    let lines = split_lines_vec(repaired.as_slice());
    let ghost ls = views(lines@);
    let ghost total = reflow_from(ls, 0, initial_state());
    let mut out: Vec<char> = Vec::new();
    let mut in_single = false;
    let mut in_double = false;
    let mut here: Option<char> = None;
    let mut skip: usize = 0;
    let mut counts: (usize, usize, usize, usize) = (0, 0, 0, 0);
    let mut k: usize = 0;
    assert(state_of(false, false, None, 0) == initial_state());
    while k < lines.len()
        invariant
            ls == views(lines@),
            ls == split_lines(repair_terminators(text@)),
            total == reflow_from(ls, 0, initial_state()),
            k <= lines@.len(),
            counts.0 + counts.1 + counts.2 + counts.3 <= k,
            out@ + reflow_from(ls, k as int, state_of(in_single, in_double, here, skip)).0 == total.0,
            add_counts(counts_view(counts), reflow_from(ls, k as int, state_of(in_single, in_double, here, skip)).1)
                == total.1,
        decreases lines.len() - k,
    {
        let ghost before = out@;
        let (piece, c, st) = reflow_line_exec(&lines, k, in_single, in_double, here, skip);
        append_chars(&mut out, piece.as_slice());
        counts = (counts.0 + c.0, counts.1 + c.1, counts.2 + c.2, counts.3 + c.3);
        in_single = st.0;
        in_double = st.1;
        here = st.2;
        skip = st.3;
        k = k + 1;
        proof {
            let r1 = reflow_from(ls, k as int, state_of(in_single, in_double, here, skip));
            assert(out@ + r1.0 =~= before + (piece@ + r1.0));
        }
    }
    let summary = ShellReflowSummary {
        unwrapped_lines: counts.0,
        repaired_string_wraps: counts.1,
        removed_cmd_carets: counts.2,
        joined_explicit_continuations: counts.3,
    };
    assert(out@ =~= out@ + Seq::<char>::empty());
    (out, summary)
}

/// Reflows a shell session; see `reflow_shell_spec`.
pub fn reflow_shell(text: &str) -> (r: ShellReflowResult)
    ensures
        r.output@ == reflow_shell_spec(text@).0,
        (r.summary.unwrapped_lines as nat, r.summary.repaired_string_wraps as nat,
            r.summary.removed_cmd_carets as nat, r.summary.joined_explicit_continuations as nat)
            == reflow_shell_spec(text@).1,
{
    let chars = chars_of(text);
    let (output, summary) = reflow_shell_chars(chars.as_slice());
    ShellReflowResult { output: string_from_chars(output.as_slice()), summary }
}

} // verus!
