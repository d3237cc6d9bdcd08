//! Explicit line continuations: a trailing `\` (bash), `` ` `` (PowerShell)
//! or `^` (cmd) that stands after white space and outside quotes.
use vstd::prelude::*;

use crate::text::{is_whitespace, is_ws, trim_end, trim_end_len};

verus! {

#[derive(Debug, Clone, Copy, PartialEq, Eq)]
pub enum ContinuationKind {
    Bash,
    PowerShell,
    Cmd,
}

/// The line quote automaton: (inside single quotes, inside double quotes,
/// next character escaped) after one more character. A backslash or backtick
/// outside single quotes escapes the next character.
pub open spec fn line_quote_step(st: (bool, bool, bool), ch: char) -> (bool, bool, bool) {
    if st.2 {
        (st.0, st.1, false)
    } else if !st.0 && (ch == '\\' || ch == '`') {
        (st.0, st.1, true)
    } else if ch == '\'' && !st.1 {
        (!st.0, st.1, false)
    } else if ch == '"' && !st.0 {
        (st.0, !st.1, false)
    } else {
        st
    }
}

/// The line quote automaton run over all of `s` from state `st`.
pub open spec fn line_quote_run(s: Seq<char>, st: (bool, bool, bool)) -> (bool, bool, bool)
    decreases s.len(),
{
    if s.len() == 0 {
        st
    } else {
        line_quote_step(line_quote_run(s.drop_last(), st), s.last())
    }
}

pub fn line_quote_step_exec(st: (bool, bool, bool), ch: char) -> (r: (bool, bool, bool))
    ensures
        r == line_quote_step(st, ch),
{
    let (ins, ind, esc) = st;
    if esc {
        (ins, ind, false)
    } else if !ins && (ch == '\\' || ch == '`') {
        (ins, ind, true)
    } else if ch == '\'' && !ind {
        (!ins, ind, false)
    } else if ch == '"' && !ins {
        (ins, !ind, false)
    } else {
        st
    }
}

/// Runs the line quote automaton over `line[..stop]`.
pub fn line_quote_run_exec(line: &[char], stop: usize, st: (bool, bool, bool)) -> (r: (
    bool,
    bool,
    bool,
))
    requires
        stop <= line@.len(),
    ensures
        r == line_quote_run(line@.subrange(0, stop as int), st),
{
    let mut cur = st;
    let mut i: usize = 0;
    assert(line@.subrange(0, 0) =~= Seq::<char>::empty());
    while i < stop
        invariant
            i <= stop <= line@.len(),
            cur == line_quote_run(line@.subrange(0, i as int), st),
        decreases stop - i,
    {
        assert(line@.subrange(0, i + 1).drop_last() =~= line@.subrange(0, i as int));
        cur = line_quote_step_exec(cur, line[i]);
        i = i + 1;
    }
    cur
}

/// Whether position `stop` of `line` lies inside quotes, the line starting in
/// quote state (`in_single`, `in_double`); a position past the end is taken
/// as the end of the line.
pub open spec fn in_quotes_at(line: Seq<char>, stop: int, in_single: bool, in_double: bool) -> bool {
    let end = if stop < line.len() {
        stop
    } else {
        line.len() as int
    };
    let st = line_quote_run(line.subrange(0, end), (in_single, in_double, false));
    st.0 || st.1
}

pub fn is_in_quotes_at(line: &[char], stop_at: usize, in_single: bool, in_double: bool) -> (r:
    bool)
    ensures
        r == in_quotes_at(line@, stop_at as int, in_single, in_double),
{
    let end = if stop_at < line.len() {
        stop_at
    } else {
        line.len()
    };
    let st = line_quote_run_exec(line, end, (in_single, in_double, false));
    st.0 || st.1
}

/// The index and value of the last character of `text`.
pub open spec fn last_char_spec(text: Seq<char>) -> Option<(int, char)> {
    if text.len() == 0 {
        None
    } else {
        Some((text.len() - 1, text.last()))
    }
}

pub fn last_char_with_index(text: &[char]) -> (r: Option<(usize, char)>)
    ensures
        match r {
            Some((i, c)) => last_char_spec(text@) == Some((i as int, c)),
            None => last_char_spec(text@) is None,
        },
{
    if text.len() == 0 {
        None
    } else {
        Some((text.len() - 1, text[text.len() - 1]))
    }
}

pub open spec fn marker_kind(c: char) -> Option<ContinuationKind> {
    if c == '\\' {
        Some(ContinuationKind::Bash)
    } else if c == '`' {
        Some(ContinuationKind::PowerShell)
    } else if c == '^' {
        Some(ContinuationKind::Cmd)
    } else {
        None
    }
}

/// The continuation that `line` ends with: its last non-white-space character
/// is a continuation marker, preceded by white space, and not inside quotes
/// when the line starts in quote state (`in_single`, `in_double`).
pub open spec fn continuation_spec(line: Seq<char>, in_single: bool, in_double: bool) -> Option<
    ContinuationKind,
> {
    let t = trim_end(line);
    if t.len() == 0 {
        None
    } else {
        let mi = t.len() - 1;
        match marker_kind(t.last()) {
            None => None,
            Some(kind) => if mi == 0 || !is_ws(t[mi - 1]) || in_quotes_at(
                line,
                mi,
                in_single,
                in_double,
            ) {
                None
            } else {
                Some(kind)
            },
        }
    }
}

pub fn continuation_kind(line: &[char], in_single: bool, in_double: bool) -> (r: Option<
    ContinuationKind,
>)
    ensures
        r == continuation_spec(line@, in_single, in_double),
{
    let n = trim_end_len(line);
    proof {
        crate::text::lemma_trim_end_prefix(line@);
    }
    let trimmed = &line[0..n];
    assert(trimmed@ == line@.subrange(0, n as int));
    let (marker_index, marker) = match last_char_with_index(trimmed) {
        Some(p) => p,
        None => {
            return None;
        },
    };
    let kind = if marker == '\\' {
        ContinuationKind::Bash
    } else if marker == '`' {
        ContinuationKind::PowerShell
    } else if marker == '^' {
        ContinuationKind::Cmd
    } else {
        return None;
    };
    if marker_index == 0 {
        return None;
    }
    let prev = trimmed[marker_index - 1];
    if !is_whitespace(prev) {
        return None;
    }
    if is_in_quotes_at(line, marker_index, in_single, in_double) {
        return None;
    }
    Some(kind)
}

/// `line` up to (not including) its last non-white-space character.
pub open spec fn strip_marker_spec(line: Seq<char>) -> Seq<char> {
    let n = trim_end(line).len();
    line.subrange(0, if n > 0 {
        n - 1
    } else {
        0
    })
}

pub fn strip_continuation_marker(line: &[char]) -> (r: &[char])
    ensures
        r@ == strip_marker_spec(line@),
{
    let n = trim_end_len(line);
    proof {
        crate::text::lemma_trim_end_prefix(line@);
    }
    let cut = if n > 0 {
        n - 1
    } else {
        0
    };
    &line[0..cut]
}

} // verus!
