//! Heredoc handling: finding a heredoc opener on a line, and moving an
//! indented terminator back to column one.
use vstd::prelude::*;

use crate::shell::quotes::{
    delim_end, delim_end_exec, find_from, find_from_exec, is_delim_char, is_heredoc_delimiter_char,
    quote_step, quote_step_exec, skip_ws, skip_ws_exec, QuoteState,
};
use crate::unicode::string_from_chars;
use crate::text::{
    ascii_alpha, chars_of, contains_at, contains_seq, is_ascii_alpha, join_lines, join_lines_vec,
    law_split_join, lemma_split_lines_props, no_lf_lines, opt_view, split_lines, split_lines_vec,
    subvec, views,
};

verus! {

/// Whether `d` holds an ASCII letter.
pub open spec fn has_alpha(d: Seq<char>) -> bool {
    exists|i: int| 0 <= i < d.len() && is_ascii_alpha(#[trigger] d[i])
}

pub fn contains_alpha(delimiter: &[char]) -> (r: bool)
    ensures
        r == has_alpha(delimiter@),
{
    let mut i: usize = 0;
    while i < delimiter.len()
        invariant
            i <= delimiter@.len(),
            forall|k: int| 0 <= k < i ==> !is_ascii_alpha(#[trigger] delimiter@[k]),
        decreases delimiter.len() - i,
    {
        if ascii_alpha(delimiter[i]) {
            return true;
        }
        i = i + 1;
    }
    false
}

/// The delimiter that a heredoc operator introduces when its word starts at `j`:
/// a quoted word (up to the closing quote or the end of the line) or a bare
/// word of at least two delimiter characters; it must hold a letter.
pub open spec fn delimiter_at(c: Seq<char>, j: int) -> Option<Seq<char>> {
    if c[j] == '\'' || c[j] == '"' {
        let e = find_from(c, j + 1, c[j]);
        if e > j + 1 && has_alpha(c.subrange(j + 1, e)) {
            Some(c.subrange(j + 1, e))
        } else {
            None
        }
    } else if is_delim_char(c[j]) {
        let e = delim_end(c, j);
        if e - j >= 2 && has_alpha(c.subrange(j, e)) {
            Some(c.subrange(j, e))
        } else {
            None
        }
    } else {
        None
    }
}

/// The scan for a heredoc opener from index `i` in quote state `st`.
pub open spec fn opener_scan(c: Seq<char>, i: int, st: QuoteState) -> Option<Seq<char>>
    decreases c.len() - i,
{
    if i < 0 || i + 1 >= c.len() {
        None
    } else if !st.0 && !st.1 && c[i] == '<' && c[i + 1] == '<' {
        let j0 = if i + 2 < c.len() && c[i + 2] == '-' {
            i + 3
        } else {
            i + 2
        };
        let j = skip_ws(c, j0);
        if j >= c.len() {
            None
        } else {
            match delimiter_at(c, j) {
                Some(d) => Some(d),
                None => opener_scan(c, i + 1, st),
            }
        }
    } else {
        opener_scan(c, i + 1, quote_step(st, c[i]))
    }
}

/// The heredoc delimiter that `line` opens, if any: the first `<<` (or `<<-`)
/// outside quotes followed, after optional white space, by a delimiter word.
pub open spec fn heredoc_opener(line: Seq<char>) -> Option<Seq<char>> {
    opener_scan(line, 0, (false, false, false))
}

pub fn parse_heredoc_opener(chars: &[char]) -> (r: Option<Vec<char>>)
    ensures
        match r {
            Some(d) => heredoc_opener(chars@) == Some(d@),
            None => heredoc_opener(chars@) is None,
        },
{
    let mut st: QuoteState = (false, false, false);
    let mut i: usize = 0;
    while chars.len() > 0 && i < chars.len() - 1
        invariant
            i <= chars@.len(),
            opener_scan(chars@, i as int, st) == heredoc_opener(chars@),
        decreases chars.len() - i,
    {
        let (ins, ind, _esc) = st;
        if !ins && !ind && chars[i] == '<' && chars[i + 1] == '<' {
            let mut j = i + 2;
            if j < chars.len() && chars[j] == '-' {
                j = j + 1;
            }
            j = skip_ws_exec(chars, j);
            if j >= chars.len() {
                return None;
            }
            let first = chars[j];
            if first == '\'' || first == '"' {
                let e = find_from_exec(chars, j + 1, first);
                if e > j + 1 {
                    let delimiter = subvec(chars, j + 1, e);
                    if contains_alpha(delimiter.as_slice()) {
                        return Some(delimiter);
                    }
                }
            } else if is_heredoc_delimiter_char(first) {
                let e = delim_end_exec(chars, j);
                if e - j >= 2 {
                    let delimiter = subvec(chars, j, e);
                    if contains_alpha(delimiter.as_slice()) {
                        return Some(delimiter);
                    }
                }
            }
            i = i + 1;
        } else {
            st = quote_step_exec(st, chars[i]);
            i = i + 1;
        }
    }
    None
}

/// `s` without leading spaces and tabs.
pub open spec fn strip_lead_blank(s: Seq<char>) -> Seq<char>
    decreases s.len(),
{
    if s.len() > 0 && (s[0] == ' ' || s[0] == '\t') {
        strip_lead_blank(s.drop_first())
    } else {
        s
    }
}

/// `s` without trailing spaces, tabs and carriage returns.
pub open spec fn strip_trail_blank(s: Seq<char>) -> Seq<char>
    decreases s.len(),
{
    if s.len() > 0 && (s.last() == ' ' || s.last() == '\t' || s.last() == '\r') {
        strip_trail_blank(s.drop_last())
    } else {
        s
    }
}

/// Whether `line` terminates the heredoc `delimiter`: `None` if not, else
/// whether it has to be rewritten to the bare delimiter.
pub open spec fn terminator_rewrite_spec(line: Seq<char>, delimiter: Seq<char>) -> Option<bool> {
    if strip_trail_blank(strip_lead_blank(line)) != delimiter {
        None
    } else {
        Some(line != delimiter)
    }
}

fn strip_lead_blank_vec(s: &[char]) -> (r: Vec<char>)
    ensures
        r@ == strip_lead_blank(s@),
{
    let mut k: usize = 0;
    assert(s@.subrange(0, s@.len() as int) =~= s@);
    while k < s.len() && (s[k] == ' ' || s[k] == '\t')
        invariant
            k <= s@.len(),
            strip_lead_blank(s@.subrange(k as int, s@.len() as int)) == strip_lead_blank(s@),
        decreases s.len() - k,
    {
        assert(s@.subrange(k as int, s@.len() as int).drop_first() =~= s@.subrange(
            k + 1,
            s@.len() as int,
        ));
        k = k + 1;
    }
    subvec(s, k, s.len())
}

fn strip_trail_blank_vec(s: &[char]) -> (r: Vec<char>)
    ensures
        r@ == strip_trail_blank(s@),
{
    let mut n: usize = s.len();
    assert(s@.subrange(0, s@.len() as int) =~= s@);
    while n > 0 && (s[n - 1] == ' ' || s[n - 1] == '\t' || s[n - 1] == '\r')
        invariant
            n <= s@.len(),
            strip_trail_blank(s@.subrange(0, n as int)) == strip_trail_blank(s@),
        decreases n,
    {
        assert(s@.subrange(0, n as int).drop_last() =~= s@.subrange(0, n - 1));
        n = n - 1;
    }
    subvec(s, 0, n)
}

pub fn seq_eq(a: &[char], b: &[char]) -> (r: bool)
    ensures
        r == (a@ == b@),
{
    if a.len() != b.len() {
        return false;
    }
    let mut i: usize = 0;
    while i < a.len()
        invariant
            a@.len() == b@.len(),
            i <= a@.len(),
            forall|k: int| 0 <= k < i ==> a@[k] == b@[k],
        decreases a.len() - i,
    {
        if a[i] != b[i] {
            return false;
        }
        i = i + 1;
    }
    assert(a@ =~= b@);
    true
}

pub fn terminator_rewrite(line: &[char], delimiter: &[char]) -> (r: Option<bool>)
    ensures
        r == terminator_rewrite_spec(line@, delimiter@),
{
    let trimmed_start = strip_lead_blank_vec(line);
    let trimmed = strip_trail_blank_vec(trimmed_start.as_slice());
    if !seq_eq(trimmed.as_slice(), delimiter) {
        return None;
    }
    Some(!seq_eq(line, delimiter))
}

/// The line that replaces `line`, and the heredoc left open after it, when
/// `active` is the heredoc open before it.
pub open spec fn repair_step(line: Seq<char>, active: Option<Seq<char>>) -> (
    Seq<char>,
    Option<Seq<char>>,
) {
    match active {
        Some(d) => match terminator_rewrite_spec(line, d) {
            Some(rewrite) => (
                if rewrite {
                    d
                } else {
                    line
                },
                None,
            ),
            None => (line, Some(d)),
        },
        None => (
            line,
            match heredoc_opener(line) {
                Some(d) => Some(d),
                None => None,
            },
        ),
    }
}

/// The lines of a text after terminator repair, `active` being the heredoc open
/// before the first of them.
pub open spec fn repair_lines(lines: Seq<Seq<char>>, active: Option<Seq<char>>) -> Seq<Seq<char>>
    decreases lines.len(),
{
    if lines.len() == 0 {
        Seq::<Seq<char>>::empty()
    } else {
        let (out, next) = repair_step(lines[0], active);
        seq![out] + repair_lines(lines.drop_first(), next)
    }
}

/// The text with each indented terminator of an open heredoc moved to column
/// one; a text without `<<` is left as it is.
pub open spec fn repair_terminators(text: Seq<char>) -> Seq<char> {
    if !contains_seq(text, seq!['<', '<']) {
        text
    } else {
        join_lines(repair_lines(split_lines(text), None))
    }
}

pub proof fn lemma_repair_lines_len(lines: Seq<Seq<char>>, active: Option<Seq<char>>)
    ensures
        repair_lines(lines, active).len() == lines.len(),
    decreases lines.len(),
{
    if lines.len() > 0 {
        let (out, next) = repair_step(lines[0], active);
        lemma_repair_lines_len(lines.drop_first(), next);
    }
}

pub open spec fn blank_or_cr(c: char) -> bool {
    c == ' ' || c == '\t' || c == '\r'
}

proof fn lemma_strip_lead_result(s: Seq<char>)
    ensures
        strip_lead_blank(s).len() == 0 || (strip_lead_blank(s)[0] != ' ' && strip_lead_blank(s)[0]
            != '\t'),
        strip_lead_blank(s).len() <= s.len(),
        strip_lead_blank(s) == s.subrange(s.len() - strip_lead_blank(s).len(), s.len() as int),
    decreases s.len(),
{
    if s.len() > 0 && (s[0] == ' ' || s[0] == '\t') {
        lemma_strip_lead_result(s.drop_first());
        let t = strip_lead_blank(s.drop_first());
        assert(s.drop_first().subrange(s.len() - 1 - t.len(), s.len() - 1) =~= s.subrange(
            s.len() - t.len(),
            s.len() as int,
        ));
    } else {
        assert(s.subrange(0, s.len() as int) =~= s);
    }
}

proof fn lemma_strip_trail_result(s: Seq<char>)
    ensures
        strip_trail_blank(s).len() == 0 || !blank_or_cr(strip_trail_blank(s).last()),
        strip_trail_blank(s).len() <= s.len(),
        strip_trail_blank(s) == s.subrange(0, strip_trail_blank(s).len() as int),
    decreases s.len(),
{
    if s.len() > 0 && (s.last() == ' ' || s.last() == '\t' || s.last() == '\r') {
        lemma_strip_trail_result(s.drop_last());
        let t = strip_trail_blank(s.drop_last());
        assert(s.drop_last().subrange(0, t.len() as int) =~= s.subrange(0, t.len() as int));
    } else {
        assert(s.subrange(0, s.len() as int) =~= s);
    }
}

/// Stripping the blanks from both ends of a line twice strips no more.
proof fn lemma_strip_both_idempotent(x: Seq<char>)
    ensures
        strip_trail_blank(strip_lead_blank(strip_trail_blank(strip_lead_blank(x))))
            == strip_trail_blank(strip_lead_blank(x)),
{
    let y = strip_lead_blank(x);
    let z = strip_trail_blank(y);
    lemma_strip_lead_result(x);
    lemma_strip_trail_result(y);
    if z.len() > 0 {
        assert(z[0] == y[0]);
        assert(strip_lead_blank(z) == z);
        assert(z.last() == z[z.len() - 1]);
        assert(strip_trail_blank(z) == z);
    } else {
        assert(strip_lead_blank(z) == z);
        assert(strip_trail_blank(z) == z);
    }
}

/// A repaired line is left as it is by a second repair in the same state, and
/// leaves the same heredoc open.
proof fn lemma_repair_step_stable(line: Seq<char>, active: Option<Seq<char>>)
    ensures
        repair_step(repair_step(line, active).0, active) == repair_step(line, active),
{
    match active {
        Some(d) => match terminator_rewrite_spec(line, d) {
            Some(rewrite) => {
                if rewrite {
                    lemma_strip_both_idempotent(line);
                }
            },
            None => {},
        },
        None => {},
    }
}

/// Repairing the lines a second time, from the same open heredoc, changes
/// nothing.
pub proof fn lemma_repair_lines_idempotent(lines: Seq<Seq<char>>, active: Option<Seq<char>>)
    ensures
        repair_lines(repair_lines(lines, active), active) == repair_lines(lines, active),
    decreases lines.len(),
{
    if lines.len() > 0 {
        let (out, next) = repair_step(lines[0], active);
        lemma_repair_step_stable(lines[0], active);
        lemma_repair_lines_idempotent(lines.drop_first(), next);
        let r = repair_lines(lines, active);
        assert(r == seq![out] + repair_lines(lines.drop_first(), next));
        assert(r[0] == out);
        assert(r.drop_first() =~= repair_lines(lines.drop_first(), next));
    }
}

proof fn lemma_no_lf_strip(line: Seq<char>)
    requires
        !line.contains('\n'),
    ensures
        !strip_trail_blank(strip_lead_blank(line)).contains('\n'),
{
    let y = strip_lead_blank(line);
    let z = strip_trail_blank(y);
    lemma_strip_lead_result(line);
    lemma_strip_trail_result(y);
    if z.contains('\n') {
        let k = choose|k: int| 0 <= k < z.len() && z[k] == '\n';
        assert(y[k] == '\n');
        assert(line[line.len() - y.len() + k] == '\n');
    }
}

/// Repaired lines hold no line feed where the lines held none.
pub proof fn lemma_repair_lines_no_lf(lines: Seq<Seq<char>>, active: Option<Seq<char>>)
    requires
        no_lf_lines(lines),
    ensures
        no_lf_lines(repair_lines(lines, active)),
    decreases lines.len(),
{
    if lines.len() > 0 {
        let (out, next) = repair_step(lines[0], active);
        assert(!lines[0].contains('\n'));
        lemma_no_lf_strip(lines[0]);
        let rest = lines.drop_first();
        assert forall|k: int| 0 <= k < rest.len() implies !(#[trigger] rest[k]).contains('\n') by {
            assert(rest[k] == lines[k + 1]);
        }
        lemma_repair_lines_no_lf(rest, next);
        let r = repair_lines(lines, active);
        assert(r == seq![out] + repair_lines(rest, next));
        assert forall|k: int| 0 <= k < r.len() implies !(#[trigger] r[k]).contains('\n') by {
            if k > 0 {
                assert(r[k] == repair_lines(rest, next)[k - 1]);
            }
        }
    }
}

/// Repairing heredoc terminators a second time changes nothing.
pub proof fn law_repair_idempotent(text: Seq<char>)
    ensures
        repair_terminators(repair_terminators(text)) == repair_terminators(text),
{
    if contains_seq(text, seq!['<', '<']) {
        let ls = split_lines(text);
        lemma_split_lines_props(text);
        lemma_repair_lines_len(ls, None);
        lemma_repair_lines_no_lf(ls, None);
        let rl = repair_lines(ls, None);
        law_split_join(rl);
        lemma_repair_lines_idempotent(ls, None);
    }
}

pub fn repair_terminators_chars(text: &[char]) -> (r: Vec<char>)
    ensures
        r@ == repair_terminators(text@),
{
    let op: [char; 2] = ['<', '<'];
    assert(op@ =~= seq!['<', '<']);
    if !contains_at(text, &op) {
        return subvec(text, 0, text.len());
    }
    let lines = split_lines_vec(text);
    let ghost all = views(lines@);
    let mut out: Vec<Vec<char>> = Vec::new();
    let mut active: Option<Vec<char>> = None;
    let mut i: usize = 0;
    assert(all.subrange(0, all.len() as int) =~= all);
    while i < lines.len()
        invariant
            i <= lines@.len(),
            all == views(lines@),
            views(out@) + repair_lines(all.subrange(i as int, all.len() as int), opt_view(active))
                == repair_lines(all, None),
        decreases lines.len() - i,
    {
        let ghost act = opt_view(active);
        let ghost rest = all.subrange(i as int, all.len() as int);
        assert(rest[0] == lines@[i as int]@);
        assert(rest.drop_first() =~= all.subrange(i + 1, all.len() as int));
        let line = &lines[i];
        let ghost step = repair_step(line@, act);
        let mut next_active: Option<Vec<char>> = None;
        let emitted: Vec<char>;
        match &active {
            Some(d) => {
                match terminator_rewrite(line.as_slice(), d.as_slice()) {
                    Some(rewrite) => {
                        if rewrite {
                            emitted = subvec(d.as_slice(), 0, d.len());
                        } else {
                            emitted = subvec(line.as_slice(), 0, line.len());
                        }
                    },
                    None => {
                        emitted = subvec(line.as_slice(), 0, line.len());
                        next_active = Some(subvec(d.as_slice(), 0, d.len()));
                    },
                }
            },
            None => {
                emitted = subvec(line.as_slice(), 0, line.len());
                match parse_heredoc_opener(line.as_slice()) {
                    Some(d) => {
                        next_active = Some(d);
                    },
                    None => {},
                }
            },
        }
        assert(emitted@ == step.0);
        let ghost before = out@;
        out.push(emitted);
        assert(views(out@) =~= views(before).push(step.0));
        active = next_active;
        i = i + 1;
        proof {
            let na = opt_view(active);
            assert(na == step.1);
            assert(views(out@) + repair_lines(all.subrange(i as int, all.len() as int), na)
                =~= views(before) + repair_lines(rest, act));
        }
    }
    proof {
        assert(all.subrange(lines@.len() as int, all.len() as int) =~= Seq::<Seq<char>>::empty());
        assert(views(out@) =~= views(out@) + Seq::<Seq<char>>::empty());
    }
    join_lines_vec(&out)
}

/// Moves each indented terminator of an open heredoc back to column one.
pub fn repair_indented_terminators(text: &str) -> (r: String)
    ensures
        r@ == repair_terminators(text@),
{
    let chars = chars_of(text);
    let repaired = repair_terminators_chars(chars.as_slice());
    string_from_chars(repaired.as_slice())
}

} // verus!
