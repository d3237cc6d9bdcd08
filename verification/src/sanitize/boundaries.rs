//! Deciding, at a line boundary, whether a terminal wrapped the line there.
use vstd::prelude::*;

use crate::lits::{arr_kw_return, arr_kw_throw, lit_kw_return, lit_kw_throw};
use crate::sanitize::context::BoundaryContext;
use crate::sanitize::heuristics::{identifier_split, is_identifier_split};
use crate::sanitize::lines::{lead_ws, trail_ws, LineMeta};
use crate::sanitize::profile::WrapProfile;
use crate::sanitize::wrap::{insert_space, should_insert_space};
use crate::shell::quotes::{skip_ws, skip_ws_exec};
use crate::text::{
    ascii_alnum, ascii_alpha, ends_with, ends_with_at, is_ascii_alnum, is_ascii_alpha, is_blank,
    trim, trim_end, trim_end_len, trim_start, trim_start_len, trim_start_vec,
};

verus! {

#[derive(Clone, Copy, Debug)]
pub struct JoinDecision {
    pub join: bool,
    pub insert_space: bool,
}

/// Whether `line` ends with the word `keyword`.
pub open spec fn ends_with_kw(line: Seq<char>, keyword: Seq<char>) -> bool {
    let t = trim_end(line);
    ends_with(t, keyword) && (t.len() == keyword.len() || !(is_ascii_alnum(t[t.len() - keyword.len() - 1])
        || t[t.len() - keyword.len() - 1] == '_'))
}

pub fn ends_with_keyword(line: &[char], keyword: &[char]) -> (r: bool)
    ensures
        r == ends_with_kw(line@, keyword@),
{
    let n = trim_end_len(line);
    let t = &line[0..n];
    if !ends_with_at(t, keyword) {
        return false;
    }
    let prefix_len = n - keyword.len();
    if prefix_len == 0 {
        return true;
    }
    let ch = t[prefix_len - 1];
    !ascii_alnum(ch) && ch != '_'
}

/// Whether `text` starts an expression.
pub open spec fn expr_start(text: Seq<char>) -> bool {
    let t = trim_start(text);
    t.len() > 0 && (is_ascii_alnum(t[0]) || t[0] == '(' || t[0] == '[' || t[0] == '{' || t[0] == '"'
        || t[0] == '\'' || t[0] == '`' || t[0] == '_' || t[0] == '$')
}

pub fn looks_like_expression_start(text: &[char]) -> (r: bool)
    ensures
        r == expr_start(text@),
{
    let k = trim_start_len(text);
    if k == text.len() {
        return false;
    }
    let c = text[k];
    assert(text@.subrange(k as int, text@.len() as int)[0] == c);
    ascii_alnum(c) || c == '(' || c == '[' || c == '{' || c == '"' || c == '\'' || c == '`' || c
        == '_' || c == '$'
}

/// The index just after the string that a quote `q` opened before index `i`
/// (a backslash escapes the next character), or `t.len()`.
pub open spec fn string_end(t: Seq<char>, i: int, q: char, esc: bool) -> int
    decreases t.len() - i,
{
    if i < 0 || i >= t.len() {
        t.len() as int
    } else if esc {
        string_end(t, i + 1, q, false)
    } else if t[i] == '\\' {
        string_end(t, i + 1, q, true)
    } else if t[i] == q {
        i + 1
    } else {
        string_end(t, i + 1, q, false)
    }
}

pub open spec fn is_key_char(c: char) -> bool {
    is_ascii_alnum(c) || c == '_' || c == '$'
}

/// The index of the first character at or after `i` that is not a key character.
pub open spec fn key_end(t: Seq<char>, i: int) -> int
    decreases t.len() - i,
{
    if 0 <= i < t.len() && is_key_char(t[i]) {
        key_end(t, i + 1)
    } else {
        i
    }
}

/// Whether `text` starts an object property: a quoted or bare key followed,
/// after white space, by `:`.
pub open spec fn property_start(text: Seq<char>) -> bool {
    let t = trim_start(text);
    if t.len() == 0 {
        false
    } else {
        let e = if t[0] == '"' || t[0] == '\'' {
            string_end(t, 1, t[0], false)
        } else if is_ascii_alpha(t[0]) || t[0] == '_' || t[0] == '$' {
            key_end(t, 0)
        } else {
            -1
        };
        e >= 0 && {
            let j = skip_ws(t, e);
            j < t.len() && t[j] == ':'
        }
    }
}

proof fn lemma_string_end_bounds(t: Seq<char>, i: int, q: char, esc: bool)
    requires
        0 <= i <= t.len(),
    ensures
        i <= string_end(t, i, q, esc) <= t.len(),
    decreases t.len() - i,
{
    if i < t.len() {
        if esc {
            lemma_string_end_bounds(t, i + 1, q, false);
        } else if t[i] == '\\' {
            lemma_string_end_bounds(t, i + 1, q, true);
        } else if t[i] != q {
            lemma_string_end_bounds(t, i + 1, q, false);
        }
    }
}

proof fn lemma_key_end_bounds(t: Seq<char>, i: int)
    requires
        0 <= i <= t.len(),
    ensures
        i <= key_end(t, i) <= t.len(),
    decreases t.len() - i,
{
    if i < t.len() && is_key_char(t[i]) {
        lemma_key_end_bounds(t, i + 1);
    }
}

pub fn looks_like_property_start(text: &[char]) -> (r: bool)
    ensures
        r == property_start(text@),
{
    let tv = trim_start_vec(text);
    let t = tv.as_slice();
    if t.len() == 0 {
        return false;
    }
    let first = t[0];
    let mut e: usize;
    if first == '"' || first == '\'' {
        let mut i: usize = 1;
        let mut esc = false;
        let mut found = false;
        while i < t.len() && !found
            invariant
                1 <= i <= t@.len(),
                !found ==> string_end(t@, i as int, first, esc) == string_end(t@, 1, first, false),
                found ==> i as int == string_end(t@, 1, first, false),
            decreases t.len() - i,
        {
            if esc {
                esc = false;
            } else if t[i] == '\\' {
                esc = true;
            } else if t[i] == first {
                found = true;
            }
            i = i + 1;
        }
        e = i;
    } else if ascii_alpha(first) || first == '_' || first == '$' {
        let mut i: usize = 0;
        while i < t.len() && (ascii_alnum(t[i]) || t[i] == '_' || t[i] == '$')
            invariant
                i <= t@.len(),
                key_end(t@, i as int) == key_end(t@, 0),
            decreases t.len() - i,
        {
            i = i + 1;
        }
        e = i;
    } else {
        return false;
    }
    let j = skip_ws_exec(t, e);
    j < t.len() && t[j] == ':'
}

/// Whether the seam between `prev` and `next` has punctuation that continues
/// an expression.
pub open spec fn continuation_punct_spec(prev: Seq<char>, next: Seq<char>) -> bool {
    let p = trim_end(prev);
    let n = trim_start(next);
    p.len() > 0 && n.len() > 0 && ({
        let a = p.last();
        a == ',' || a == '.' || a == '+' || a == '-' || a == '*' || a == '/' || a == '%' || a
            == '=' || a == '?' || a == ':' || a == '&' || a == '|' || a == '(' || a == '['
    } || {
        let b = n[0];
        b == '.' || b == ',' || b == ')' || b == ']' || b == ':' || b == '?' || b == '+' || b
            == '-' || b == '*' || b == '/' || b == '%' || b == '&' || b == '|' || b == '[' || b
            == '('
    })
}

pub fn continuation_punct(prev: &[char], next: &[char]) -> (r: bool)
    ensures
        r == continuation_punct_spec(prev@, next@),
{
    let pn = trim_end_len(prev);
    let k = trim_start_len(next);
    if pn == 0 || k == next.len() {
        return false;
    }
    let a = prev[pn - 1];
    let b = next[k];
    assert(prev@.subrange(0, pn as int).last() == a);
    assert(next@.subrange(k as int, next@.len() as int)[0] == b);
    (a == ',' || a == '.' || a == '+' || a == '-' || a == '*' || a == '/' || a == '%' || a == '='
        || a == '?' || a == ':' || a == '&' || a == '|' || a == '(' || a == '[') || (b == '.' || b
        == ',' || b == ')' || b == ']' || b == ':' || b == '?' || b == '+' || b == '-' || b == '*'
        || b == '/' || b == '%' || b == '&' || b == '|' || b == '[' || b == '(')
}

/// The context at a boundary: (paren, bracket, brace depth, in string, in block comment).
pub type CtxView = (nat, nat, nat, bool, bool);

pub open spec fn ctxv(c: BoundaryContext) -> CtxView {
    (c.paren_depth as nat, c.bracket_depth as nat, c.brace_depth as nat, c.in_string, c.in_block_comment)
}

/// The points that speak for joining `prev` and `next`.
pub open spec fn join_score(prev: Seq<char>, next: Seq<char>, wrap: Option<int>, slack: int, ctx: CtxView) -> int {
    let pl = lead_ws(prev);
    let nl = lead_ws(next);
    (if ctx.0 > 0 || ctx.1 > 0 {
        3int
    } else {
        0
    }) + (if ctx.2 > 0 && nl > pl {
        1int
    } else {
        0
    }) + (if ctx.3 {
        1int
    } else {
        0
    }) + (if nl > 0 {
        1int
    } else {
        0
    }) + (if nl < pl {
        1int
    } else {
        0
    }) + (if continuation_punct_spec(trim_end(prev), trim_start(trim_end(next))) {
        2int
    } else {
        0
    }) + (match wrap {
        Some(w) => if -slack <= prev.len() - w <= slack {
            1int
        } else {
            0
        },
        None => 0,
    }) + (if trail_ws(prev) > 0 {
        1int
    } else {
        0
    })
}

/// Whether to join the lines `prev` and `next` (raw text) at a boundary with
/// context `ctx`, and whether to put a space at the seam.
pub open spec fn decide(prev: Seq<char>, next: Seq<char>, wrap: Option<int>, slack: int, ctx: CtxView) -> (bool, bool) {
    let pt = trim_end(prev);
    let nt = trim_end(next);
    let nts = trim_start(nt);
    let pl = lead_ws(prev);
    let nl = lead_ws(next);
    if trim(pt).len() == 0 || trim(nt).len() == 0 {
        (false, false)
    } else if ctx.4 {
        (false, false)
    } else if ends_with(pt, seq!['{']) && nl > pl {
        (false, false)
    } else if nts[0] == '}' || nts[0] == ']' || nts[0] == ')' {
        (false, false)
    } else if ctx.0 == 0 && ctx.1 == 0 && ends_with(pt, seq![';']) && nl <= pl {
        (false, false)
    } else if nl == pl && property_start(nts) {
        (false, false)
    } else if identifier_split(pt, nts) {
        (true, false)
    } else if (ends_with_kw(pt, lit_kw_return()) || ends_with_kw(pt, lit_kw_throw())) && expr_start(
        nts,
    ) && (nl > 0 || nts[0] == '(' || nts[0] == '[' || nts[0] == '{' || nts[0] == '"' || nts[0]
        == '\'' || nts[0] == '`') {
        (true, true)
    } else if join_score(prev, next, wrap, slack, ctx) < 4 {
        (false, false)
    } else {
        (true, insert_space(pt, nts))
    }
}

pub open spec fn width_view(p: WrapProfile) -> Option<int> {
    match p.wrap_width {
        Some(w) => Some(w as int),
        None => None,
    }
}

fn score_exec(prev: &LineMeta, next: &LineMeta, profile: &WrapProfile, ctx: BoundaryContext, nts: &[char]) -> (r: i32)
    requires
        prev.wf(),
        next.wf(),
        nts@ == trim_start(next.trimmed_end@),
    ensures
        r as int == join_score(prev.raw@, next.raw@, width_view(*profile), profile.slack as int, ctxv(ctx)),
{
    let mut score: i32 = 0;
    if ctx.paren_depth > 0 || ctx.bracket_depth > 0 {
        score = score + 3;
    }
    if ctx.brace_depth > 0 && next.leading_ws_count > prev.leading_ws_count {
        score = score + 1;
    }
    if ctx.in_string {
        score = score + 1;
    }
    if next.leading_ws_count > 0 {
        score = score + 1;
    }
    if next.leading_ws_count < prev.leading_ws_count {
        score = score + 1;
    }
    if continuation_punct(prev.trimmed_end.as_slice(), nts) {
        score = score + 2;
    }
    match profile.wrap_width {
        Some(w) => {
            let len = prev.raw_len_chars;
            let near = if len >= w {
                len - w <= profile.slack
            } else {
                w - len <= profile.slack
            };
            if near {
                score = score + 1;
            }
        },
        None => {},
    }
    if prev.trailing_ws_count > 0 {
        score = score + 1;
    }
    score
}

pub fn decide_join(prev: &LineMeta, next: &LineMeta, profile: &WrapProfile, ctx: BoundaryContext) -> (r: JoinDecision)
    requires
        prev.wf(),
        next.wf(),
    ensures
        (r.join, r.insert_space) == decide(prev.raw@, next.raw@, width_view(*profile), profile.slack as int, ctxv(ctx)),
{
    let no = JoinDecision { join: false, insert_space: false };
    let pt = prev.trimmed_end.as_slice();
    let nt = next.trimmed_end.as_slice();
    let ntsv = trim_start_vec(nt);
    let nts = ntsv.as_slice();
    if is_blank(pt) || is_blank(nt) {
        return no;
    }
    proof {
        crate::text::lemma_trim_start_suffix(nt@);
        if nts@.len() == 0 {
            assert(nt@.subrange(0, nt@.len() as int) =~= nt@);
        }
    }
    if ctx.in_block_comment {
        return no;
    }
    let open_brace: [char; 1] = ['{'];
    let semi: [char; 1] = [';'];
    assert(open_brace@ =~= seq!['{']);
    assert(semi@ =~= seq![';']);
    if ends_with_at(pt, &open_brace) && next.leading_ws_count > prev.leading_ws_count {
        return no;
    }
    let first = nts[0];
    if first == '}' || first == ']' || first == ')' {
        return no;
    }
    if ctx.paren_depth == 0 && ctx.bracket_depth == 0 && ends_with_at(pt, &semi)
        && next.leading_ws_count <= prev.leading_ws_count {
        return no;
    }
    if next.leading_ws_count == prev.leading_ws_count && looks_like_property_start(nts) {
        return no;
    }
    if is_identifier_split(pt, nts) {
        return JoinDecision { join: true, insert_space: false };
    }
    if ends_with_keyword(pt, &arr_kw_return()) || ends_with_keyword(pt, &arr_kw_throw()) {
        if looks_like_expression_start(nts) && (next.leading_ws_count > 0 || first == '(' || first
            == '[' || first == '{' || first == '"' || first == '\'' || first == '`') {
            return JoinDecision { join: true, insert_space: true };
        }
    }
    let score = score_exec(prev, next, profile, ctx, nts);
    if score < 4 {
        return no;
    }
    JoinDecision { join: true, insert_space: should_insert_space(pt, nts) }
}

} // verus!
