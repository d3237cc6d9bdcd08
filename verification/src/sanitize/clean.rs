//! The first pass over clipboard text: line endings, invisible characters, and
//! a bullet that a terminal put before a line of code.
use vstd::prelude::*;

use crate::lits::{
    arr_bullet_space, arr_kw_const, arr_kw_function, arr_kw_let, arr_kw_return, lit_bullet_space,
    lit_kw_const, lit_kw_function, lit_kw_let, lit_kw_return,
};
use crate::text::{
    append_chars, ascii_alnum, is_ascii_alnum, is_blank, is_cc, is_control, join_lines,
    join_lines_vec, split_lines, split_lines_vec, starts_with, starts_with_at, subvec, trim,
    trim_start, trim_start_len, views,
};

verus! {

// ---------------------------------------------------------------------------
// Line endings
// ---------------------------------------------------------------------------

/// `s` with each CRLF and each lone CR turned into LF.
pub open spec fn normalize_eol(s: Seq<char>) -> Seq<char>
    decreases s.len(),
{
    if s.len() == 0 {
        Seq::<char>::empty()
    } else if s[0] == '\r' && s.len() > 1 && s[1] == '\n' {
        seq!['\n'] + normalize_eol(s.subrange(2, s.len() as int))
    } else if s[0] == '\r' {
        seq!['\n'] + normalize_eol(s.drop_first())
    } else {
        seq![s[0]] + normalize_eol(s.drop_first())
    }
}

/// Text with normalized line endings holds no carriage return.
pub proof fn law_normalized_text_has_no_cr(s: Seq<char>)
    ensures
        !normalize_eol(s).contains('\r'),
    decreases s.len(),
{
    if s.len() > 0 {
        if s[0] == '\r' && s.len() > 1 && s[1] == '\n' {
            law_normalized_text_has_no_cr(s.subrange(2, s.len() as int));
            let r = normalize_eol(s.subrange(2, s.len() as int));
            assert forall|i: int| 0 <= i < normalize_eol(s).len() implies normalize_eol(s)[i]
                != '\r' by {
                if i > 0 {
                    assert(normalize_eol(s)[i] == r[i - 1]);
                }
            }
        } else {
            law_normalized_text_has_no_cr(s.drop_first());
            let r = normalize_eol(s.drop_first());
            assert forall|i: int| 0 <= i < normalize_eol(s).len() implies normalize_eol(s)[i]
                != '\r' by {
                if i > 0 {
                    assert(normalize_eol(s)[i] == r[i - 1]);
                }
            }
        }
    }
}

pub fn normalize_line_endings(input: &[char]) -> (r: Vec<char>)
    ensures
        r@ == normalize_eol(input@),
{
    let mut out: Vec<char> = Vec::new();
    let mut i: usize = 0;
    assert(input@.subrange(0, input@.len() as int) =~= input@);
    while i < input.len()
        invariant
            i <= input@.len(),
            out@ + normalize_eol(input@.subrange(i as int, input@.len() as int)) == normalize_eol(
                input@,
            ),
        decreases input.len() - i,
    {
        let ghost rest = input@.subrange(i as int, input@.len() as int);
        let ghost before = out@;
        if input[i] == '\r' && i + 1 < input.len() && input[i + 1] == '\n' {
            out.push('\n');
            assert(rest.subrange(2, rest.len() as int) =~= input@.subrange(i + 2, input@.len() as int));
            i = i + 2;
        } else if input[i] == '\r' {
            out.push('\n');
            assert(rest.drop_first() =~= input@.subrange(i + 1, input@.len() as int));
            i = i + 1;
        } else {
            out.push(input[i]);
            assert(rest.drop_first() =~= input@.subrange(i + 1, input@.len() as int));
            i = i + 1;
        }
        assert(out@ + normalize_eol(input@.subrange(i as int, input@.len() as int)) =~= before
            + normalize_eol(rest));
    }
    assert(out@ =~= out@ + normalize_eol(Seq::<char>::empty()));
    out
}

// ---------------------------------------------------------------------------
// Invisible characters
// ---------------------------------------------------------------------------

/// A character that carries no visible text: a control character other than
/// LF, CR and tab, or one of the zero-width and direction formatting marks.
pub open spec fn is_invisible(ch: char) -> bool {
    (is_cc(ch) && ch != '\n' && ch != '\r' && ch != '\t') || ch == '\u{ad}' || ch == '\u{61c}'
        || ch == '\u{180e}' || ('\u{200b}' <= ch && ch <= '\u{200f}') || ('\u{202a}' <= ch && ch
        <= '\u{202e}') || ('\u{2060}' <= ch && ch <= '\u{2064}') || ('\u{2066}' <= ch && ch
        <= '\u{2069}') || ch == '\u{feff}'
}

pub fn is_invisible_format_char(ch: char) -> (r: bool)
    ensures
        r == is_invisible(ch),
{
    if is_control(ch) && !(ch == '\n' || ch == '\r' || ch == '\t') {
        return true;
    }
    ch == '\u{ad}' || ch == '\u{61c}' || ch == '\u{180e}' || ('\u{200b}' <= ch && ch <= '\u{200f}')
        || ('\u{202a}' <= ch && ch <= '\u{202e}') || ('\u{2060}' <= ch && ch <= '\u{2064}') || (
    '\u{2066}' <= ch && ch <= '\u{2069}') || ch == '\u{feff}'
}

/// `s` with line and paragraph separators turned into LF and invisible
/// characters dropped.
pub open spec fn drop_invisibles(s: Seq<char>) -> Seq<char>
    decreases s.len(),
{
    if s.len() == 0 {
        Seq::<char>::empty()
    } else {
        let p = drop_invisibles(s.drop_last());
        let c = s.last();
        if c == '\u{2028}' || c == '\u{2029}' {
            p.push('\n')
        } else if is_invisible(c) {
            p
        } else {
            p.push(c)
        }
    }
}

/// The number of invisible characters in `s`.
pub open spec fn count_invisibles(s: Seq<char>) -> nat
    decreases s.len(),
{
    if s.len() == 0 {
        0
    } else {
        count_invisibles(s.drop_last()) + if is_invisible(s.last()) {
            1nat
        } else {
            0
        }
    }
}

pub proof fn lemma_count_invisibles_le(s: Seq<char>)
    ensures
        count_invisibles(s) <= s.len(),
    decreases s.len(),
{
    if s.len() > 0 {
        lemma_count_invisibles_le(s.drop_last());
    }
}

// ---------------------------------------------------------------------------
// Bullet prefix
// ---------------------------------------------------------------------------

/// Whether `text[len..]` does not go on with an identifier character.
pub open spec fn keyword_boundary(text: Seq<char>, len: int) -> bool {
    text.len() == len || !(is_ascii_alnum(text[len]) || text[len] == '_')
}

pub fn is_keyword_boundary(text: &[char], len: usize) -> (r: bool)
    requires
        len <= text@.len(),
    ensures
        r == keyword_boundary(text@, len as int),
{
    if text.len() == len {
        return true;
    }
    let c = text[len];
    !(ascii_alnum(c) || c == '_')
}

pub open spec fn starts_with_keyword(t: Seq<char>, kw: Seq<char>) -> bool {
    starts_with(t, kw) && keyword_boundary(t, kw.len() as int)
}

/// Whether `text` looks like the start of code: an opening bracket, or one of
/// the keywords `const`, `let`, `function`, `return`.
pub open spec fn codeish(text: Seq<char>) -> bool {
    let t = trim_start(text);
    t.len() > 0 && (t[0] == '(' || t[0] == '{' || t[0] == '[' || starts_with_keyword(
        t,
        lit_kw_const(),
    ) || starts_with_keyword(t, lit_kw_let()) || starts_with_keyword(t, lit_kw_function())
        || starts_with_keyword(t, lit_kw_return()))
}

fn starts_with_keyword_exec(t: &[char], kw: &[char]) -> (r: bool)
    ensures
        r == starts_with_keyword(t@, kw@),
{
    starts_with_at(t, kw) && is_keyword_boundary(t, kw.len())
}

pub fn looks_codeish(text: &[char]) -> (r: bool)
    ensures
        r == codeish(text@),
{
    let k = trim_start_len(text);
    let t = &text[k..text.len()];
    if t.len() == 0 {
        return false;
    }
    let first = t[0];
    if first == '(' || first == '{' || first == '[' {
        return true;
    }
    starts_with_keyword_exec(t, &arr_kw_const()) || starts_with_keyword_exec(t, &arr_kw_let())
        || starts_with_keyword_exec(t, &arr_kw_function()) || starts_with_keyword_exec(
        t,
        &arr_kw_return(),
    )
}

/// `line` without a `• ` bullet before code, if it has one.
pub open spec fn bullet_stripped(line: Seq<char>) -> Option<Seq<char>> {
    let ts = trim_start(line);
    let lead = line.len() - ts.len();
    if starts_with(ts, lit_bullet_space()) && codeish(ts.subrange(2, ts.len() as int)) {
        Some(line.subrange(0, lead) + line.subrange(lead + 2, line.len() as int))
    } else {
        None
    }
}

pub fn strip_bullet_prefix_if_codeish(line: &[char]) -> (r: Option<Vec<char>>)
    ensures
        match r {
            Some(v) => bullet_stripped(line@) == Some(v@),
            None => bullet_stripped(line@) is None,
        },
{
    let lead = trim_start_len(line);
    let ts = &line[lead..line.len()];
    if !starts_with_at(ts, &arr_bullet_space()) {
        return None;
    }
    let after = &ts[2..ts.len()];
    if !looks_codeish(after) {
        return None;
    }
    let mut out = subvec(line, 0, lead);
    append_chars(&mut out, &line[lead + 2..line.len()]);
    Some(out)
}

/// The index of the first line of `ls` that is not blank, or `ls.len()`.
pub open spec fn first_nonblank(ls: Seq<Seq<char>>) -> int
    decreases ls.len(),
{
    if ls.len() == 0 {
        0
    } else if trim(ls[0]).len() > 0 {
        0
    } else {
        1 + first_nonblank(ls.drop_first())
    }
}

pub proof fn lemma_first_nonblank(ls: Seq<Seq<char>>)
    ensures
        0 <= first_nonblank(ls) <= ls.len(),
        forall|k: int| 0 <= k < first_nonblank(ls) ==> trim(#[trigger] ls[k]).len() == 0,
        first_nonblank(ls) < ls.len() ==> trim(ls[first_nonblank(ls)]).len() > 0,
    decreases ls.len(),
{
    if ls.len() > 0 && trim(ls[0]).len() == 0 {
        lemma_first_nonblank(ls.drop_first());
        assert forall|k: int| 0 <= k < first_nonblank(ls) implies trim(#[trigger] ls[k]).len()
            == 0 by {
            if k > 0 {
                assert(ls[k] == ls.drop_first()[k - 1]);
            }
        }
    }
}

/// The text with the bullet before code on its first non-blank line removed,
/// and the number of bullets removed (0 or 1).
pub open spec fn strip_leading_bullet(s: Seq<char>) -> (Seq<char>, nat) {
    let ls = split_lines(s);
    let i = first_nonblank(ls);
    if i < ls.len() {
        match bullet_stripped(ls[i]) {
            Some(r) => (join_lines(ls.update(i, r)), 1),
            None => (s, 0),
        }
    } else {
        (s, 0)
    }
}

pub fn strip_leading_bullet_prefix(input: &[char]) -> (r: (Vec<char>, usize))
    ensures
        (r.0@, r.1 as nat) == strip_leading_bullet(input@),
{
    let mut lines = split_lines_vec(input);
    let ghost ls = views(lines@);
    proof {
        lemma_first_nonblank(ls);
    }
    let mut i: usize = 0;
    while i < lines.len() && is_blank(lines[i].as_slice())
        invariant
            ls == views(lines@),
            ls == split_lines(input@),
            i <= lines@.len(),
            i <= first_nonblank(ls),
            forall|k: int| 0 <= k < first_nonblank(ls) ==> trim(#[trigger] ls[k]).len() == 0,
            first_nonblank(ls) < ls.len() ==> trim(ls[first_nonblank(ls)]).len() > 0,
            0 <= first_nonblank(ls) <= ls.len(),
        decreases lines.len() - i,
    {
        assert(ls[i as int] == lines@[i as int]@);
        i = i + 1;
    }
    if i < lines.len() {
        assert(ls[i as int] == lines@[i as int]@);
    }
    assert(i == first_nonblank(ls));
    if i == lines.len() {
        return (subvec(input, 0, input.len()), 0);
    }
    match strip_bullet_prefix_if_codeish(lines[i].as_slice()) {
        Some(replaced) => {
            lines.set(i, replaced);
            assert(views(lines@) =~= ls.update(i as int, views(lines@)[i as int]));
            (join_lines_vec(&lines), 1)
        },
        None => (subvec(input, 0, input.len()), 0),
    }
}

// ---------------------------------------------------------------------------
// The whole pass
// ---------------------------------------------------------------------------

pub struct CleanResult {
    pub text: Vec<char>,
    pub normalized: Vec<char>,
    pub removed_invisibles: usize,
    pub stripped_prefixes: usize,
}

/// What the first pass makes of `input`: the cleaned text, the text with only
/// its line endings normalized, and the two counters.
pub open spec fn clean_spec(input: Seq<char>) -> (Seq<char>, Seq<char>, nat, nat) {
    let normalized = normalize_eol(input);
    let stripped = strip_leading_bullet(drop_invisibles(normalized));
    (stripped.0, normalized, count_invisibles(normalized), stripped.1)
}

pub fn clean_text(input: &[char]) -> (r: CleanResult)
    ensures
        (r.text@, r.normalized@, r.removed_invisibles as nat, r.stripped_prefixes as nat)
            == clean_spec(input@),
{
    let normalized = normalize_line_endings(input);
    let mut removed_invisibles: usize = 0;
    let mut cleaned: Vec<char> = Vec::new();
    let mut i: usize = 0;
    while i < normalized.len()
        invariant
            i <= normalized@.len(),
            cleaned@ == drop_invisibles(normalized@.subrange(0, i as int)),
            removed_invisibles as nat == count_invisibles(normalized@.subrange(0, i as int)),
            removed_invisibles <= i,
        decreases normalized.len() - i,
    {
        let ch = normalized[i];
        assert(normalized@.subrange(0, i + 1).drop_last() =~= normalized@.subrange(0, i as int));
        if ch == '\u{2028}' || ch == '\u{2029}' {
            cleaned.push('\n');
        } else if is_invisible_format_char(ch) {
            removed_invisibles = removed_invisibles + 1;
        } else {
            cleaned.push(ch);
        }
        i = i + 1;
    }
    assert(normalized@.subrange(0, normalized@.len() as int) =~= normalized@);
    let (text, stripped_prefixes) = strip_leading_bullet_prefix(cleaned.as_slice());
    CleanResult { text, normalized, removed_invisibles, stripped_prefixes }
}

} // verus!
