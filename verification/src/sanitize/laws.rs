//! What text-mode cleaning and reflow guarantee, stated over the characters of
//! their inputs and results.
use vstd::prelude::*;

use crate::sanitize::boundaries::{decide, CtxView};
use crate::sanitize::clean::{
    bullet_stripped, clean_spec, count_invisibles, drop_invisibles, first_nonblank, is_invisible,
    lemma_first_nonblank, normalize_eol, strip_leading_bullet,
};
use crate::sanitize::heuristics::{identifier_split, is_ident, last_non_ident};
use crate::sanitize::lines::lead_ws;
use crate::text::{
    is_ascii_alnum, is_ws, join_lines, law_join_split, lemma_trim_end_prefix,
    lemma_trim_start_suffix, split_lines, trim, trim_end, trim_start,
};

verus! {

// ---------------------------------------------------------------------------
// Joining after `return` and `throw`
// ---------------------------------------------------------------------------

proof fn lemma_last_non_ident_skip(s: Seq<char>, k: int)
    requires
        0 <= k <= s.len(),
        forall|i: int| s.len() - k <= i < s.len() ==> is_ident(#[trigger] s[i]),
    ensures
        last_non_ident(s) == last_non_ident(s.subrange(0, s.len() - k)),
    decreases k,
{
    if k == 0 {
        assert(s.subrange(0, s.len() as int) =~= s);
    } else {
        assert(s.last() == s[s.len() - 1]);
        let init = s.drop_last();
        lemma_last_non_ident_skip(init, k - 1);
        assert(init.subrange(0, init.len() - (k - 1)) =~= s.subrange(0, s.len() - k));
    }
}

proof fn lemma_trim_end_keeps(s: Seq<char>)
    requires
        s.len() > 0,
        !is_ws(s.last()),
    ensures
        trim_end(s) == s,
{
}

proof fn lemma_trim_start_keeps(s: Seq<char>)
    requires
        s.len() > 0,
        !is_ws(s[0]),
    ensures
        trim_start(s) == s,
{
}

proof fn lemma_trim_start_nonempty(s: Seq<char>, i: int)
    requires
        0 <= i < s.len(),
        !is_ws(s[i]),
    ensures
        trim_start(s).len() > 0,
{
    lemma_trim_start_suffix(s);
    if trim_start(s).len() == 0 {
        assert(s.subrange(0, s.len() as int)[i] == s[i]);
    }
}

/// At a boundary outside a block comment, where the line before (not indented)
/// ends with the word `return` or `throw`, after white space or an opening or
/// separating punctuation mark, and the next line is indented and starts like
/// an expression (a letter, digit, quote, opening bracket, `_` or `$`), the
/// reflow joins the two lines with one space.
pub proof fn law_keyword_wrap_joins(
    prev: Seq<char>,
    next: Seq<char>,
    wrap: Option<int>,
    slack: int,
    ctx: CtxView,
    kw: Seq<char>,
)
    requires
        kw == seq!['r', 'e', 't', 'u', 'r', 'n'] || kw == seq!['t', 'h', 'r', 'o', 'w'],
        !ctx.4,
        prev.len() > 0,
        !is_ws(prev[0]),
        next.len() > 0,
        next[0] == ' ' || next[0] == '\t',
        ({
            let pt = trim_end(prev);
            &&& kw.len() <= pt.len()
            &&& pt.subrange(pt.len() - kw.len(), pt.len() as int) == kw
            &&& (pt.len() == kw.len() || {
                let c = pt[pt.len() - kw.len() - 1];
                is_ws(c) || c == '(' || c == ')' || c == '{' || c == '}' || c == ';' || c == ','
                    || c == '='
            })
        }),
        ({
            let nts = trim_start(trim_end(next));
            nts.len() > 0 && (is_ascii_alnum(nts[0]) || nts[0] == '"' || nts[0] == '\''
                || nts[0] == '`' || nts[0] == '(' || nts[0] == '[' || nts[0] == '{' || nts[0]
                == '_' || nts[0] == '$')
        }),
    ensures
        decide(prev, next, wrap, slack, ctx) == (true, true),
{
    let pt = trim_end(prev);
    let nt = trim_end(next);
    let nts = trim_start(nt);
    let n = pt.len();
    let k = kw.len() as int;
    lemma_trim_end_prefix(prev);
    lemma_trim_end_prefix(next);
    // The line before ends with the keyword, so it is not blank.
    assert(pt.last() == pt.subrange(n - k, n as int)[k - 1]);
    assert(pt.last() == kw[k - 1]);
    lemma_trim_end_keeps(pt);
    lemma_trim_start_nonempty(pt, n - 1);
    assert(trim(pt).len() > 0);
    // The next line is not blank either.
    lemma_trim_start_suffix(nt);
    if nt.len() > 0 {
        assert(nt.last() == nt[nt.len() - 1]);
    }
    assert(trim_end(nt) == nt);
    assert(trim(nt) == nts);
    // Indentation: none before, some after.
    lemma_trim_start_keeps(prev);
    assert(lead_ws(prev) == 0);
    lemma_trim_start_suffix(next);
    assert(lead_ws(next) > 0) by {
        if trim_start(next).len() == next.len() {
            assert(next.subrange(0, next.len() as int)[0] == next[0]);
            assert(trim_start(next)[0] == next[0]);
        }
    }
    // The line before ends with neither `{` nor `;`.
    assert(pt.subrange(n - 1, n as int) == seq![pt.last()]);
    // The keyword is not the tail of an identifier cut at a separator.
    assert forall|i: int| n - k <= i < n implies is_ident(#[trigger] pt[i]) by {
        assert(pt[i] == pt.subrange(n - k, n as int)[i - (n - k)]);
    }
    lemma_last_non_ident_skip(pt, k);
    if n > k {
        let c = pt[n - k - 1];
        let before = pt.subrange(0, n - k);
        assert(before.last() == c);
        assert(!is_ident(c));
        assert(last_non_ident(before) == Some(c));
    } else {
        assert(pt.subrange(0, 0).len() == 0);
    }
    assert(!identifier_split(pt, nts));
    lemma_trim_start_keeps(nts);
    assert(kw[k - 1] == 'n' || kw[k - 1] == 'w');
    assert(pt.subrange(n - 1, n as int)[0] == pt[n - 1]);
    assert(pt[n - 1] == pt.last());
    if crate::text::ends_with(pt, seq!['{']) {
        assert(pt.subrange(n - 1, n as int)[0] == seq!['{'][0]);
    }
    if crate::text::ends_with(pt, seq![';']) {
        assert(pt.subrange(n - 1, n as int)[0] == seq![';'][0]);
    }
    assert(nts[0] != '}' && nts[0] != ']' && nts[0] != ')');
    assert(crate::sanitize::boundaries::expr_start(nts));
    assert(crate::sanitize::boundaries::ends_with_kw(pt, crate::lits::lit_kw_return())
        || crate::sanitize::boundaries::ends_with_kw(pt, crate::lits::lit_kw_throw()));
}

// ---------------------------------------------------------------------------
// Invisible characters
// ---------------------------------------------------------------------------

/// The characters that cleaning removes: controls other than LF, CR and tab,
/// the soft hyphen, the Arabic letter mark, the Mongolian vowel separator, the
/// zero-width characters U+200B..U+200F, the embedding and override marks
/// U+202A..U+202E, U+2060..U+2064, the isolates U+2066..U+2069, and the byte
/// order mark.
pub open spec fn unseen(ch: char) -> bool {
    (ch <= '\u{1f}' && ch != '\n' && ch != '\r' && ch != '\t') || ('\u{7f}' <= ch && ch
        <= '\u{9f}') || ch == '\u{ad}' || ch == '\u{61c}' || ch == '\u{180e}' || ('\u{200b}' <= ch
        && ch <= '\u{200f}') || ('\u{202a}' <= ch && ch <= '\u{202e}') || ('\u{2060}' <= ch && ch
        <= '\u{2064}') || ('\u{2066}' <= ch && ch <= '\u{2069}') || ch == '\u{feff}'
}

/// Whether every character of `s` satisfies `p`.
pub open spec fn all_chars(s: Seq<char>, p: spec_fn(char) -> bool) -> bool {
    forall|i: int| 0 <= i < s.len() ==> p(#[trigger] s[i])
}

/// The number of characters of `s` that satisfy `p`.
pub open spec fn count_where(s: Seq<char>, p: spec_fn(char) -> bool) -> nat
    decreases s.len(),
{
    if s.len() == 0 {
        0
    } else {
        count_where(s.drop_last(), p) + if p(s.last()) {
            1nat
        } else {
            0
        }
    }
}

proof fn lemma_all_chars_concat(a: Seq<char>, b: Seq<char>, p: spec_fn(char) -> bool)
    ensures
        all_chars(a + b, p) == (all_chars(a, p) && all_chars(b, p)),
{
    if all_chars(a, p) && all_chars(b, p) {
        assert forall|i: int| 0 <= i < (a + b).len() implies p(#[trigger] (a + b)[i]) by {
            if i >= a.len() {
                assert((a + b)[i] == b[i - a.len()]);
            } else {
                assert((a + b)[i] == a[i]);
            }
        }
    }
    if all_chars(a + b, p) {
        assert forall|i: int| 0 <= i < a.len() implies p(#[trigger] a[i]) by {
            assert((a + b)[i] == a[i]);
        }
        assert forall|i: int| 0 <= i < b.len() implies p(#[trigger] b[i]) by {
            assert((a + b)[i + a.len()] == b[i]);
        }
    }
}

proof fn lemma_all_chars_subrange(s: Seq<char>, i: int, j: int, p: spec_fn(char) -> bool)
    requires
        all_chars(s, p),
        0 <= i <= j <= s.len(),
    ensures
        all_chars(s.subrange(i, j), p),
{
    assert forall|k: int| 0 <= k < j - i implies p(#[trigger] s.subrange(i, j)[k]) by {
        assert(s.subrange(i, j)[k] == s[i + k]);
    }
}

/// Lines joined with LF, where LF satisfies `p`: every character satisfies `p`
/// exactly when every character of every line does.
proof fn lemma_all_chars_join(ls: Seq<Seq<char>>, p: spec_fn(char) -> bool)
    requires
        p('\n'),
    ensures
        all_chars(join_lines(ls), p) == (forall|k: int| 0 <= k < ls.len() ==> all_chars(#[trigger] ls[k], p)),
    decreases ls.len(),
{
    if ls.len() == 1 {
    } else if ls.len() > 1 {
        let init = ls.drop_last();
        lemma_all_chars_join(init, p);
        lemma_all_chars_concat(join_lines(init) + seq!['\n'], ls.last(), p);
        lemma_all_chars_concat(join_lines(init), seq!['\n'], p);
        if forall|k: int| 0 <= k < ls.len() ==> all_chars(#[trigger] ls[k], p) {
            assert forall|k: int| 0 <= k < init.len() implies all_chars(#[trigger] init[k], p) by {
                assert(init[k] == ls[k]);
            }
            assert(all_chars(ls[ls.len() - 1], p));
        }
        if all_chars(join_lines(ls), p) {
            assert forall|k: int| 0 <= k < ls.len() implies all_chars(#[trigger] ls[k], p) by {
                if k < init.len() {
                    assert(init[k] == ls[k]);
                }
            }
        }
    }
}

proof fn lemma_all_chars_split(s: Seq<char>, p: spec_fn(char) -> bool)
    requires
        p('\n'),
        all_chars(s, p),
    ensures
        forall|k: int| 0 <= k < split_lines(s).len() ==> all_chars(#[trigger] split_lines(s)[k], p),
{
    law_join_split(s);
    lemma_all_chars_join(split_lines(s), p);
}

proof fn lemma_all_chars_strip_bullet(s: Seq<char>, p: spec_fn(char) -> bool)
    requires
        p('\n'),
        all_chars(s, p),
    ensures
        all_chars(strip_leading_bullet(s).0, p),
{
    let ls = split_lines(s);
    lemma_all_chars_split(s, p);
    let i = first_nonblank(ls);
    lemma_first_nonblank(ls);
    if i < ls.len() {
        match bullet_stripped(ls[i]) {
            Some(r) => {
                let line = ls[i];
                let ts = trim_start(line);
                let lead = line.len() - ts.len();
                lemma_trim_start_suffix(line);
                assert(crate::text::starts_with(ts, crate::lits::lit_bullet_space()));
                assert(r == line.subrange(0, lead) + line.subrange(lead + 2, line.len() as int));
                assert(all_chars(line, p));
                lemma_all_chars_subrange(line, 0, lead, p);
                lemma_all_chars_subrange(line, lead + 2, line.len() as int, p);
                lemma_all_chars_concat(
                    line.subrange(0, lead),
                    line.subrange(lead + 2, line.len() as int),
                    p,
                );
                assert forall|k: int| 0 <= k < ls.update(i, r).len() implies all_chars(
                    #[trigger] ls.update(i, r)[k],
                    p,
                ) by {
                    if k != i {
                        assert(ls.update(i, r)[k] == ls[k]);
                    }
                }
                lemma_all_chars_join(ls.update(i, r), p);
            },
            None => {},
        }
    }
}

proof fn lemma_unseen_is_invisible(ch: char)
    ensures
        unseen(ch) == is_invisible(ch),
{
}

proof fn lemma_drop_invisibles_clean(s: Seq<char>)
    ensures
        all_chars(drop_invisibles(s), |c: char| !unseen(c)),
    decreases s.len(),
{
    if s.len() > 0 {
        lemma_drop_invisibles_clean(s.drop_last());
        let q = drop_invisibles(s.drop_last());
        let c = s.last();
        lemma_unseen_is_invisible(c);
        assert forall|i: int| 0 <= i < drop_invisibles(s).len() implies !unseen(
            #[trigger] drop_invisibles(s)[i],
        ) by {
            if i < q.len() {
                assert(q.push('\n')[i] == q[i]);
                assert(q.push(c)[i] == q[i]);
            }
        }
    }
}

proof fn lemma_count_unseen(s: Seq<char>)
    ensures
        count_invisibles(s) == count_where(s, |c: char| unseen(c)),
    decreases s.len(),
{
    if s.len() > 0 {
        lemma_count_unseen(s.drop_last());
        lemma_unseen_is_invisible(s.last());
    }
}

/// Cleaning leaves none of the characters in `unseen` in the text, and counts
/// as removed exactly the characters in `unseen` of the text with normalized
/// line endings.
pub proof fn law_clean_removes_invisibles(input: Seq<char>)
    ensures
        all_chars(clean_spec(input).0, |c: char| !unseen(c)),
        clean_spec(input).2 == count_where(normalize_eol(input), |c: char| unseen(c)),
{
    let normalized = normalize_eol(input);
    let p = |c: char| !unseen(c);
    lemma_drop_invisibles_clean(normalized);
    lemma_all_chars_strip_bullet(drop_invisibles(normalized), p);
    lemma_count_unseen(normalized);
}

} // verus!
