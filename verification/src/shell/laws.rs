//! What shell detection, continuation joining and heredoc repair guarantee,
//! stated over the characters of their inputs and results.
use vstd::prelude::*;

use crate::shell::continuation::{continuation_spec, line_quote_run, ContinuationKind};
use crate::shell::detect::{
    is_shell_like, line_scores, max_score_spec, scores_fold, shell_flavor, strip_cr, text_lines,
};
use crate::shell::heredoc::{
    heredoc_opener, opener_scan, repair_lines, strip_lead_blank, strip_trail_blank};
use crate::shell::quotes::{delim_end, skip_ws};
use crate::shell::reflow::{reflow_line, ReflowState};
use crate::text::{
    is_ascii_alnum, is_ascii_alpha, is_ws, lemma_trim_end_prefix, lemma_trim_start_suffix,
    lemma_trim_start_ws_head, split_lines, trim, trim_end, trim_start,
};

verus! {

// ---------------------------------------------------------------------------
// Explicit continuations
// ---------------------------------------------------------------------------

/// Whether `c` can change the quote state of a shell line.
pub open spec fn quoting_char(c: char) -> bool {
    c == '\'' || c == '"' || c == '\\' || c == '`'
}

proof fn lemma_quote_run_plain(s: Seq<char>)
    requires
        forall|i: int| 0 <= i < s.len() ==> !quoting_char(#[trigger] s[i]),
    ensures
        line_quote_run(s, (false, false, false)) == (false, false, false),
    decreases s.len(),
{
    if s.len() > 0 {
        let init = s.drop_last();
        assert forall|i: int| 0 <= i < init.len() implies !quoting_char(#[trigger] init[i]) by {
            assert(init[i] == s[i]);
        }
        lemma_quote_run_plain(init);
        assert(s.last() == s[s.len() - 1]);
    }
}

/// A shell line whose last non-white-space character is a backslash that
/// follows white space, with no quote, backslash or backtick before it, ends
/// with a bash continuation.
pub proof fn law_backslash_continues(line: Seq<char>)
    requires
        ({
            let t = trim_end(line);
            &&& t.len() >= 2
            &&& t[t.len() - 1] == '\\'
            &&& is_ws(t[t.len() - 2])
            &&& forall|i: int| 0 <= i < t.len() - 1 ==> !quoting_char(#[trigger] t[i])
        }),
    ensures
        continuation_spec(line, false, false) == Some(ContinuationKind::Bash),
{
    let t = trim_end(line);
    let mi = t.len() - 1;
    lemma_trim_end_prefix(line);
    assert(t.last() == t[mi]);
    assert(line.subrange(0, mi) =~= t.subrange(0, mi));
    assert forall|i: int| 0 <= i < t.subrange(0, mi).len() implies !quoting_char(
        #[trigger] t.subrange(0, mi)[i],
    ) by {
        assert(t.subrange(0, mi)[i] == t[i]);
    }
    lemma_quote_run_plain(t.subrange(0, mi));
}

/// In the shell reflow, a line (not the last, outside quotes and here-strings)
/// that ends with such a backslash loses the backslash and what follows it and
/// is joined to the next line, whose leading blanks are skipped; the join
/// counts as one explicit continuation.
pub proof fn law_backslash_line_joins(lines: Seq<Seq<char>>, k: int)
    requires
        0 <= k < lines.len() - 1,
        ({
            let t = trim_end(lines[k]);
            &&& t.len() >= 2
            &&& t[t.len() - 1] == '\\'
            &&& is_ws(t[t.len() - 2])
            &&& forall|i: int| 0 <= i < t.len() - 1 ==> !quoting_char(#[trigger] t[i])
        }),
    ensures
        ({
            let st = ReflowState { in_single: false, in_double: false, here: None, skip: 0 };
            let r = reflow_line(lines, k, st);
            let t = trim_end(lines[k]);
            &&& r.0 == t.subrange(0, t.len() - 1)
            &&& r.1 == (0nat, 0nat, 0nat, 1nat)
            &&& r.2.here is None
            &&& r.2.skip == crate::shell::reflow::lead_blank(lines[k + 1])
        }),
{
    let line = lines[k];
    law_backslash_continues(line);
    let t = trim_end(line);
    lemma_trim_end_prefix(line);
    assert(t.last() == '\\');
    assert(!crate::text::ends_with(t, crate::lits::lit_at_double())) by {
        if crate::text::ends_with(t, crate::lits::lit_at_double()) {
            assert(t.subrange(t.len() - 2, t.len() as int)[1] == t[t.len() - 1]);
        }
    }
    assert(!crate::text::ends_with(t, crate::lits::lit_at_single())) by {
        if crate::text::ends_with(t, crate::lits::lit_at_single()) {
            assert(t.subrange(t.len() - 2, t.len() as int)[1] == t[t.len() - 1]);
        }
    }
    assert(line.subrange(0, t.len() - 1) =~= t.subrange(0, t.len() - 1));
}

// ---------------------------------------------------------------------------
// Prompts
// ---------------------------------------------------------------------------

/// A line that starts with the bash prompt `$ ` scores at least 2 for bash.
pub proof fn law_dollar_prompt_scores(lt: Seq<char>)
    requires
        lt.len() >= 2,
        lt[0] == '$',
        lt[1] == ' ',
    ensures
        line_scores(lt).0 >= 2,
{
    assert(lt.subrange(0, 2) =~= crate::lits::lit_dollar_space());
}

proof fn lemma_scores_fold_ge(ls: Seq<Seq<char>>, k: int)
    requires
        0 <= k < ls.len(),
    ensures
        scores_fold(ls).0 >= line_scores(trim_start(ls[k])).0,
    decreases ls.len(),
{
    if k < ls.len() - 1 {
        lemma_scores_fold_ge(ls.drop_last(), k);
        assert(ls.drop_last()[k] == ls[k]);
    }
}

/// Removing a carriage return from the end of a line keeps a `$ ` at its start.
proof fn lemma_prompt_survives_strip_cr(line: Seq<char>)
    requires
        trim_start(line).len() >= 2,
        trim_start(line)[0] == '$',
        trim_start(line)[1] == ' ',
    ensures
        trim_start(strip_cr(line)).len() >= 2,
        trim_start(strip_cr(line))[0] == '$',
        trim_start(strip_cr(line))[1] == ' ',
{
    if line.len() > 0 && line.last() == '\r' {
        let s = line.drop_last();
        lemma_trim_start_suffix(line);
        let ts = trim_start(line);
        let h = line.len() - ts.len();
        assert(line[h] == ts[0]);
        assert(line[h + 1] == ts[1]);
        assert(h + 1 < line.len() - 1) by {
            assert(line[line.len() - 1] == '\r');
        }
        assert(crate::text::all_ws(s.subrange(0, h))) by {
            assert forall|m: int| 0 <= m < h implies is_ws(#[trigger] s.subrange(0, h)[m]) by {
                assert(s.subrange(0, h)[m] == line.subrange(0, h)[m]);
            }
        }
        lemma_trim_start_ws_head(s, h);
        let rest = s.subrange(h, s.len() as int);
        assert(rest[0] == line[h]);
        assert(rest[1] == line[h + 1]);
        assert(trim_start(rest) == rest);
    }
}

proof fn lemma_find_from_same(c: Seq<char>, d: Seq<char>, j: int, q: char)
    requires
        c.len() == d.len(),
        j >= 1,
        forall|m: int| 1 <= m < c.len() ==> c[m] == d[m],
    ensures
        crate::shell::quotes::find_from(c, j, q) == crate::shell::quotes::find_from(d, j, q),
    decreases c.len() - j,
{
    if j < c.len() {
        lemma_find_from_same(c, d, j + 1, q);
    }
}

proof fn lemma_delim_end_same(c: Seq<char>, d: Seq<char>, j: int)
    requires
        c.len() == d.len(),
        j >= 1,
        forall|m: int| 1 <= m < c.len() ==> c[m] == d[m],
    ensures
        delim_end(c, j) == delim_end(d, j),
    decreases c.len() - j,
{
    if j < c.len() {
        lemma_delim_end_same(c, d, j + 1);
    }
}

proof fn lemma_op_scan_same(c: Seq<char>, d: Seq<char>, i: int, st: crate::shell::quotes::QuoteState)
    requires
        c.len() == d.len(),
        c.len() > 0,
        i >= 1,
        !is_ws(c[0]),
        !is_ws(d[0]),
        forall|m: int| 1 <= m < c.len() ==> c[m] == d[m],
    ensures
        crate::shell::detect_helpers::heredoc_op_scan(c, i, st)
            == crate::shell::detect_helpers::heredoc_op_scan(d, i, st),
    decreases c.len() - i,
{
    if i + 1 < c.len() {
        assert(c[i] == d[i] && c[i + 1] == d[i + 1]);
        assert(is_ws(c[i - 1]) == is_ws(d[i - 1]));
        if i + 2 < c.len() {
            assert(c[i + 2] == d[i + 2]);
        }
        if i + 3 < c.len() {
            assert(c[i + 3] == d[i + 3]);
        }
        lemma_op_scan_same(c, d, i + 1, st);
        lemma_op_scan_same(c, d, i + 2, st);
        lemma_op_scan_same(c, d, i + 1, crate::shell::quotes::quote_step(st, c[i]));
        lemma_find_from_same(c, d, i + 3, c[i + 2]);
        lemma_find_from_same(c, d, i + 4, c[i + 3]);
        lemma_delim_end_same(c, d, i + 2);
        lemma_delim_end_same(c, d, i + 3);
    }
}

/// Trimming the end of texts that differ only in a first character that is not
/// white space keeps them differing only there.
proof fn lemma_trim_end_same(c: Seq<char>, d: Seq<char>)
    requires
        c.len() == d.len(),
        c.len() > 0,
        !is_ws(c[0]),
        !is_ws(d[0]),
        forall|m: int| 1 <= m < c.len() ==> c[m] == d[m],
    ensures
        trim_end(c).len() == trim_end(d).len(),
        trim_end(c).len() >= 1,
        forall|m: int| 1 <= m < trim_end(c).len() ==> trim_end(c)[m] == trim_end(d)[m],
        trim_end(c)[0] == c[0],
        trim_end(d)[0] == d[0],
    decreases c.len(),
{
    if c.len() > 1 {
        assert(c.last() == d.last());
        if is_ws(c.last()) {
            assert forall|m: int| 1 <= m < c.drop_last().len() implies c.drop_last()[m]
                == d.drop_last()[m] by {
                assert(c.drop_last()[m] == c[m]);
            }
            lemma_trim_end_same(c.drop_last(), d.drop_last());
        }
    }
}

/// A `$ ` prompt at the start of a line adds exactly 2 to its bash score: the
/// line scores 2 more than the same line with a plain first character.
pub proof fn law_dollar_prompt_adds_two(rest: Seq<char>)
    ensures
        line_scores(seq!['$', ' '] + rest).0 == line_scores(seq!['x', ' '] + rest).0 + 2,
{
    let c = seq!['$', ' '] + rest;
    let d = seq!['x', ' '] + rest;
    assert forall|m: int| 1 <= m < c.len() implies c[m] == d[m] by {
        if m == 1 {
        } else {
            assert(c[m] == rest[m - 2]);
            assert(d[m] == rest[m - 2]);
        }
    }
    assert(c[0] == '$' && d[0] == 'x');
    // The heredoc scan sees the same.
    lemma_op_scan_same(c, d, 1, (false, false, false));
    assert(crate::shell::detect_helpers::has_heredoc_op(c)
        == crate::shell::detect_helpers::has_heredoc_op(d));
    // The trailing marker is the same.
    lemma_trim_end_same(c, d);
    let tc = trim_end(c);
    let td = trim_end(d);
    if tc.len() > 1 {
        assert(tc.last() == tc[tc.len() - 1]);
        assert(td.last() == td[td.len() - 1]);
    }
    assert(crate::shell::detect::trailing_marker(c) == crate::shell::detect::trailing_marker(d));
    // `$(` and `${` occur at the same places.
    assert forall|p: Seq<char>| p.len() == 2 && p[0] == '$' && p[1] != ' ' implies
        crate::text::contains_seq(c, p) == crate::text::contains_seq(d, p) by {
        if crate::text::contains_seq(c, p) {
            let i = choose|i: int| crate::text::occurs_at(c, p, i);
            assert(c.subrange(i, i + 2)[1] == c[i + 1]);
            if i == 0 {
                assert(c[1] == ' ');
            }
            assert(d.subrange(i, i + 2) =~= c.subrange(i, i + 2)) by {
                assert(c.subrange(i, i + 2)[0] == c[i]);
                assert(d.subrange(i, i + 2)[0] == d[i]);
                assert(c.subrange(i, i + 2)[1] == c[i + 1]);
                assert(d.subrange(i, i + 2)[1] == d[i + 1]);
            }
            assert(crate::text::occurs_at(d, p, i));
        }
        if crate::text::contains_seq(d, p) {
            let i = choose|i: int| crate::text::occurs_at(d, p, i);
            assert(d.subrange(i, i + 2)[0] == d[i]);
            if i == 0 {
                assert(d[0] == 'x');
            }
            assert(d.subrange(i, i + 2) =~= c.subrange(i, i + 2)) by {
                assert(c.subrange(i, i + 2)[0] == c[i]);
                assert(d.subrange(i, i + 2)[0] == d[i]);
                assert(c.subrange(i, i + 2)[1] == c[i + 1]);
                assert(d.subrange(i, i + 2)[1] == d[i + 1]);
            }
            assert(crate::text::occurs_at(c, p, i));
        }
    }
    assert(crate::lits::lit_dollar_paren()[1] != ' ');
    assert(crate::lits::lit_dollar_brace()[1] != ' ');
    // The prompts and command words at the start.
    assert(c.subrange(0, 2) =~= crate::lits::lit_dollar_space());
    assert(d.subrange(0, 2)[0] == 'x');
    assert(c.subrange(0, 2)[0] == '$');
    assert(!crate::text::starts_with(d, crate::lits::lit_dollar_space())) by {
        if crate::text::starts_with(d, crate::lits::lit_dollar_space()) {
            assert(d.subrange(0, 2)[0] == crate::lits::lit_dollar_space()[0]);
        }
    }
    assert(!crate::text::starts_with(c, crate::lits::lit_hash_space())) by {
        if crate::text::starts_with(c, crate::lits::lit_hash_space()) {
            assert(c.subrange(0, 2)[0] == crate::lits::lit_hash_space()[0]);
        }
    }
    assert(!crate::text::starts_with(d, crate::lits::lit_hash_space())) by {
        if crate::text::starts_with(d, crate::lits::lit_hash_space()) {
            assert(d.subrange(0, 2)[0] == crate::lits::lit_hash_space()[0]);
        }
    }
    assert forall|w: Seq<char>| w.len() >= 1 && w[0] != '$' && w[0] != 'x' implies
        !crate::text::starts_with(c, w) && !crate::text::starts_with(d, w) by {
        if crate::text::starts_with(c, w) {
            assert(c.subrange(0, w.len() as int)[0] == c[0]);
        }
        if crate::text::starts_with(d, w) {
            assert(d.subrange(0, w.len() as int)[0] == d[0]);
        }
    }
    assert(crate::lits::lit_export_space()[0] == 'e');
    assert(crate::lits::lit_sudo_space()[0] == 's');
    assert(crate::lits::lit_cd_space()[0] == 'c');
}

/// A text of more than one line in which some line starts, after its
/// indentation, with the bash prompt `$ ` is a shell session.
pub proof fn law_dollar_prompt_is_shell(text: Seq<char>, k: int)
    requires
        trim(text).contains('\n'),
        0 <= k < split_lines(trim(text)).len(),
        trim_start(split_lines(trim(text))[k]).len() >= 2,
        trim_start(split_lines(trim(text))[k])[0] == '$',
        trim_start(split_lines(trim(text))[k])[1] == ' ',
    ensures
        is_shell_like(text),
{
    let t = trim(text);
    let ls = text_lines(t);
    let line = split_lines(t)[k];
    assert(ls[k] == strip_cr(line));
    lemma_prompt_survives_strip_cr(line);
    law_dollar_prompt_scores(trim_start(ls[k]));
    lemma_scores_fold_ge(ls, k);
    assert(t.len() > 0);
}

// ---------------------------------------------------------------------------
// Heredoc openers
// ---------------------------------------------------------------------------

/// Whether `c` can be part of a bare heredoc delimiter.
pub open spec fn word_char(c: char) -> bool {
    is_ascii_alnum(c) || c == '_'
}

proof fn lemma_scan_to(c: Seq<char>, a: int, i: int)
    requires
        0 <= a <= i,
        i + 1 < c.len(),
        forall|m: int| 0 <= m < i ==> #[trigger] c[m] != '<' && c[m] != '\'' && c[m] != '"',
    ensures
        opener_scan(c, a, (false, false, false)) == opener_scan(c, i, (false, false, false)),
    decreases i - a,
{
    if a < i {
        lemma_scan_to(c, a + 1, i);
    }
}

proof fn lemma_skip_blanks(c: Seq<char>, j0: int, j: int)
    requires
        0 <= j0 <= j < c.len(),
        forall|m: int| j0 <= m < j ==> #[trigger] c[m] == ' ' || c[m] == '\t',
        !is_ws(c[j]),
    ensures
        skip_ws(c, j0) == j,
    decreases j - j0,
{
    if j0 < j {
        lemma_skip_blanks(c, j0 + 1, j);
    }
}

proof fn lemma_word_end(c: Seq<char>, j: int, e: int)
    requires
        0 <= j <= e <= c.len(),
        forall|m: int| j <= m < e ==> word_char(#[trigger] c[m]),
        e == c.len() || !word_char(c[e]),
    ensures
        delim_end(c, j) == e,
    decreases e - j,
{
    if j < e {
        lemma_word_end(c, j + 1, e);
    }
}

/// For a line whose first `<` starts `<<` before any quote, optionally followed
/// by `-`, then any number of spaces and tabs, then a word of two or more
/// letters, digits or `_` that holds a letter, that word is the heredoc the
/// line opens.
pub proof fn law_heredoc_opener_after_blanks(c: Seq<char>, i: int, j: int, e: int)
    requires
        0 <= i,
        i + 1 < c.len(),
        c[i] == '<',
        c[i + 1] == '<',
        forall|m: int| 0 <= m < i ==> #[trigger] c[m] != '<' && c[m] != '\'' && c[m] != '"',
        ({
            let j0 = if i + 2 < c.len() && c[i + 2] == '-' {
                i + 3
            } else {
                i + 2
            };
            &&& j0 <= j
            &&& forall|m: int| j0 <= m < j ==> #[trigger] c[m] == ' ' || c[m] == '\t'
        }),
        j + 2 <= e <= c.len(),
        forall|m: int| j <= m < e ==> word_char(#[trigger] c[m]),
        e == c.len() || !word_char(c[e]),
        exists|m: int| j <= m < e && is_ascii_alpha(#[trigger] c[m]),
    ensures
        heredoc_opener(c) == Some(c.subrange(j, e)),
{
    lemma_scan_to(c, 0, i);
    let j0 = if i + 2 < c.len() && c[i + 2] == '-' {
        i + 3
    } else {
        i + 2
    };
    assert(word_char(c[j]));
    lemma_skip_blanks(c, j0, j);
    lemma_word_end(c, j, e);
    let m = choose|m: int| j <= m < e && is_ascii_alpha(#[trigger] c[m]);
    assert(c.subrange(j, e)[m - j] == c[m]);
    assert(crate::shell::heredoc::has_alpha(c.subrange(j, e)));
}

/// After an opener of heredoc `d` (a word without blanks at its ends), the next
/// line that is `d` indented by spaces and tabs becomes `d` at column one.
pub proof fn law_indented_terminator_moves(opener: Seq<char>, pad: Seq<char>, d: Seq<char>)
    requires
        heredoc_opener(opener) == Some(d),
        d.len() > 0,
        d[0] != ' ' && d[0] != '\t',
        d.last() != ' ' && d.last() != '\t' && d.last() != '\r',
        pad.len() > 0,
        forall|m: int| 0 <= m < pad.len() ==> #[trigger] pad[m] == ' ' || pad[m] == '\t',
    ensures
        repair_lines(seq![opener, pad + d], None) == seq![opener, d],
{
    let term = pad + d;
    lemma_strip_lead_pad(pad, d);
    assert(strip_trail_blank(d) == d);
    assert(term != d) by {
        if term == d {
            assert(term.len() == pad.len() + d.len());
        }
    }
    let ls = seq![opener, term];
    assert(ls.drop_first() =~= seq![term]);
    assert(seq![term].drop_first() =~= Seq::<Seq<char>>::empty());
    assert(crate::shell::heredoc::terminator_rewrite_spec(term, d) == Some(true));
    assert(crate::shell::heredoc::repair_step(term, Some(d)) == (d, None::<Seq<char>>));
    assert(seq![term][0] == term);
    assert(repair_lines(Seq::<Seq<char>>::empty(), None) =~= Seq::<Seq<char>>::empty());
    assert(repair_lines(seq![term], Some(d)) =~= seq![d] + Seq::<Seq<char>>::empty());
    assert(repair_lines(seq![term], Some(d)) =~= seq![d]);
    assert(ls[0] == opener);
    assert(repair_lines(ls, None) =~= seq![opener] + seq![d]);
    assert(seq![opener] + seq![d] =~= seq![opener, d]);
}

proof fn lemma_strip_lead_pad(pad: Seq<char>, d: Seq<char>)
    requires
        d.len() > 0,
        d[0] != ' ' && d[0] != '\t',
        forall|m: int| 0 <= m < pad.len() ==> #[trigger] pad[m] == ' ' || pad[m] == '\t',
    ensures
        strip_lead_blank(pad + d) == d,
    decreases pad.len(),
{
    if pad.len() == 0 {
        assert(pad + d =~= d);
    } else {
        let rest = pad.drop_first();
        assert forall|m: int| 0 <= m < rest.len() implies #[trigger] rest[m] == ' ' || rest[m]
            == '\t' by {
            assert(rest[m] == pad[m + 1]);
        }
        lemma_strip_lead_pad(rest, d);
        assert((pad + d)[0] == pad[0]);
        assert((pad + d).drop_first() =~= rest + d);
    }
}

} // verus!
