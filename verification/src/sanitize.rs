//! The clipboard sanitizer: from raw clipboard text to reflowed text.
pub mod boundaries;
pub mod clean;
pub mod context;
pub mod heuristics;
pub mod line_ends;
pub mod laws;
pub mod lines;
pub mod normalize;
pub mod profile;
pub mod unwarp;
pub mod wrap;

use vstd::prelude::*;

use crate::lits::{
    arr_comma_space, arr_n_blank_line, arr_n_bullet_prefix, arr_n_cmd_caret,
    arr_n_explicit_continuation, arr_n_invisible_char, arr_n_line, arr_n_string_wrap,
    arr_n_trailing_space, arr_pl_es, arr_pl_s, arr_sanitized, arr_sanitized_prefix, arr_w_joined,
    arr_w_removed, arr_w_repaired, arr_w_stripped, arr_w_trimmed, arr_w_unwrapped, lit_comma_space,
    lit_n_blank_line, lit_n_bullet_prefix, lit_n_cmd_caret, lit_n_explicit_continuation,
    lit_n_invisible_char, lit_n_line, lit_n_string_wrap, lit_n_trailing_space, lit_pl_es, lit_pl_s,
    lit_sanitized, lit_sanitized_prefix, lit_w_joined, lit_w_removed, lit_w_repaired,
    lit_w_stripped, lit_w_trimmed, lit_w_unwrapped,
};
use crate::sanitize::clean::{clean_spec, clean_text, CleanResult};
use crate::sanitize::context::tes;
use crate::sanitize::lines::{
    all_wf, build_line_meta, kept_range, lemma_kept_range, raws, total_trailing, trim_blank_edges,
    LineMeta,
};
use crate::sanitize::profile::{estimate_wrap_profile, wrap_width_spec};
use crate::sanitize::unwarp::{unwarp_lines, unwarp_spec};
use crate::sanitize::wrap::{join_single, join_wrapped_single_line, rule_a, should_rule_a};
use crate::shell::detect::{is_shell_like, looks_shell_like_chars};
use crate::shell::reflow::{reflow_shell_chars, reflow_shell_spec};
use crate::text::{
    append_chars, chars_of, decimal, decimal_usize, join_lines, join_lines_vec, join_with,
    join_with_vec, split_lines, split_lines_vec, total_len, trim_end, trim_end_all, trim_end_vec, views,
    MAX_CLIPBOARD_CHARS,
};
use crate::unicode::string_from_chars;

verus! {

/// What a sanitize pass did.
#[derive(Debug, Default, Clone, Copy, PartialEq, Eq)]
pub struct SanitizeSummary {
    pub unwrapped_lines: usize,
    pub trimmed_trailing_ws: usize,
    pub trimmed_blank_lines: usize,
    pub removed_invisibles: usize,
    pub stripped_prefixes: usize,
    pub repaired_string_wraps: usize,
    pub removed_cmd_carets: usize,
    pub joined_explicit_continuations: usize,
}

/// The counters of a sanitize pass as numbers.
pub struct SummaryModel {
    pub unwrapped_lines: nat,
    pub trimmed_trailing_ws: nat,
    pub trimmed_blank_lines: nat,
    pub removed_invisibles: nat,
    pub stripped_prefixes: nat,
    pub repaired_string_wraps: nat,
    pub removed_cmd_carets: nat,
    pub joined_explicit_continuations: nat,
}

impl View for SanitizeSummary {
    type V = SummaryModel;

    open spec fn view(&self) -> SummaryModel {
        SummaryModel {
            unwrapped_lines: self.unwrapped_lines as nat,
            trimmed_trailing_ws: self.trimmed_trailing_ws as nat,
            trimmed_blank_lines: self.trimmed_blank_lines as nat,
            removed_invisibles: self.removed_invisibles as nat,
            stripped_prefixes: self.stripped_prefixes as nat,
            repaired_string_wraps: self.repaired_string_wraps as nat,
            removed_cmd_carets: self.removed_cmd_carets as nat,
            joined_explicit_continuations: self.joined_explicit_continuations as nat,
        }
    }
}

#[derive(Debug, Clone)]
pub struct SanitizeResult {
    pub output: String,
    pub summary: SanitizeSummary,
}

pub open spec fn model(
    unwrapped_lines: nat,
    trimmed_trailing_ws: nat,
    trimmed_blank_lines: nat,
    removed_invisibles: nat,
    stripped_prefixes: nat,
    repaired_string_wraps: nat,
    removed_cmd_carets: nat,
    joined_explicit_continuations: nat,
) -> SummaryModel {
    SummaryModel {
        unwrapped_lines,
        trimmed_trailing_ws,
        trimmed_blank_lines,
        removed_invisibles,
        stripped_prefixes,
        repaired_string_wraps,
        removed_cmd_carets,
        joined_explicit_continuations,
    }
}

// ---------------------------------------------------------------------------
// Large inputs
// ---------------------------------------------------------------------------

pub fn exceeds_max_clipboard_chars(text: &[char]) -> (r: bool)
    ensures
        r == (text@.len() > MAX_CLIPBOARD_CHARS),
{
    text.len() > MAX_CLIPBOARD_CHARS
}

/// Each line of `text` without trailing white space, and the number of
/// white-space characters removed.
pub open spec fn trim_trailing_ws_spec(text: Seq<char>) -> (Seq<char>, nat) {
    let ls = split_lines(text);
    (join_lines(trim_end_all(ls)), total_trailing(ls))
}

pub fn trim_trailing_whitespace(text: &[char]) -> (r: (Vec<char>, usize))
    ensures
        (r.0@, r.1 as nat) == trim_trailing_ws_spec(text@),
{
    let (metas, count) = build_line_meta(text);
    let mut trimmed: Vec<Vec<char>> = Vec::new();
    let mut i: usize = 0;
    let ghost ls = split_lines(text@);
    while i < metas.len()
        invariant
            raws(metas@) == ls,
            all_wf(metas@),
            i <= metas@.len(),
            views(trimmed@) == trim_end_all(ls.subrange(0, i as int)),
            trimmed@.len() == i,
        decreases metas.len() - i,
    {
        assert(metas@[i as int].wf());
        assert(ls[i as int] == metas@[i as int].raw@);
        let t = trim_end_vec(metas[i].raw.as_slice());
        let ghost before = views(trimmed@);
        let ghost old_trimmed = trimmed@;
        trimmed.push(t);
        assert forall|j: int| 0 <= j < i + 1 implies views(trimmed@)[j] == trim_end_all(
            ls.subrange(0, i + 1),
        )[j] by {
            if j < i {
                assert(trimmed@[j] == old_trimmed[j]);
                assert(views(trimmed@)[j] == before[j]);
                assert(before[j] == trim_end_all(ls.subrange(0, i as int))[j]);
            }
        }
        assert(views(trimmed@) =~= trim_end_all(ls.subrange(0, i + 1)));
        i = i + 1;
    }
    assert(ls.subrange(0, ls.len() as int) =~= ls);
    (join_lines_vec(&trimmed), count)
}

/// The result for a text too large to reflow: only trailing white space is
/// trimmed.
pub open spec fn large_spec(c: (Seq<char>, Seq<char>, nat, nat)) -> (Seq<char>, SummaryModel) {
    let t = trim_trailing_ws_spec(c.0);
    (t.0, model(0, t.1, 0, c.2, c.3, 0, 0, 0))
}

pub fn sanitize_large_input(clean: CleanResult) -> (r: (Vec<char>, SanitizeSummary))
    ensures
        (r.0@, r.1@) == large_spec(
            (clean.text@, clean.normalized@, clean.removed_invisibles as nat, clean.stripped_prefixes as nat),
        ),
{
    let (output, trimmed_trailing_ws) = trim_trailing_whitespace(clean.text.as_slice());
    (
        output,
        SanitizeSummary {
            unwrapped_lines: 0,
            trimmed_trailing_ws,
            trimmed_blank_lines: 0,
            removed_invisibles: clean.removed_invisibles,
            stripped_prefixes: clean.stripped_prefixes,
            repaired_string_wraps: 0,
            removed_cmd_carets: 0,
            joined_explicit_continuations: 0,
        },
    )
}

// ---------------------------------------------------------------------------
// Text mode
// ---------------------------------------------------------------------------

/// The text-mode result for a cleaned text: blank lines trimmed from both
/// ends, then either rule A (a few wrapped prose lines become one) or the
/// boundary-by-boundary reflow.
pub open spec fn text_mode_spec(c: (Seq<char>, Seq<char>, nat, nat)) -> (Seq<char>, SummaryModel) {
    let ls = split_lines(c.0);
    let tw = total_trailing(ls);
    let (s, e) = kept_range(ls);
    let kl = ls.subrange(s, e);
    let tb = (s + (ls.len() - e)) as nat;
    if kl.len() == 0 {
        (Seq::<char>::empty(), model(0, tw, tb, c.2, c.3, 0, 0, 0))
    } else {
        let tl = trim_end_all(kl);
        if rule_a(tl) {
            (join_single(tl), model((tl.len() - 1) as nat, tw, tb, c.2, c.3, 0, 0, 0))
        } else {
            let u = unwarp_spec(kl, wrap_width_spec(kl), 4);
            (u.0, model(u.1, tw, tb, c.2, c.3, 0, 0, 0))
        }
    }
}

proof fn lemma_tes_total(v: Seq<LineMeta>)
    requires
        all_wf(v),
    ensures
        total_len(tes(v)) <= total_len(raws(v)),
    decreases v.len(),
{
    if v.len() > 0 {
        lemma_tes_total(v.drop_last());
        assert(tes(v).drop_last() =~= tes(v.drop_last()));
        assert(raws(v).drop_last() =~= raws(v.drop_last()));
        assert(v.last().wf());
        crate::text::lemma_trim_end_prefix(v.last().raw@);
    }
}

fn sanitize_text_mode_from_clean(clean: CleanResult) -> (r: (Vec<char>, SanitizeSummary))
    ensures
        (r.0@, r.1@) == text_mode_spec(
            (clean.text@, clean.normalized@, clean.removed_invisibles as nat, clean.stripped_prefixes as nat),
        ),
{
    let text_len = clean.text.len();
    let (mut lines, trimmed_trailing_ws) = build_line_meta(clean.text.as_slice());
    let ghost ls = raws(lines@);
    proof {
        lemma_kept_range(ls);
        crate::text::lemma_split_total_len(clean.text@);
        crate::text::lemma_total_len_sub(ls, kept_range(ls).0, kept_range(ls).1);
    }
    let trimmed_blank_lines = trim_blank_edges(&mut lines);
    assert(raws(lines@) == ls.subrange(kept_range(ls).0, kept_range(ls).1));
    let mut summary = SanitizeSummary {
        unwrapped_lines: 0,
        trimmed_trailing_ws,
        trimmed_blank_lines,
        removed_invisibles: clean.removed_invisibles,
        stripped_prefixes: clean.stripped_prefixes,
        repaired_string_wraps: 0,
        removed_cmd_carets: 0,
        joined_explicit_continuations: 0,
    };
    if lines.len() == 0 {
        return (Vec::new(), summary);
    }
    let ghost kl = raws(lines@);
    let mut trimmed_lines: Vec<Vec<char>> = Vec::new();
    let mut i: usize = 0;
    while i < lines.len()
        invariant
            kl == raws(lines@),
            all_wf(lines@),
            i <= lines@.len(),
            views(trimmed_lines@) == trim_end_all(kl.subrange(0, i as int)),
            trimmed_lines@.len() == i,
        decreases lines.len() - i,
    {
        assert(lines@[i as int].wf());
        assert(kl[i as int] == lines@[i as int].raw@);
        let t = crate::text::subvec(lines[i].trimmed_end.as_slice(), 0, lines[i].trimmed_end.len());
        let ghost before = views(trimmed_lines@);
        let ghost old_tl = trimmed_lines@;
        trimmed_lines.push(t);
        assert forall|j: int| 0 <= j < i + 1 implies views(trimmed_lines@)[j] == trim_end_all(
            kl.subrange(0, i + 1),
        )[j] by {
            if j < i {
                assert(trimmed_lines@[j] == old_tl[j]);
                assert(views(trimmed_lines@)[j] == before[j]);
                assert(before[j] == trim_end_all(kl.subrange(0, i as int))[j]);
            }
        }
        assert(views(trimmed_lines@) =~= trim_end_all(kl.subrange(0, i + 1)));
        i = i + 1;
    }
    assert(kl.subrange(0, kl.len() as int) =~= kl);
    let profile = estimate_wrap_profile(&lines);
    let output = if should_rule_a(&trimmed_lines) {
        summary.unwrapped_lines = trimmed_lines.len() - 1;
        join_wrapped_single_line(&trimmed_lines)
    } else {
        proof {
            lemma_tes_total(lines@);
            crate::text::lemma_split_lines_props(clean.text@);
            assert(total_len(raws(lines@)) <= total_len(ls));
        }
        let (out, joins) = unwarp_lines(&lines, &profile);
        summary.unwrapped_lines = joins;
        out
    };
    (output, summary)
}

// ---------------------------------------------------------------------------
// The whole pipeline
// ---------------------------------------------------------------------------

/// The sanitizer's result for `input`: the text is cleaned; a text longer than
/// `MAX_CLIPBOARD_CHARS` only loses trailing white space; a shell session is
/// reflowed as a shell session; any other text is reflowed in text mode.
pub open spec fn sanitize_spec(input: Seq<char>) -> (Seq<char>, SummaryModel) {
    let c = clean_spec(input);
    if c.0.len() > MAX_CLIPBOARD_CHARS {
        large_spec(c)
    } else if is_shell_like(c.0) {
        let s = reflow_shell_spec(c.0);
        (s.0, model(s.1.0, 0, 0, c.2, c.3, s.1.1, s.1.2, s.1.3))
    } else {
        text_mode_spec(c)
    }
}

/// The text-mode result for `input`, with no shell detection.
pub open spec fn sanitize_text_mode_spec(input: Seq<char>) -> (Seq<char>, SummaryModel) {
    let c = clean_spec(input);
    if c.0.len() > MAX_CLIPBOARD_CHARS {
        large_spec(c)
    } else {
        text_mode_spec(c)
    }
}

pub fn sanitize_chars(input: &[char]) -> (r: (Vec<char>, SanitizeSummary))
    ensures
        (r.0@, r.1@) == sanitize_spec(input@),
{
    let clean = clean_text(input);
    if exceeds_max_clipboard_chars(clean.text.as_slice()) {
        return sanitize_large_input(clean);
    }
    if looks_shell_like_chars(clean.text.as_slice()) {
        let (output, s) = reflow_shell_chars(clean.text.as_slice());
        return (
            output,
            SanitizeSummary {
                unwrapped_lines: s.unwrapped_lines,
                trimmed_trailing_ws: 0,
                trimmed_blank_lines: 0,
                removed_invisibles: clean.removed_invisibles,
                stripped_prefixes: clean.stripped_prefixes,
                repaired_string_wraps: s.repaired_string_wraps,
                removed_cmd_carets: s.removed_cmd_carets,
                joined_explicit_continuations: s.joined_explicit_continuations,
            },
        );
    }
    sanitize_text_mode_from_clean(clean)
}

/// Sanitizes clipboard text; see `sanitize_spec`.
pub fn sanitize_text(input: &str) -> (r: SanitizeResult)
    ensures
        r.output@ == sanitize_spec(input@).0,
        r.summary@ == sanitize_spec(input@).1,
{
    let chars = chars_of(input);
    let (output, summary) = sanitize_chars(chars.as_slice());
    SanitizeResult { output: string_from_chars(output.as_slice()), summary }
}

/// Sanitizes clipboard text in text mode only; see `sanitize_text_mode_spec`.
pub fn sanitize_text_text_mode(input: &str) -> (r: SanitizeResult)
    ensures
        r.output@ == sanitize_text_mode_spec(input@).0,
        r.summary@ == sanitize_text_mode_spec(input@).1,
{
    let chars = chars_of(input);
    let clean = clean_text(chars.as_slice());
    let (output, summary) = if exceeds_max_clipboard_chars(clean.text.as_slice()) {
        sanitize_large_input(clean)
    } else {
        sanitize_text_mode_from_clean(clean)
    };
    SanitizeResult { output: string_from_chars(output.as_slice()), summary }
}


// ---------------------------------------------------------------------------
// The toast message
// ---------------------------------------------------------------------------

/// One part of the message: `word`, the count, `noun`, and `plural` where the
/// count is not 1.
pub open spec fn count_part(n: nat, word: Seq<char>, noun: Seq<char>, plural: Seq<char>) -> Seq<char> {
    word + decimal(n) + noun + (if n == 1 { Seq::<char>::empty() } else { plural })
}

/// The part for a counter, or nothing where it is 0.
pub open spec fn opt_part(n: nat, word: Seq<char>, noun: Seq<char>, plural: Seq<char>) -> Seq<Seq<char>> {
    if n > 0 {
        seq![count_part(n, word, noun, plural)]
    } else {
        Seq::<Seq<char>>::empty()
    }
}

/// The parts of the message, one for each counter above 0, in a fixed order.
pub open spec fn toast_parts(m: SummaryModel) -> Seq<Seq<char>> {
    opt_part(m.unwrapped_lines, lit_w_unwrapped(), lit_n_line(), lit_pl_s())
        + opt_part(m.trimmed_trailing_ws, lit_w_trimmed(), lit_n_trailing_space(), lit_pl_s())
        + opt_part(m.trimmed_blank_lines, lit_w_trimmed(), lit_n_blank_line(), lit_pl_s())
        + opt_part(m.removed_invisibles, lit_w_removed(), lit_n_invisible_char(), lit_pl_s())
        + opt_part(m.stripped_prefixes, lit_w_stripped(), lit_n_bullet_prefix(), lit_pl_es())
        + opt_part(m.repaired_string_wraps, lit_w_repaired(), lit_n_string_wrap(), lit_pl_s())
        + opt_part(m.removed_cmd_carets, lit_w_removed(), lit_n_cmd_caret(), lit_pl_s())
        + opt_part(
        m.joined_explicit_continuations,
        lit_w_joined(),
        lit_n_explicit_continuation(),
        lit_pl_s(),
    )
}

/// The message shown after a sanitize pass: "Clipboard sanitized", followed by
/// a colon and the parts separated by commas where there are any.
pub open spec fn toast_text(m: SummaryModel) -> Seq<char> {
    let p = toast_parts(m);
    if p.len() == 0 {
        lit_sanitized()
    } else {
        lit_sanitized_prefix() + join_with(p, lit_comma_space())
    }
}

fn push_part(parts: &mut Vec<Vec<char>>, n: usize, word: &[char], noun: &[char], plural: &[char])
    ensures
        views(final(parts)@) == views(old(parts)@) + opt_part(n as nat, word@, noun@, plural@),
{
    if n > 0 {
        let mut part: Vec<char> = Vec::new();
        append_chars(&mut part, word);
        let digits = decimal_usize(n);
        append_chars(&mut part, digits.as_slice());
        append_chars(&mut part, noun);
        if n != 1 {
            append_chars(&mut part, plural);
        } else {
            assert(part@ =~= part@ + Seq::<char>::empty());
        }
        let ghost before = parts@;
        parts.push(part);
        assert(views(parts@) =~= views(before) + opt_part(n as nat, word@, noun@, plural@));
    } else {
        assert(views(parts@) =~= views(parts@) + Seq::<Seq<char>>::empty());
    }
}

impl SanitizeSummary {
    /// The message that tells the user what a sanitize pass did.
    pub fn toast_message(&self) -> (r: String)
        ensures
            r@ == toast_text(self@),
    {
        let mut parts: Vec<Vec<char>> = Vec::new();
        push_part(&mut parts, self.unwrapped_lines, &arr_w_unwrapped(), &arr_n_line(), &arr_pl_s());
        push_part(&mut parts, self.trimmed_trailing_ws, &arr_w_trimmed(), &arr_n_trailing_space(), &arr_pl_s());
        push_part(&mut parts, self.trimmed_blank_lines, &arr_w_trimmed(), &arr_n_blank_line(), &arr_pl_s());
        push_part(&mut parts, self.removed_invisibles, &arr_w_removed(), &arr_n_invisible_char(), &arr_pl_s());
        push_part(&mut parts, self.stripped_prefixes, &arr_w_stripped(), &arr_n_bullet_prefix(), &arr_pl_es());
        push_part(&mut parts, self.repaired_string_wraps, &arr_w_repaired(), &arr_n_string_wrap(), &arr_pl_s());
        push_part(&mut parts, self.removed_cmd_carets, &arr_w_removed(), &arr_n_cmd_caret(), &arr_pl_s());
        push_part(
            &mut parts,
            self.joined_explicit_continuations,
            &arr_w_joined(),
            &arr_n_explicit_continuation(),
            &arr_pl_s(),
        );
        assert(views(parts@) =~= toast_parts(self@));
        if parts.len() == 0 {
            let a = arr_sanitized();
            return string_from_chars(&a);
        }
        let mut out: Vec<char> = Vec::new();
        append_chars(&mut out, &arr_sanitized_prefix());
        let joined = join_with_vec(&parts, &arr_comma_space());
        append_chars(&mut out, joined.as_slice());
        string_from_chars(out.as_slice())
    }
}

} // verus!
