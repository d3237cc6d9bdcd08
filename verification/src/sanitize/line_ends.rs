//! The sanitizer's output ends its lines with LF alone: no carriage return
//! survives cleaning, and no later step brings one in.
use vstd::prelude::*;

use crate::sanitize::lines::{kept_range, lemma_kept_range};
use crate::sanitize::profile::wrap_width_spec;
use crate::sanitize::unwarp::unwarp_upto;
use crate::sanitize::wrap::join_single;
use crate::sanitize::{large_spec, sanitize_spec, text_mode_spec};
use crate::shell::continuation::strip_marker_spec;
use crate::shell::detect::is_shell_like;
use crate::shell::heredoc::{
    lemma_repair_lines_len, repair_lines, repair_step, repair_terminators, strip_lead_blank,
    strip_trail_blank, terminator_rewrite_spec,
};
use crate::shell::reflow::{
    nl_unless, reflow_from, reflow_line, reflow_shell_spec, trim_leading_by_spec, ReflowState,
    initial_state,
};
use crate::text::MAX_CLIPBOARD_CHARS;
use crate::sanitize::clean::{
    bullet_stripped, clean_spec, drop_invisibles, law_normalized_text_has_no_cr, normalize_eol,
    strip_leading_bullet,
};
use crate::text::{
    join_lines, lemma_split_lines_props, lemma_trim_end_prefix, lemma_trim_start_suffix,
    law_join_split, split_lines, trim_end, trim_end_all, trim_start,
};

verus! {

/// Whether `s` holds no carriage return.
pub open spec fn no_cr(s: Seq<char>) -> bool {
    forall|i: int| 0 <= i < s.len() ==> s[i] != '\r'
}

/// Whether no line of `ls` holds a carriage return.
pub open spec fn all_no_cr(ls: Seq<Seq<char>>) -> bool {
    forall|k: int| 0 <= k < ls.len() ==> no_cr(#[trigger] ls[k])
}

pub proof fn lemma_no_cr_concat(a: Seq<char>, b: Seq<char>)
    ensures
        no_cr(a + b) == (no_cr(a) && no_cr(b)),
{
    if no_cr(a) && no_cr(b) {
        assert forall|i: int| 0 <= i < (a + b).len() implies (a + b)[i] != '\r' by {
            if i >= a.len() {
                assert((a + b)[i] == b[i - a.len()]);
            }
        }
    }
    if no_cr(a + b) {
        assert forall|i: int| 0 <= i < a.len() implies a[i] != '\r' by {
            assert((a + b)[i] == a[i]);
        }
        assert forall|i: int| 0 <= i < b.len() implies b[i] != '\r' by {
            assert((a + b)[i + a.len()] == b[i]);
        }
    }
}

pub proof fn lemma_no_cr_subrange(s: Seq<char>, i: int, j: int)
    requires
        no_cr(s),
        0 <= i <= j <= s.len(),
    ensures
        no_cr(s.subrange(i, j)),
{
    assert forall|k: int| 0 <= k < j - i implies s.subrange(i, j)[k] != '\r' by {
        assert(s.subrange(i, j)[k] == s[i + k]);
    }
}

pub proof fn lemma_no_cr_trim_end(s: Seq<char>)
    requires
        no_cr(s),
    ensures
        no_cr(trim_end(s)),
{
    lemma_trim_end_prefix(s);
    lemma_no_cr_subrange(s, 0, trim_end(s).len() as int);
}

pub proof fn lemma_no_cr_trim_start(s: Seq<char>)
    requires
        no_cr(s),
    ensures
        no_cr(trim_start(s)),
{
    lemma_trim_start_suffix(s);
    lemma_no_cr_subrange(s, s.len() - trim_start(s).len(), s.len() as int);
}

/// Lines joined with LF hold no carriage return exactly when no line does.
pub proof fn lemma_no_cr_join_lines(ls: Seq<Seq<char>>)
    ensures
        no_cr(join_lines(ls)) == all_no_cr(ls),
    decreases ls.len(),
{
    if ls.len() == 0 {
    } else if ls.len() == 1 {
    } else {
        let init = ls.drop_last();
        lemma_no_cr_join_lines(init);
        lemma_no_cr_concat(join_lines(init) + seq!['\n'], ls.last());
        lemma_no_cr_concat(join_lines(init), seq!['\n']);
        if all_no_cr(ls) {
            assert forall|k: int| 0 <= k < init.len() implies no_cr(#[trigger] init[k]) by {
                assert(init[k] == ls[k]);
            }
            assert(no_cr(ls[ls.len() - 1]));
        }
        if no_cr(join_lines(ls)) {
            assert forall|k: int| 0 <= k < ls.len() implies no_cr(#[trigger] ls[k]) by {
                if k < init.len() {
                    assert(init[k] == ls[k]);
                }
            }
        }
    }
}

/// The lines of a text without carriage returns hold none.
pub proof fn lemma_no_cr_split_lines(s: Seq<char>)
    requires
        no_cr(s),
    ensures
        all_no_cr(split_lines(s)),
{
    law_join_split(s);
    lemma_no_cr_join_lines(split_lines(s));
}

pub proof fn lemma_no_cr_trim_end_all(ls: Seq<Seq<char>>)
    requires
        all_no_cr(ls),
    ensures
        all_no_cr(trim_end_all(ls)),
{
    assert forall|k: int| 0 <= k < trim_end_all(ls).len() implies no_cr(#[trigger] trim_end_all(ls)[k]) by {
        lemma_no_cr_trim_end(ls[k]);
    }
}

pub proof fn lemma_no_cr_drop_invisibles(s: Seq<char>)
    requires
        no_cr(s),
    ensures
        no_cr(drop_invisibles(s)),
    decreases s.len(),
{
    if s.len() > 0 {
        lemma_no_cr_subrange(s, 0, s.len() - 1);
        assert(s.drop_last() =~= s.subrange(0, s.len() - 1));
        lemma_no_cr_drop_invisibles(s.drop_last());
        assert(s.last() == s[s.len() - 1]);
        let p = drop_invisibles(s.drop_last());
        assert forall|i: int| 0 <= i < drop_invisibles(s).len() implies drop_invisibles(s)[i] != '\r' by {
            if i < p.len() {
                assert(p.push(s.last())[i] == p[i]);
                assert(p.push('\n')[i] == p[i]);
            }
        }
    }
}

pub proof fn lemma_no_cr_normalize_eol(s: Seq<char>)
    ensures
        no_cr(normalize_eol(s)),
{
    law_normalized_text_has_no_cr(s);
    assert forall|i: int| 0 <= i < normalize_eol(s).len() implies normalize_eol(s)[i] != '\r' by {
        if normalize_eol(s)[i] == '\r' {
            assert(normalize_eol(s).contains('\r'));
        }
    }
}

pub proof fn lemma_no_cr_strip_leading_bullet(s: Seq<char>)
    requires
        no_cr(s),
    ensures
        no_cr(strip_leading_bullet(s).0),
{
    let ls = split_lines(s);
    lemma_no_cr_split_lines(s);
    let i = crate::sanitize::clean::first_nonblank(ls);
    crate::sanitize::clean::lemma_first_nonblank(ls);
    if i < ls.len() {
        match bullet_stripped(ls[i]) {
            Some(r) => {
                let line = ls[i];
                let ts = trim_start(line);
                let lead = line.len() - ts.len();
                lemma_trim_start_suffix(line);
                assert(crate::text::starts_with(ts, crate::lits::lit_bullet_space()));
                assert(lead + 2 <= line.len());
                assert(r == line.subrange(0, lead) + line.subrange(lead + 2, line.len() as int));
                assert(no_cr(line));
                lemma_no_cr_subrange(line, 0, lead);
                lemma_no_cr_subrange(line, lead + 2, line.len() as int);
                lemma_no_cr_concat(line.subrange(0, lead), line.subrange(lead + 2, line.len() as int));
                assert forall|k: int| 0 <= k < ls.update(i, r).len() implies no_cr(
                    #[trigger] ls.update(i, r)[k],
                ) by {
                    if k != i {
                        assert(ls.update(i, r)[k] == ls[k]);
                    }
                }
                lemma_no_cr_join_lines(ls.update(i, r));
                assert(strip_leading_bullet(s).0 == join_lines(ls.update(i, r)));
            },
            None => {},
        }
    }
}

/// The cleaned text holds no carriage return.
pub proof fn lemma_no_cr_clean(input: Seq<char>)
    ensures
        no_cr(clean_spec(input).0),
{
    let normalized = normalize_eol(input);
    lemma_no_cr_normalize_eol(input);
    lemma_no_cr_drop_invisibles(normalized);
    lemma_no_cr_strip_leading_bullet(drop_invisibles(normalized));
}


// ---------------------------------------------------------------------------
// Text mode and large texts
// ---------------------------------------------------------------------------

pub proof fn lemma_no_cr_join_single(ls: Seq<Seq<char>>)
    requires
        all_no_cr(ls),
    ensures
        no_cr(join_single(ls)),
    decreases ls.len(),
{
    if ls.len() > 0 {
        let init = ls.drop_last();
        assert forall|k: int| 0 <= k < init.len() implies no_cr(#[trigger] init[k]) by {
            assert(init[k] == ls[k]);
        }
        lemma_no_cr_join_single(init);
        let out = join_single(init);
        assert(no_cr(ls[ls.len() - 1]));
        lemma_no_cr_trim_end(ls.last());
        lemma_no_cr_trim_start(ls.last());
        lemma_no_cr_trim_end(out);
        lemma_no_cr_concat(trim_end(out), seq![' ']);
        lemma_no_cr_concat(trim_end(out) + seq![' '], trim_end(ls.last()));
        lemma_no_cr_concat(trim_end(out) + seq![' '], trim_start(ls.last()));
    }
}

pub proof fn lemma_no_cr_unwarp(ls: Seq<Seq<char>>, k: int, wrap: Option<int>, slack: int)
    requires
        all_no_cr(ls),
        0 <= k < ls.len(),
    ensures
        no_cr(unwarp_upto(ls, k, wrap, slack).0),
    decreases k,
{
    if k <= 0 {
        lemma_no_cr_trim_end(ls[0]);
    } else {
        lemma_no_cr_unwarp(ls, k - 1, wrap, slack);
        let prev = unwarp_upto(ls, k - 1, wrap, slack).0;
        assert(no_cr(ls[k]));
        lemma_no_cr_trim_end(ls[k]);
        lemma_no_cr_trim_start(trim_end(ls[k]));
        lemma_no_cr_concat(prev, seq![' ']);
        lemma_no_cr_concat(prev, Seq::<char>::empty());
        lemma_no_cr_concat(prev + seq![' '], trim_start(trim_end(ls[k])));
        lemma_no_cr_concat(prev + Seq::<char>::empty(), trim_start(trim_end(ls[k])));
        lemma_no_cr_concat(prev, seq!['\n']);
        lemma_no_cr_concat(prev + seq!['\n'], trim_end(ls[k]));
    }
}

pub proof fn lemma_no_cr_text_mode(c: (Seq<char>, Seq<char>, nat, nat))
    requires
        no_cr(c.0),
    ensures
        no_cr(text_mode_spec(c).0),
{
    let ls = split_lines(c.0);
    lemma_no_cr_split_lines(c.0);
    lemma_kept_range(ls);
    let (s, e) = kept_range(ls);
    let kl = ls.subrange(s, e);
    assert forall|k: int| 0 <= k < kl.len() implies no_cr(#[trigger] kl[k]) by {
        assert(kl[k] == ls[s + k]);
    }
    let tl = trim_end_all(kl);
    lemma_no_cr_trim_end_all(kl);
    lemma_no_cr_join_single(tl);
    if kl.len() > 0 {
        lemma_no_cr_unwarp(kl, kl.len() - 1, wrap_width_spec(kl), 4);
    }
}

pub proof fn lemma_no_cr_large(c: (Seq<char>, Seq<char>, nat, nat))
    requires
        no_cr(c.0),
    ensures
        no_cr(large_spec(c).0),
{
    lemma_no_cr_split_lines(c.0);
    lemma_no_cr_trim_end_all(split_lines(c.0));
    lemma_no_cr_join_lines(trim_end_all(split_lines(c.0)));
}

// ---------------------------------------------------------------------------
// Shell sessions
// ---------------------------------------------------------------------------

pub proof fn lemma_no_cr_strip_lead_blank(s: Seq<char>)
    requires
        no_cr(s),
    ensures
        no_cr(strip_lead_blank(s)),
    decreases s.len(),
{
    if s.len() > 0 && (s[0] == ' ' || s[0] == '\t') {
        lemma_no_cr_subrange(s, 1, s.len() as int);
        assert(s.drop_first() =~= s.subrange(1, s.len() as int));
        lemma_no_cr_strip_lead_blank(s.drop_first());
    }
}

pub proof fn lemma_no_cr_strip_trail_blank(s: Seq<char>)
    requires
        no_cr(s),
    ensures
        no_cr(strip_trail_blank(s)),
    decreases s.len(),
{
    if s.len() > 0 && (s.last() == ' ' || s.last() == '\t' || s.last() == '\r') {
        lemma_no_cr_subrange(s, 0, s.len() - 1);
        assert(s.drop_last() =~= s.subrange(0, s.len() - 1));
        lemma_no_cr_strip_trail_blank(s.drop_last());
    }
}

pub proof fn lemma_no_cr_repair_lines(lines: Seq<Seq<char>>, active: Option<Seq<char>>)
    requires
        all_no_cr(lines),
    ensures
        all_no_cr(repair_lines(lines, active)),
    decreases lines.len(),
{
    if lines.len() > 0 {
        let line = lines[0];
        let (out, next) = repair_step(line, active);
        assert(no_cr(line));
        lemma_no_cr_strip_lead_blank(line);
        lemma_no_cr_strip_trail_blank(strip_lead_blank(line));
        assert(no_cr(out));
        let rest = lines.drop_first();
        assert forall|k: int| 0 <= k < rest.len() implies no_cr(#[trigger] rest[k]) by {
            assert(rest[k] == lines[k + 1]);
        }
        lemma_no_cr_repair_lines(rest, next);
        let r = repair_lines(lines, active);
        assert(r == seq![out] + repair_lines(rest, next));
        assert forall|k: int| 0 <= k < r.len() implies no_cr(#[trigger] r[k]) by {
            if k > 0 {
                assert(r[k] == repair_lines(rest, next)[k - 1]);
            }
        }
    }
}

pub proof fn lemma_no_cr_repair(text: Seq<char>)
    requires
        no_cr(text),
    ensures
        no_cr(repair_terminators(text)),
{
    lemma_no_cr_split_lines(text);
    lemma_no_cr_repair_lines(split_lines(text), None);
    lemma_no_cr_join_lines(repair_lines(split_lines(text), None));
}

pub proof fn lemma_no_cr_reflow_line(lines: Seq<Seq<char>>, k: int, st: ReflowState)
    requires
        all_no_cr(lines),
        0 <= k < lines.len(),
    ensures
        no_cr(reflow_line(lines, k, st).0),
{
    assert(no_cr(lines[k]));
    let line = trim_leading_by_spec(lines[k], st.skip);
    if !(st.skip == 0 || st.skip >= lines[k].len()) {
        lemma_no_cr_subrange(lines[k], st.skip as int, lines[k].len() as int);
    }
    assert(no_cr(line));
    lemma_no_cr_concat(line, seq!['\n']);
    lemma_no_cr_concat(line, Seq::<char>::empty());
    lemma_no_cr_concat(line, nl_unless(k == lines.len() - 1));
    lemma_trim_end_prefix(line);
    let n = trim_end(line).len();
    lemma_no_cr_subrange(line, 0, if n > 0 { n - 1 } else { 0 });
    assert(no_cr(strip_marker_spec(line)));
}

pub proof fn lemma_no_cr_reflow_from(lines: Seq<Seq<char>>, k: int, st: ReflowState)
    requires
        all_no_cr(lines),
    ensures
        no_cr(reflow_from(lines, k, st).0),
    decreases lines.len() - k,
{
    if 0 <= k < lines.len() {
        let s = reflow_line(lines, k, st);
        lemma_no_cr_reflow_line(lines, k, st);
        lemma_no_cr_reflow_from(lines, k + 1, s.2);
        lemma_no_cr_concat(s.0, reflow_from(lines, k + 1, s.2).0);
    }
}

pub proof fn lemma_no_cr_shell(text: Seq<char>)
    requires
        no_cr(text),
    ensures
        no_cr(reflow_shell_spec(text).0),
{
    lemma_no_cr_repair(text);
    lemma_no_cr_split_lines(repair_terminators(text));
    lemma_no_cr_reflow_from(split_lines(repair_terminators(text)), 0, initial_state());
}

// ---------------------------------------------------------------------------
// The whole pipeline
// ---------------------------------------------------------------------------

/// The sanitizer's output holds no carriage return: its lines end with LF.
pub proof fn law_sanitized_output_has_no_cr(input: Seq<char>)
    ensures
        no_cr(sanitize_spec(input).0),
{
    let c = clean_spec(input);
    lemma_no_cr_clean(input);
    if c.0.len() > MAX_CLIPBOARD_CHARS {
        lemma_no_cr_large(c);
    } else if is_shell_like(c.0) {
        lemma_no_cr_shell(c.0);
    } else {
        lemma_no_cr_text_mode(c);
    }
}

} // verus!
