//! Lines of prose or code with the measurements the text-mode reflow uses.
use vstd::prelude::*;

use crate::sanitize::clean::{first_nonblank, lemma_first_nonblank};
use crate::text::{
    is_blank, lemma_split_total_len, lemma_total_len_prefix, lemma_trim_end_prefix,
    lemma_trim_start_suffix, split_lines, split_lines_vec, subvec, total_len, trim, trim_end,
    trim_end_len, trim_start, trim_start_len, views,
};

verus! {

pub struct LineMeta {
    pub raw: Vec<char>,
    pub raw_len_chars: usize,
    pub leading_ws_count: usize,
    pub trailing_ws_count: usize,
    pub trimmed_end: Vec<char>,
}

/// The number of white-space characters that start `l`.
pub open spec fn lead_ws(l: Seq<char>) -> nat {
    (l.len() - trim_start(l).len()) as nat
}

/// The number of white-space characters that end `l`.
pub open spec fn trail_ws(l: Seq<char>) -> nat {
    (l.len() - trim_end(l).len()) as nat
}

impl LineMeta {
    /// The measurements are those of `raw`.
    pub open spec fn wf(&self) -> bool {
        &&& self.raw_len_chars == self.raw@.len()
        &&& self.leading_ws_count == lead_ws(self.raw@)
        &&& self.trailing_ws_count == trail_ws(self.raw@)
        &&& self.trimmed_end@ == trim_end(self.raw@)
    }
}

pub open spec fn raws(v: Seq<LineMeta>) -> Seq<Seq<char>> {
    v.map_values(|m: LineMeta| m.raw@)
}

pub open spec fn all_wf(v: Seq<LineMeta>) -> bool {
    forall|i: int| 0 <= i < v.len() ==> (#[trigger] v[i]).wf()
}

/// The trailing white space summed over `ls`.
pub open spec fn total_trailing(ls: Seq<Seq<char>>) -> nat
    decreases ls.len(),
{
    if ls.len() == 0 {
        0
    } else {
        total_trailing(ls.drop_last()) + trail_ws(ls.last())
    }
}

proof fn lemma_total_trailing_le(ls: Seq<Seq<char>>)
    ensures
        total_trailing(ls) <= total_len(ls),
    decreases ls.len(),
{
    if ls.len() > 0 {
        lemma_total_trailing_le(ls.drop_last());
        lemma_trim_end_prefix(ls.last());
    }
}

pub fn line_meta(line: &[char]) -> (r: LineMeta)
    ensures
        r.wf(),
        r.raw@ == line@,
{
    let k = trim_start_len(line);
    let n = trim_end_len(line);
    proof {
        lemma_trim_end_prefix(line@);
        lemma_trim_start_suffix(line@);
    }
    assert(line@.subrange(0, line@.len() as int) =~= line@);
    LineMeta {
        raw: subvec(line, 0, line.len()),
        raw_len_chars: line.len(),
        leading_ws_count: k,
        trailing_ws_count: line.len() - n,
        trimmed_end: subvec(line, 0, n),
    }
}

/// Splits `input` into measured lines, and sums their trailing white space.
pub fn build_line_meta(input: &[char]) -> (r: (Vec<LineMeta>, usize))
    ensures
        raws(r.0@) == split_lines(input@),
        all_wf(r.0@),
        r.1 as nat == total_trailing(split_lines(input@)),
{
    let pieces = split_lines_vec(input);
    let ghost ls = views(pieces@);
    let total = input.len();
    proof {
        lemma_split_total_len(input@);
        crate::text::lemma_split_lines_props(input@);
    }
    let mut lines: Vec<LineMeta> = Vec::new();
    let mut trimmed_trailing_ws: usize = 0;
    let mut i: usize = 0;
    while i < pieces.len()
        invariant
            ls == views(pieces@),
            ls == split_lines(input@),
            total_len(ls) <= input@.len(),
            total == input@.len(),
            i <= pieces@.len(),
            raws(lines@) == ls.subrange(0, i as int),
            all_wf(lines@),
            trimmed_trailing_ws as nat == total_trailing(ls.subrange(0, i as int)),
        decreases pieces.len() - i,
    {
        let m = line_meta(pieces[i].as_slice());
        assert(ls[i as int] == pieces@[i as int]@);
        let ghost pre = ls.subrange(0, i + 1);
        assert(pre.drop_last() =~= ls.subrange(0, i as int));
        proof {
            lemma_total_trailing_le(pre);
            lemma_total_len_prefix(ls, i + 1);
        }
        trimmed_trailing_ws = trimmed_trailing_ws + m.trailing_ws_count;
        lines.push(m);
        assert(raws(lines@) =~= pre);
        i = i + 1;
    }
    assert(ls.subrange(0, ls.len() as int) =~= ls);
    (lines, trimmed_trailing_ws)
}

/// The index just after the last line of `ls` that is not blank, or 0.
pub open spec fn last_nonblank_end(ls: Seq<Seq<char>>) -> int
    decreases ls.len(),
{
    if ls.len() == 0 {
        0
    } else if trim(ls.last()).len() > 0 {
        ls.len() as int
    } else {
        last_nonblank_end(ls.drop_last())
    }
}

pub proof fn lemma_last_nonblank_end(ls: Seq<Seq<char>>)
    ensures
        0 <= last_nonblank_end(ls) <= ls.len(),
        forall|k: int| last_nonblank_end(ls) <= k < ls.len() ==> trim(#[trigger] ls[k]).len() == 0,
        last_nonblank_end(ls) > 0 ==> trim(ls[last_nonblank_end(ls) - 1]).len() > 0,
    decreases ls.len(),
{
    if ls.len() > 0 && trim(ls.last()).len() == 0 {
        lemma_last_nonblank_end(ls.drop_last());
        assert forall|k: int| last_nonblank_end(ls) <= k < ls.len() implies trim(
            #[trigger] ls[k],
        ).len() == 0 by {
            if k < ls.len() - 1 {
                assert(ls[k] == ls.drop_last()[k]);
            }
        }
    }
}

/// The lines kept once blank lines are removed from both ends.
pub open spec fn kept_range(ls: Seq<Seq<char>>) -> (int, int) {
    let s = first_nonblank(ls);
    (s, if s == ls.len() {
        ls.len() as int
    } else {
        last_nonblank_end(ls)
    })
}

pub proof fn lemma_kept_range(ls: Seq<Seq<char>>)
    ensures
        0 <= kept_range(ls).0 <= kept_range(ls).1 <= ls.len(),
{
    lemma_first_nonblank(ls);
    lemma_last_nonblank_end(ls);
    let s = first_nonblank(ls);
    if s < ls.len() {
        let e = last_nonblank_end(ls);
        if e <= s {
            assert(trim(ls[s]).len() == 0);
        }
    }
}

/// Removes blank lines from both ends of `lines`, and returns how many.
pub fn trim_blank_edges(lines: &mut Vec<LineMeta>) -> (r: usize)
    requires
        all_wf(old(lines)@),
    ensures
        raws(final(lines)@) == raws(old(lines)@).subrange(
            kept_range(raws(old(lines)@)).0,
            kept_range(raws(old(lines)@)).1,
        ),
        all_wf(final(lines)@),
        r == kept_range(raws(old(lines)@)).0 + (old(lines)@.len() - kept_range(
            raws(old(lines)@),
        ).1),
{
    let ghost ls = raws(lines@);
    proof {
        lemma_first_nonblank(ls);
        lemma_last_nonblank_end(ls);
        lemma_kept_range(ls);
    }
    let mut start: usize = 0;
    let mut end: usize = lines.len();
    while start < end && is_blank(lines[start].raw.as_slice())
        invariant
            ls == raws(lines@),
            end == lines@.len(),
            start <= end,
            start <= first_nonblank(ls),
            forall|k: int| 0 <= k < first_nonblank(ls) ==> trim(#[trigger] ls[k]).len() == 0,
            first_nonblank(ls) < ls.len() ==> trim(ls[first_nonblank(ls)]).len() > 0,
            0 <= first_nonblank(ls) <= ls.len(),
        decreases end - start,
    {
        assert(ls[start as int] == lines@[start as int].raw@);
        start = start + 1;
    }
    if start < end {
        assert(ls[start as int] == lines@[start as int].raw@);
    }
    assert(start == first_nonblank(ls));
    while end > start && is_blank(lines[end - 1].raw.as_slice())
        invariant
            ls == raws(lines@),
            lines@.len() == ls.len(),
            start == first_nonblank(ls),
            start <= end <= ls.len(),
            start < ls.len() ==> last_nonblank_end(ls) <= end,
            start == ls.len() ==> end == ls.len(),
            forall|k: int| last_nonblank_end(ls) <= k < ls.len() ==> trim(#[trigger] ls[k]).len()
                == 0,
            last_nonblank_end(ls) > 0 ==> trim(ls[last_nonblank_end(ls) - 1]).len() > 0,
            start < ls.len() ==> trim(ls[start as int]).len() > 0,
        decreases end,
    {
        assert(ls[end - 1] == lines@[end - 1].raw@);
        end = end - 1;
    }
    if end > start {
        assert(ls[end - 1] == lines@[end - 1].raw@);
    }
    let trimmed = start + (lines.len() - end);
    let ghost before = lines@;
    lines.truncate(end);
    let kept = lines.split_off(start);
    *lines = kept;
    assert(lines@ =~= before.subrange(start as int, end as int));
    assert(raws(lines@) =~= ls.subrange(start as int, end as int));
    trimmed
}

} // verus!
