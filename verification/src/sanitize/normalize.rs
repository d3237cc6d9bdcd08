//! Line-by-line normalization: lines without trailing white space, counted in
//! UTF-8 bytes, and blank lines dropped from both ends.
use vstd::prelude::*;

use crate::sanitize::lines::{kept_range, lemma_kept_range, last_nonblank_end, lemma_last_nonblank_end};
use crate::sanitize::clean::{first_nonblank, lemma_first_nonblank};
use crate::state::strs;
use crate::text::{
    chars_of, is_blank, lemma_trim_end_prefix, split_lines, split_lines_vec, trim, trim_end,
    trim_end_vec, views,
};
use crate::unicode::string_from_chars;

verus! {

/// The number of bytes of `c` in UTF-8.
pub open spec fn utf8_len(c: char) -> nat {
    if (c as u32) < 0x80 {
        1
    } else if (c as u32) < 0x800 {
        2
    } else if (c as u32) < 0x10000 {
        3
    } else {
        4
    }
}

/// The number of bytes of `s` in UTF-8.
pub open spec fn utf8_bytes(s: Seq<char>) -> nat
    decreases s.len(),
{
    if s.len() == 0 {
        0
    } else {
        utf8_bytes(s.drop_last()) + utf8_len(s.last())
    }
}

/// The bytes of trailing white space over all of `ls`.
pub open spec fn trailing_bytes(ls: Seq<Seq<char>>) -> nat
    decreases ls.len(),
{
    if ls.len() == 0 {
        0
    } else {
        trailing_bytes(ls.drop_last()) + (utf8_bytes(ls.last()) - utf8_bytes(trim_end(ls.last()))) as nat
    }
}

proof fn lemma_utf8_bytes_prefix(s: Seq<char>, n: int)
    requires
        0 <= n <= s.len(),
    ensures
        utf8_bytes(s.subrange(0, n)) <= utf8_bytes(s),
        utf8_bytes(s) <= 4 * s.len(),
    decreases s.len(),
{
    if s.len() > 0 {
        if n == s.len() {
            assert(s.subrange(0, n) =~= s);
        } else {
            assert(s.drop_last().subrange(0, n) =~= s.subrange(0, n));
        }
        lemma_utf8_bytes_prefix(s.drop_last(), if n == s.len() { n - 1 } else { n });
    } else {
        assert(s.subrange(0, n) =~= s);
    }
}

fn char_utf8_len(c: char) -> (r: usize)
    ensures
        r == utf8_len(c),
{
    let v = c as u32;
    if v < 0x80 {
        1
    } else if v < 0x800 {
        2
    } else if v < 0x10000 {
        3
    } else {
        4
    }
}

fn utf8_bytes_of(s: &[char]) -> (r: usize)
    requires
        4 * s@.len() <= usize::MAX,
    ensures
        r == utf8_bytes(s@),
{
    let mut total: usize = 0;
    let mut i: usize = 0;
    while i < s.len()
        invariant
            i <= s@.len(),
            4 * s@.len() <= usize::MAX,
            total == utf8_bytes(s@.subrange(0, i as int)),
            total <= 4 * i,
        decreases s.len() - i,
    {
        assert(s@.subrange(0, i + 1).drop_last() =~= s@.subrange(0, i as int));
        total = total + char_utf8_len(s[i]);
        i = i + 1;
    }
    assert(s@.subrange(0, s@.len() as int) =~= s@);
    total
}

/// Each line of `input` without trailing white space, and how many bytes of
/// white space that removed.
pub fn trim_trailing_whitespace(input: &str) -> (r: (Vec<String>, usize))
    requires
        4 * input@.len() <= usize::MAX,
    ensures
        strs(r.0@) == crate::text::trim_end_all(split_lines(input@)),
        r.1 == trailing_bytes(split_lines(input@)),
{
    let chars = chars_of(input);
    let lines = split_lines_vec(chars.as_slice());
    let ghost ls = split_lines(input@);
    proof {
        crate::text::lemma_split_total_len(input@);
    }
    let mut out: Vec<String> = Vec::new();
    let mut removed: usize = 0;
    let mut i: usize = 0;
    while i < lines.len()
        invariant
            views(lines@) == ls,
            i <= ls.len(),
            crate::text::total_len(ls) + ls.len() - 1 == input@.len(),
            4 * input@.len() <= usize::MAX,
            strs(out@) == crate::text::trim_end_all(ls.subrange(0, i as int)),
            removed == trailing_bytes(ls.subrange(0, i as int)),
            removed <= 4 * crate::text::total_len(ls.subrange(0, i as int)),
        decreases lines.len() - i,
    {
        let line = lines[i].as_slice();
        assert(line@ == ls[i as int]);
        proof {
            crate::text::lemma_total_len_prefix(ls, i as int);
            crate::text::lemma_total_len_prefix(ls, i + 1);
            assert(ls.subrange(0, i + 1).drop_last() =~= ls.subrange(0, i as int));
            lemma_trim_end_prefix(line@);
            lemma_utf8_bytes_prefix(line@, trim_end(line@).len() as int);
        }
        let trimmed = trim_end_vec(line);
        let full = utf8_bytes_of(line);
        let kept = utf8_bytes_of(trimmed.as_slice());
        removed = removed + (full - kept);
        let ghost before = out@;
        out.push(string_from_chars(trimmed.as_slice()));
        assert(strs(out@) =~= strs(before).push(trim_end(ls[i as int])));
        assert forall|k: int| 0 <= k < i + 1 implies strs(out@)[k] == crate::text::trim_end_all(
            ls.subrange(0, i + 1),
        )[k] by {
            if k < i {
                assert(strs(before)[k] == crate::text::trim_end_all(ls.subrange(0, i as int))[k]);
            }
        }
        assert(strs(out@) =~= crate::text::trim_end_all(ls.subrange(0, i + 1)));
        i = i + 1;
    }
    assert(ls.subrange(0, ls.len() as int) =~= ls);
    (out, removed)
}

/// Drops blank lines from both ends of `lines`, and returns how many.
pub fn trim_blank_edges(lines: &mut Vec<String>) -> (r: usize)
    ensures
        strs(final(lines)@) == strs(old(lines)@).subrange(
            kept_range(strs(old(lines)@)).0,
            kept_range(strs(old(lines)@)).1,
        ),
        r == kept_range(strs(old(lines)@)).0 + (old(lines)@.len() - kept_range(
            strs(old(lines)@),
        ).1),
{
    let ghost ls = strs(lines@);
    proof {
        lemma_first_nonblank(ls);
        lemma_last_nonblank_end(ls);
        lemma_kept_range(ls);
    }
    let mut start: usize = 0;
    let mut end: usize = lines.len();
    while start < end && is_blank(chars_of(lines[start].as_str()).as_slice())
        invariant
            ls == strs(lines@),
            end == lines@.len(),
            start <= end,
            start <= first_nonblank(ls),
            forall|k: int| 0 <= k < first_nonblank(ls) ==> trim(#[trigger] ls[k]).len() == 0,
            first_nonblank(ls) < ls.len() ==> trim(ls[first_nonblank(ls)]).len() > 0,
            0 <= first_nonblank(ls) <= ls.len(),
        decreases end - start,
    {
        assert(ls[start as int] == lines@[start as int]@);
        start = start + 1;
    }
    if start < end {
        assert(ls[start as int] == lines@[start as int]@);
    }
    assert(start == first_nonblank(ls));
    while end > start && is_blank(chars_of(lines[end - 1].as_str()).as_slice())
        invariant
            ls == strs(lines@),
            lines@.len() == ls.len(),
            start == first_nonblank(ls),
            start <= end <= ls.len(),
            start < ls.len() ==> last_nonblank_end(ls) <= end,
            start == ls.len() ==> end == ls.len(),
            forall|k: int| last_nonblank_end(ls) <= k < ls.len() ==> trim(#[trigger] ls[k]).len()
                == 0,
            last_nonblank_end(ls) > 0 ==> trim(ls[last_nonblank_end(ls) - 1]).len() > 0,
            start < ls.len() ==> trim(ls[start as int]).len() > 0,
        decreases end,
    {
        assert(ls[end - 1] == lines@[end - 1]@);
        end = end - 1;
    }
    if end > start {
        assert(ls[end - 1] == lines@[end - 1]@);
    }
    let trimmed = start + (lines.len() - end);
    let ghost before = lines@;
    lines.truncate(end);
    let kept = lines.split_off(start);
    *lines = kept;
    assert(lines@ =~= before.subrange(start as int, end as int));
    assert(strs(lines@) =~= ls.subrange(start as int, end as int));
    trimmed
}

} // verus!
