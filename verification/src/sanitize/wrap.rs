//! Rule A: a short text of a few wrapped prose lines becomes one line.
use vstd::prelude::*;

use crate::sanitize::heuristics::{code_block, identifier_split, is_identifier_split, is_probably_code_block};
use crate::text::{
    append_chars, is_whitespace, is_ws, join_lines, trim, trim_end, trim_end_len, trim_end_vec,
    trim_start, trim_start_len, trim_start_vec, views,
};
use crate::unicode::{char_is_lowercase, lowercase_char};

verus! {

/// Whether a space belongs between `prev` and `next` when they are joined:
/// both have text at the seam, and the seam does not cut an identifier.
pub open spec fn insert_space(prev: Seq<char>, next: Seq<char>) -> bool {
    let p = trim_end(prev);
    let n = trim_start(next);
    p.len() > 0 && n.len() > 0 && !is_ws(p.last()) && !is_ws(n[0]) && !identifier_split(p, n)
}

pub fn should_insert_space(prev: &[char], next: &[char]) -> (r: bool)
    ensures
        r == insert_space(prev@, next@),
{
    let p = trim_end_vec(prev);
    let n = trim_start_vec(next);
    if p.len() == 0 || n.len() == 0 {
        return false;
    }
    if is_whitespace(p[p.len() - 1]) || is_whitespace(n[0]) {
        return false;
    }
    !is_identifier_split(p.as_slice(), n.as_slice())
}

/// Whether `line` reads as the continuation of a wrapped sentence: it goes on
/// with a lower-case letter or with punctuation that closes or continues.
pub open spec fn looks_wrapped_spec(line: Seq<char>) -> bool {
    let t = trim_start(line);
    t.len() > 0 && (lowercase_char(t[0]) || t[0] == ',' || t[0] == '.' || t[0] == ';' || t[0] == ':'
        || t[0] == ')' || t[0] == ']' || t[0] == '}')
}

pub fn looks_wrapped(line: &[char]) -> (r: bool)
    ensures
        r == looks_wrapped_spec(line@),
{
    let k = trim_start_len(line);
    if k == line.len() {
        return false;
    }
    let c = line[k];
    assert(line@.subrange(k as int, line@.len() as int)[0] == c);
    char_is_lowercase(c) || c == ',' || c == '.' || c == ';' || c == ':' || c == ')' || c == ']'
        || c == '}'
}

/// Rule A applies to two to four lines that are not a code block, when one of
/// them is at least 40 characters long and some line after the first reads as
/// the wrapped continuation of the one before it.
pub open spec fn rule_a(ls: Seq<Seq<char>>) -> bool {
    2 <= ls.len() <= 4 && !code_block(ls) && (exists|i: int|
        0 <= i < ls.len() && (#[trigger] ls[i]).len() >= 40) && (exists|i: int|
        1 <= i < ls.len() && looks_wrapped_spec(#[trigger] ls[i]) && insert_space(ls[i - 1], ls[i]))
}

pub fn should_rule_a(lines: &Vec<Vec<char>>) -> (r: bool)
    ensures
        r == rule_a(views(lines@)),
{
    let ghost ls = views(lines@);
    let len = lines.len();
    if !(2 <= len && len <= 4) {
        return false;
    }
    if is_probably_code_block(lines) {
        return false;
    }
    let mut long_context = false;
    let mut i: usize = 0;
    while i < len
        invariant
            ls == views(lines@),
            len == lines@.len(),
            i <= len,
            long_context == exists|k: int| 0 <= k < i && (#[trigger] ls[k]).len() >= 40,
        decreases len - i,
    {
        assert(ls[i as int] == lines@[i as int]@);
        if lines[i].len() >= 40 {
            long_context = true;
        }
        i = i + 1;
    }
    if !long_context {
        return false;
    }
    let mut idx: usize = 1;
    while idx < len
        invariant
            ls == views(lines@),
            len == lines@.len(),
            1 <= idx <= len,
            2 <= len <= 4,
            !code_block(ls),
            exists|k: int| 0 <= k < len && (#[trigger] ls[k]).len() >= 40,
            forall|k: int| 1 <= k < idx ==> !(looks_wrapped_spec(#[trigger] ls[k]) && insert_space(
                ls[k - 1],
                ls[k],
            )),
        decreases len - idx,
    {
        assert(ls[idx as int] == lines@[idx as int]@);
        assert(ls[idx - 1] == lines@[idx - 1]@);
        if looks_wrapped(lines[idx].as_slice()) && should_insert_space(
            lines[idx - 1].as_slice(),
            lines[idx].as_slice(),
        ) {
            assert(looks_wrapped_spec(ls[idx as int]) && insert_space(ls[idx - 1], ls[idx as int]));
            return true;
        }
        idx = idx + 1;
    }
    false
}

/// The lines joined into one: each line after the first loses its leading
/// white space, the first its trailing white space, empty parts are skipped,
/// and parts are joined with one space after trimming what came before.
pub open spec fn join_single(ls: Seq<Seq<char>>) -> Seq<char>
    decreases ls.len(),
{
    if ls.len() == 0 {
        Seq::<char>::empty()
    } else {
        let out = join_single(ls.drop_last());
        let part = if ls.len() == 1 {
            trim_end(ls.last())
        } else {
            trim_start(ls.last())
        };
        if part.len() == 0 {
            out
        } else if out.len() > 0 {
            trim_end(out) + seq![' '] + part
        } else {
            part
        }
    }
}

pub fn join_wrapped_single_line(lines: &Vec<Vec<char>>) -> (r: Vec<char>)
    ensures
        r@ == join_single(views(lines@)),
{
    let ghost ls = views(lines@);
    let mut out: Vec<char> = Vec::new();
    let mut idx: usize = 0;
    while idx < lines.len()
        invariant
            ls == views(lines@),
            idx <= lines@.len(),
            out@ == join_single(ls.subrange(0, idx as int)),
        decreases lines.len() - idx,
    {
        let ghost pre = ls.subrange(0, idx + 1);
        assert(pre.drop_last() =~= ls.subrange(0, idx as int));
        assert(pre.last() == lines@[idx as int]@);
        let part = if idx == 0 {
            trim_end_vec(lines[idx].as_slice())
        } else {
            trim_start_vec(lines[idx].as_slice())
        };
        if part.len() > 0 {
            if out.len() > 0 {
                let mut o = trim_end_vec(out.as_slice());
                o.push(' ');
                append_chars(&mut o, part.as_slice());
                out = o;
            } else {
                out = part;
            }
        }
        idx = idx + 1;
    }
    assert(ls.subrange(0, ls.len() as int) =~= ls);
    out
}


// ---------------------------------------------------------------------------
// Joining runs of wrapped lines by width
// ---------------------------------------------------------------------------

/// Whether the line after one of `prev_len` characters continues it, for text
/// wrapped at `width`: the line ends within two characters of the width, and
/// the next line is not blank.
pub open spec fn joins_next(prev_len: int, next: Seq<char>, width: int) -> bool {
    !(prev_len + 2 < width) && !(prev_len > width + 2) && trim(next).len() > 0
}

/// Whether `line` starts with the indent of a wrapped continuation: two
/// spaces or a tab.
pub open spec fn wrap_indent(line: Seq<char>) -> bool {
    (line.len() >= 2 && line[0] == ' ' && line[1] == ' ') || (line.len() >= 1 && line[0] == '\t')
}

/// `line` with `next` appended: `next` loses a wrap indent, and a space goes
/// between them where `insert_space` calls for one.
pub open spec fn glued(line: Seq<char>, next: Seq<char>) -> Seq<char> {
    let tn = if wrap_indent(next) {
        trim_start(next)
    } else {
        next
    };
    if insert_space(line, tn) {
        line + seq![' '] + tn
    } else {
        line + tn
    }
}

/// Starting from the output line `line`, built up to line `i` of `lines`:
/// the output line once every following line that continues it is glued on,
/// the index of the last line glued, and how many were glued.
pub open spec fn absorb(lines: Seq<Seq<char>>, i: int, line: Seq<char>, width: int) -> (
    Seq<char>,
    int,
    nat,
)
    decreases lines.len() - i,
{
    if 0 <= i && i + 1 < lines.len() && joins_next(lines[i].len() as int, lines[i + 1], width) {
        let r = absorb(lines, i + 1, glued(line, lines[i + 1]), width);
        (r.0, r.1, r.2 + 1)
    } else {
        (line, i, 0)
    }
}

pub proof fn lemma_absorb_bounds(lines: Seq<Seq<char>>, i: int, line: Seq<char>, width: int)
    ensures
        absorb(lines, i, line, width).1 >= i,
        0 <= i < lines.len() ==> absorb(lines, i, line, width).1 < lines.len(),
        absorb(lines, i, line, width).2 == absorb(lines, i, line, width).1 - i,
    decreases lines.len() - i,
{
    if 0 <= i && i + 1 < lines.len() && joins_next(lines[i].len() as int, lines[i + 1], width) {
        lemma_absorb_bounds(lines, i + 1, glued(line, lines[i + 1]), width);
    }
}

/// The output lines for `lines[i..]` when each run of lines wrapped at
/// `width` becomes one line, and how many lines were glued on.
pub open spec fn multiline_from(lines: Seq<Seq<char>>, i: int, width: int) -> (Seq<Seq<char>>, nat)
    decreases lines.len() - i,
{
    if i < 0 || i >= lines.len() {
        (Seq::<Seq<char>>::empty(), 0)
    } else {
        let a = absorb(lines, i, lines[i], width);
        proof {
            lemma_absorb_bounds(lines, i, lines[i], width);
        }
        let rest = multiline_from(lines, a.1 + 1, width);
        (seq![a.0] + rest.0, a.2 + rest.1)
    }
}

fn should_join(prev_len: usize, next_line: &[char], wrap_width: usize) -> (r: bool)
    ensures
        r == joins_next(prev_len as int, next_line@, wrap_width as int),
{
    if wrap_width >= 2 && prev_len < wrap_width - 2 {
        return false;
    }
    if prev_len >= 2 && prev_len - 2 > wrap_width {
        return false;
    }
    !crate::text::is_blank(next_line)
}

fn is_wrap_indent(line: &[char]) -> (r: bool)
    ensures
        r == wrap_indent(line@),
{
    (line.len() >= 2 && line[0] == ' ' && line[1] == ' ') || (line.len() >= 1 && line[0] == '\t')
}

fn glue(line: &mut Vec<char>, next: &[char])
    ensures
        final(line)@ == glued(old(line)@, next@),
{
    let trimmed = if is_wrap_indent(next) {
        trim_start_vec(next)
    } else {
        crate::text::subvec(next, 0, next.len())
    };
    assert(next@.subrange(0, next@.len() as int) =~= next@);
    if should_insert_space(line.as_slice(), trimmed.as_slice()) {
        line.push(' ');
    }
    append_chars(line, trimmed.as_slice());
}

/// Each run of lines wrapped at `wrap_width` joined into one line (see
/// `multiline_from`), the lines joined with LF; the lines glued on are added
/// to the summary's unwrapped lines.
pub fn join_wrapped_multiline(
    lines: &Vec<Vec<char>>,
    wrap_width: usize,
    summary: &mut crate::sanitize::SanitizeSummary,
) -> (r: Vec<char>)
    requires
        old(summary).unwrapped_lines + lines@.len() <= usize::MAX,
    ensures
        r@ == join_lines(multiline_from(views(lines@), 0, wrap_width as int).0),
        final(summary)@ == (crate::sanitize::SummaryModel {
            unwrapped_lines: old(summary)@.unwrapped_lines + multiline_from(
                views(lines@),
                0,
                wrap_width as int,
            ).1,
            ..old(summary)@
        }),
{
    let ghost ls = views(lines@);
    let ghost w = wrap_width as int;
    let mut out_lines: Vec<Vec<char>> = Vec::new();
    let mut joins: usize = 0;
    let mut i: usize = 0;
    while i < lines.len()
        invariant
            ls == views(lines@),
            w == wrap_width as int,
            i <= ls.len(),
            joins <= i,
            multiline_from(ls, 0, w).0 == views(out_lines@) + multiline_from(ls, i as int, w).0,
            multiline_from(ls, 0, w).1 == joins + multiline_from(ls, i as int, w).1,
        decreases lines.len() - i,
    {
        let mut line = crate::text::subvec(lines[i].as_slice(), 0, lines[i].len());
        assert(lines@[i as int]@.subrange(0, lines@[i as int]@.len() as int) =~= lines@[i as int]@);
        assert(ls[i as int] == lines@[i as int]@);
        let mut j: usize = i;
        let mut current_len: usize = lines[i].len();
        while j + 1 < lines.len() && should_join(current_len, lines[j + 1].as_slice(), wrap_width)
            invariant
                ls == views(lines@),
                w == wrap_width as int,
                i <= j < ls.len(),
                current_len == ls[j as int].len(),
                absorb(ls, i as int, ls[i as int], w) == ({
                    let r = absorb(ls, j as int, line@, w);
                    (r.0, r.1, r.2 + (j - i) as nat)
                }),
            decreases lines.len() - j,
        {
            assert(ls[j + 1] == lines@[j + 1]@);
            glue(&mut line, lines[j + 1].as_slice());
            j = j + 1;
            current_len = lines[j].len();
            assert(ls[j as int] == lines@[j as int]@);
        }
        proof {
            lemma_absorb_bounds(ls, i as int, ls[i as int], w);
        }
        let ghost a = absorb(ls, i as int, ls[i as int], w);
        assert(a == (line@, j as int, (j - i) as nat));
        let ghost before = out_lines@;
        out_lines.push(line);
        assert(views(out_lines@) =~= views(before).push(a.0));
        assert(multiline_from(ls, i as int, w).0 == seq![a.0] + multiline_from(ls, j + 1, w).0);
        assert(views(before) + multiline_from(ls, i as int, w).0 =~= views(out_lines@) + multiline_from(ls, j + 1, w).0);
        joins = joins + (j - i);
        i = j + 1;
    }
    assert(views(out_lines@) + Seq::<Seq<char>>::empty() =~= views(out_lines@));
    summary.unwrapped_lines = summary.unwrapped_lines + joins;
    crate::text::join_lines_vec(&out_lines)
}

} // verus!
