//! Small judgements about where a soft wrap split a line.
use vstd::prelude::*;

use crate::text::{
    ascii_alnum, all_ws, contains_char, ends_with, is_ascii_alnum, is_blank, is_whitespace, is_ws,
    trim, trim_end, trim_end_len, trim_start, trim_start_len, views,
};

verus! {

pub open spec fn is_ident(c: char) -> bool {
    is_ascii_alnum(c) || c == '_'
}

pub fn is_ident_char(ch: char) -> (r: bool)
    ensures
        r == is_ident(ch),
{
    ascii_alnum(ch) || ch == '_'
}

/// The last character of `s` that is not an identifier character.
pub open spec fn last_non_ident(s: Seq<char>) -> Option<char>
    decreases s.len(),
{
    if s.len() == 0 {
        None
    } else if is_ident(s.last()) {
        last_non_ident(s.drop_last())
    } else {
        Some(s.last())
    }
}

/// Whether a wrap between `prev` and `next` cut an identifier that follows a
/// path or member separator (`.`, `:`, `>`, `/`, `\`, `_` or `$`).
pub open spec fn identifier_split(prev: Seq<char>, next: Seq<char>) -> bool {
    prev.len() > 0 && next.len() > 0 && is_ident(prev.last()) && is_ident(next[0]) && match last_non_ident(prev) {
        Some(c) => c == '.' || c == ':' || c == '>' || c == '/' || c == '\\' || c == '_' || c == '$',
        None => false,
    }
}

pub fn is_identifier_split(prev: &[char], next: &[char]) -> (r: bool)
    ensures
        r == identifier_split(prev@, next@),
{
    if prev.len() == 0 || next.len() == 0 {
        return false;
    }
    if !is_ident_char(prev[prev.len() - 1]) || !is_ident_char(next[0]) {
        return false;
    }
    let mut n = prev.len();
    assert(prev@.subrange(0, prev@.len() as int) =~= prev@);
    while n > 0 && is_ident_char(prev[n - 1])
        invariant
            n <= prev@.len(),
            last_non_ident(prev@.subrange(0, n as int)) == last_non_ident(prev@),
        decreases n,
    {
        assert(prev@.subrange(0, n as int).drop_last() =~= prev@.subrange(0, n - 1));
        n = n - 1;
    }
    if n == 0 {
        assert(prev@.subrange(0, 0) =~= Seq::<char>::empty());
        return false;
    }
    let c = prev[n - 1];
    assert(prev@.subrange(0, n as int).last() == c);
    c == '.' || c == ':' || c == '>' || c == '/' || c == '\\' || c == '_' || c == '$'
}

/// A character that can start the rest of a wrapped path or option token.
pub open spec fn is_tokenish(c: char) -> bool {
    is_ascii_alnum(c) || c == '_' || c == '-' || c == '.' || c == '/' || c == '\\'
}

/// Whether a wrap between `prev` and an indented `next` cut a path or option
/// token: `prev` ends with `/`, `\` or `-` and `next` goes on with a token.
pub open spec fn token_wrap_boundary(prev: Seq<char>, next: Seq<char>, next_leading_ws: nat) -> bool {
    let p = trim_end(prev);
    let n = trim_start(next);
    p.len() > 0 && n.len() > 0 && next_leading_ws != 0 && (p.last() == '/' || p.last() == '\\'
        || p.last() == '-') && is_tokenish(n[0])
}

pub fn is_token_wrap_boundary(prev: &[char], next: &[char], next_leading_ws: usize) -> (r: bool)
    ensures
        r == token_wrap_boundary(prev@, next@, next_leading_ws as nat),
{
    let pn = trim_end_len(prev);
    if pn == 0 {
        return false;
    }
    let k = trim_start_len(next);
    if k == next.len() {
        return false;
    }
    if next_leading_ws == 0 {
        return false;
    }
    let last = prev[pn - 1];
    assert(prev@.subrange(0, pn as int).last() == last);
    if !(last == '/' || last == '\\' || last == '-') {
        return false;
    }
    let first = next[k];
    assert(next@.subrange(k as int, next@.len() as int)[0] == first);
    ascii_alnum(first) || first == '_' || first == '-' || first == '.' || first == '/' || first
        == '\\'
}

/// Whether the non-blank lines of `lines` look like a code block: one is
/// indented, and one holds a brace or ends with `;`.
pub open spec fn code_block(lines: Seq<Seq<char>>) -> bool {
    (exists|i: int|
        0 <= i < lines.len() && trim(lines[i]).len() > 0 && is_ws(#[trigger] lines[i][0])) && (
    (exists|i: int|
        0 <= i < lines.len() && (#[trigger] trim(lines[i])).len() > 0 && (trim(lines[i]).contains(
            '{',
        ) || trim(lines[i]).contains('}'))) || (exists|i: int|
        0 <= i < lines.len() && (#[trigger] trim(lines[i])).len() > 0 && ends_with(
            trim(lines[i]),
            seq![';'],
        )))
}

pub fn is_probably_code_block(lines: &Vec<Vec<char>>) -> (r: bool)
    ensures
        r == code_block(views(lines@)),
{
    let ghost ls = views(lines@);
    let mut has_indent = false;
    let mut has_brace = false;
    let mut has_semicolon = false;
    let mut i: usize = 0;
    while i < lines.len()
        invariant
            ls == views(lines@),
            i <= lines@.len(),
            has_indent == exists|k: int|
                0 <= k < i && trim(ls[k]).len() > 0 && is_ws(#[trigger] ls[k][0]),
            has_brace == exists|k: int|
                0 <= k < i && (#[trigger] trim(ls[k])).len() > 0 && (trim(ls[k]).contains('{')
                    || trim(ls[k]).contains('}')),
            has_semicolon == exists|k: int|
                0 <= k < i && (#[trigger] trim(ls[k])).len() > 0 && ends_with(
                    trim(ls[k]),
                    seq![';'],
                ),
        decreases lines.len() - i,
    {
        let line = lines[i].as_slice();
        assert(ls[i as int] == line@);
        let t = crate::text::trim_vec(line);
        if t.len() > 0 {
            proof {
                crate::text::lemma_trim_empty_iff_all_ws(line@);
            }
            assert(line@.len() > 0);
            if is_whitespace(line[0]) {
                has_indent = true;
            }
            if contains_char(t.as_slice(), '{') || contains_char(t.as_slice(), '}') {
                has_brace = true;
            }
            let semi = t[t.len() - 1] == ';';
            assert(ends_with(t@, seq![';']) == semi) by {
                if semi {
                    assert(t@.subrange(t@.len() - 1, t@.len() as int) =~= seq![';']);
                } else {
                    if ends_with(t@, seq![';']) {
                        assert(t@.subrange(t@.len() - 1, t@.len() as int)[0] == t@[t@.len() - 1]);
                    }
                }
            }
            if semi {
                has_semicolon = true;
            }
        }
        i = i + 1;
    }
    has_indent && (has_brace || has_semicolon)
}

} // verus!
