//! The quote automaton shared by the heredoc scanners, and small scans over
//! character sequences.
use vstd::prelude::*;

use crate::text::{ascii_alnum, is_ascii_alnum, is_whitespace, is_ws};

verus! {

/// Scanner state: (inside single quotes, inside double quotes, last character
/// inside double quotes was an unconsumed backslash).
pub type QuoteState = (bool, bool, bool);

/// One step of the quote automaton for a character that is not the start of a
/// `<<` outside quotes.
pub open spec fn quote_step(st: QuoteState, ch: char) -> QuoteState {
    if st.1 {
        if st.2 {
            (st.0, true, false)
        } else if ch == '\\' {
            (st.0, true, true)
        } else if ch == '"' {
            (st.0, false, false)
        } else {
            (st.0, true, false)
        }
    } else if st.0 {
        if ch == '\'' {
            (false, st.1, st.2)
        } else {
            (true, st.1, st.2)
        }
    } else if ch == '\'' {
        (true, st.1, st.2)
    } else if ch == '"' {
        (st.0, true, st.2)
    } else {
        st
    }
}

pub fn quote_step_exec(st: QuoteState, ch: char) -> (r: QuoteState)
    ensures
        r == quote_step(st, ch),
{
    let (ins, ind, esc) = st;
    if ind {
        if esc {
            (ins, true, false)
        } else if ch == '\\' {
            (ins, true, true)
        } else if ch == '"' {
            (ins, false, false)
        } else {
            (ins, true, false)
        }
    } else if ins {
        if ch == '\'' {
            (false, ind, esc)
        } else {
            (true, ind, esc)
        }
    } else if ch == '\'' {
        (true, ind, esc)
    } else if ch == '"' {
        (ins, true, esc)
    } else {
        st
    }
}

/// A character allowed in a bare heredoc delimiter.
pub open spec fn is_delim_char(c: char) -> bool {
    is_ascii_alnum(c) || c == '_'
}

pub fn is_heredoc_delimiter_char(ch: char) -> (r: bool)
    ensures
        r == is_delim_char(ch),
{
    ascii_alnum(ch) || ch == '_'
}

/// The first index at or after `j` that holds no white space, or `c.len()`.
pub open spec fn skip_ws(c: Seq<char>, j: int) -> int
    decreases c.len() - j,
{
    if j < c.len() && is_ws(c[j]) {
        skip_ws(c, j + 1)
    } else {
        j
    }
}

/// The first index at or after `j` that holds `q`, or `c.len()`.
pub open spec fn find_from(c: Seq<char>, j: int, q: char) -> int
    decreases c.len() - j,
{
    if j < c.len() && c[j] != q {
        find_from(c, j + 1, q)
    } else {
        j
    }
}

/// The first index at or after `j` that holds no delimiter character, or `c.len()`.
pub open spec fn delim_end(c: Seq<char>, j: int) -> int
    decreases c.len() - j,
{
    if j < c.len() && is_delim_char(c[j]) {
        delim_end(c, j + 1)
    } else {
        j
    }
}

pub proof fn lemma_skip_ws_bounds(c: Seq<char>, j: int)
    requires
        j <= c.len(),
    ensures
        j <= skip_ws(c, j) <= c.len(),
    decreases c.len() - j,
{
    if j < c.len() && is_ws(c[j]) {
        lemma_skip_ws_bounds(c, j + 1);
    }
}

pub proof fn lemma_find_from_bounds(c: Seq<char>, j: int, q: char)
    requires
        j <= c.len(),
    ensures
        j <= find_from(c, j, q) <= c.len(),
    decreases c.len() - j,
{
    if j < c.len() && c[j] != q {
        lemma_find_from_bounds(c, j + 1, q);
    }
}

pub proof fn lemma_delim_end_bounds(c: Seq<char>, j: int)
    requires
        j <= c.len(),
    ensures
        j <= delim_end(c, j) <= c.len(),
    decreases c.len() - j,
{
    if j < c.len() && is_delim_char(c[j]) {
        lemma_delim_end_bounds(c, j + 1);
    }
}

pub fn skip_ws_exec(c: &[char], j: usize) -> (r: usize)
    requires
        j <= c@.len(),
    ensures
        r as int == skip_ws(c@, j as int),
        j <= r <= c@.len(),
{
    let mut k = j;
    while k < c.len() && is_whitespace(c[k])
        invariant
            j <= k <= c@.len(),
            skip_ws(c@, k as int) == skip_ws(c@, j as int),
        decreases c.len() - k,
    {
        k = k + 1;
    }
    k
}

pub fn find_from_exec(c: &[char], j: usize, q: char) -> (r: usize)
    requires
        j <= c@.len(),
    ensures
        r as int == find_from(c@, j as int, q),
        j <= r <= c@.len(),
{
    let mut k = j;
    while k < c.len() && c[k] != q
        invariant
            j <= k <= c@.len(),
            find_from(c@, k as int, q) == find_from(c@, j as int, q),
        decreases c.len() - k,
    {
        k = k + 1;
    }
    k
}

pub fn delim_end_exec(c: &[char], j: usize) -> (r: usize)
    requires
        j <= c@.len(),
    ensures
        r as int == delim_end(c@, j as int),
        j <= r <= c@.len(),
{
    let mut k = j;
    while k < c.len() && is_heredoc_delimiter_char(c[k])
        invariant
            j <= k <= c@.len(),
            delim_end(c@, k as int) == delim_end(c@, j as int),
        decreases c.len() - k,
    {
        k = k + 1;
    }
    k
}

} // verus!
