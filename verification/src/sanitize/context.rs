//! The code context at each line boundary: bracket depths, and whether a
//! string or block comment is still open.
use vstd::prelude::*;

use crate::sanitize::lines::{all_wf, raws, LineMeta};
use crate::text::{lemma_total_len_prefix, total_len, trim_end};

verus! {

#[derive(Clone, Copy, Debug)]
pub struct BoundaryContext {
    pub paren_depth: usize,
    pub bracket_depth: usize,
    pub brace_depth: usize,
    pub in_string: bool,
    pub in_block_comment: bool,
}

/// Scanner state: (paren, bracket, brace depth, in single-quoted string, in
/// double-quoted string, in template string, in block comment).
pub type ScanState = (nat, nat, nat, bool, bool, bool, bool);

pub open spec fn dec(n: nat) -> nat {
    if n > 0 {
        (n - 1) as nat
    } else {
        0
    }
}

/// The scanner state after the rest of `l` from index `i`; a `//` comment
/// ends the scan of the line.
pub open spec fn ctx_scan(l: Seq<char>, i: int, st: ScanState) -> ScanState
    decreases l.len() - i,
{
    if i < 0 || i >= l.len() {
        st
    } else {
        let c = l[i];
        let next_is = |x: char| i + 1 < l.len() && l[i + 1] == x;
        if st.6 {
            if c == '*' && next_is('/') {
                ctx_scan(l, i + 2, (st.0, st.1, st.2, st.3, st.4, st.5, false))
            } else {
                ctx_scan(l, i + 1, st)
            }
        } else if st.3 || st.4 || st.5 {
            let q = if st.3 {
                '\''
            } else if st.4 {
                '"'
            } else {
                '`'
            };
            if c == '\\' {
                if i + 1 < l.len() {
                    ctx_scan(l, i + 2, st)
                } else {
                    st
                }
            } else if c == q {
                ctx_scan(l, i + 1, (st.0, st.1, st.2, false, false, false, st.6))
            } else {
                ctx_scan(l, i + 1, st)
            }
        } else if c == '/' && next_is('/') {
            st
        } else if c == '/' && next_is('*') {
            ctx_scan(l, i + 2, (st.0, st.1, st.2, st.3, st.4, st.5, true))
        } else {
            let n: ScanState = if c == '\'' {
                (st.0, st.1, st.2, true, st.4, st.5, st.6)
            } else if c == '"' {
                (st.0, st.1, st.2, st.3, true, st.5, st.6)
            } else if c == '`' {
                (st.0, st.1, st.2, st.3, st.4, true, st.6)
            } else if c == '(' {
                (st.0 + 1, st.1, st.2, st.3, st.4, st.5, st.6)
            } else if c == ')' {
                (dec(st.0), st.1, st.2, st.3, st.4, st.5, st.6)
            } else if c == '[' {
                (st.0, st.1 + 1, st.2, st.3, st.4, st.5, st.6)
            } else if c == ']' {
                (st.0, dec(st.1), st.2, st.3, st.4, st.5, st.6)
            } else if c == '{' {
                (st.0, st.1, st.2 + 1, st.3, st.4, st.5, st.6)
            } else if c == '}' {
                (st.0, st.1, dec(st.2), st.3, st.4, st.5, st.6)
            } else {
                st
            };
            ctx_scan(l, i + 1, n)
        }
    }
}

pub open spec fn scan_start() -> ScanState {
    (0, 0, 0, false, false, false, false)
}

/// The scanner state after the trimmed lines `0..=k` of `ls`.
pub open spec fn ctx_after(ls: Seq<Seq<char>>, k: int) -> ScanState
    decreases k + 1,
{
    if k < 0 {
        scan_start()
    } else {
        ctx_scan(trim_end(ls[k]), 0, ctx_after(ls, k - 1))
    }
}

/// What the boundary after line `k` records of the scanner state.
pub open spec fn ctx_matches(c: BoundaryContext, st: ScanState) -> bool {
    c.paren_depth == st.0 && c.bracket_depth == st.1 && c.brace_depth == st.2 && c.in_string == (
    st.3 || st.4 || st.5) && c.in_block_comment == st.6
}

pub open spec fn depth_bound(st: ScanState, b: int) -> bool {
    st.0 <= b && st.1 <= b && st.2 <= b
}

pub open spec fn tes(v: Seq<LineMeta>) -> Seq<Seq<char>> {
    v.map_values(|m: LineMeta| m.trimmed_end@)
}

fn dec_exec(n: usize) -> (r: usize)
    ensures
        r == dec(n as nat),
{
    if n > 0 {
        n - 1
    } else {
        0
    }
}

/// Scans one trimmed line from state (`p`, `b`, `c`, `s1`, `s2`, `s3`, `bc`).
fn scan_line(
    l: &[char],
    st: (usize, usize, usize, bool, bool, bool, bool),
    bound: usize,
) -> (r: (usize, usize, usize, bool, bool, bool, bool))
    requires
        depth_bound((st.0 as nat, st.1 as nat, st.2 as nat, st.3, st.4, st.5, st.6), bound - l@.len()),
        l@.len() <= bound,
    ensures
        (r.0 as nat, r.1 as nat, r.2 as nat, r.3, r.4, r.5, r.6) == ctx_scan(
            l@,
            0,
            (st.0 as nat, st.1 as nat, st.2 as nat, st.3, st.4, st.5, st.6),
        ),
        depth_bound((r.0 as nat, r.1 as nat, r.2 as nat, r.3, r.4, r.5, r.6), bound as int),
{
    let ghost start = (st.0 as nat, st.1 as nat, st.2 as nat, st.3, st.4, st.5, st.6);
    let (mut p, mut b, mut c, mut s1, mut s2, mut s3, mut bc) = st;
    let mut i: usize = 0;
    while i < l.len()
        invariant
            l@.len() <= bound,
            ctx_scan(l@, i as int, (p as nat, b as nat, c as nat, s1, s2, s3, bc)) == ctx_scan(
                l@,
                0,
                start,
            ),
            depth_bound((p as nat, b as nat, c as nat, s1, s2, s3, bc), bound - l@.len() + i),
            i <= l@.len(),
        decreases l.len() - i,
    {
        let ch = l[i];
        let has_next = i + 1 < l.len();
        let nx = if has_next {
            l[i + 1]
        } else {
            ' '
        };
        if bc {
            if ch == '*' && has_next && nx == '/' {
                bc = false;
                i = i + 2;
            } else {
                i = i + 1;
            }
            continue;
        }
        if s1 || s2 || s3 {
            let q = if s1 {
                '\''
            } else if s2 {
                '"'
            } else {
                '`'
            };
            if ch == '\\' {
                if has_next {
                    i = i + 2;
                } else {
                    i = l.len();
                }
            } else if ch == q {
                s1 = false;
                s2 = false;
                s3 = false;
                i = i + 1;
            } else {
                i = i + 1;
            }
            continue;
        }
        if ch == '/' && has_next && nx == '/' {
            i = l.len();
            continue;
        }
        if ch == '/' && has_next && nx == '*' {
            bc = true;
            i = i + 2;
            continue;
        }
        if ch == '\'' {
            s1 = true;
        } else if ch == '"' {
            s2 = true;
        } else if ch == '`' {
            s3 = true;
        } else if ch == '(' {
            p = p + 1;
        } else if ch == ')' {
            p = dec_exec(p);
        } else if ch == '[' {
            b = b + 1;
        } else if ch == ']' {
            b = dec_exec(b);
        } else if ch == '{' {
            c = c + 1;
        } else if ch == '}' {
            c = dec_exec(c);
        }
        i = i + 1;
    }
    (p, b, c, s1, s2, s3, bc)
}

/// The context at each boundary between consecutive lines: the scanner state
/// after the trimmed lines up to and including the line before it.
pub fn build_boundary_contexts(lines: &Vec<LineMeta>) -> (r: Vec<BoundaryContext>)
    requires
        all_wf(lines@),
        total_len(tes(lines@)) <= usize::MAX,
    ensures
        lines@.len() < 2 ==> r@.len() == 0,
        lines@.len() >= 2 ==> r@.len() == lines@.len() - 1,
        forall|k: int| 0 <= k < r@.len() ==> ctx_matches(#[trigger] r@[k], ctx_after(raws(lines@), k)),
{
    let ghost ls = raws(lines@);
    let ghost ts = tes(lines@);
    if lines.len() < 2 {
        return Vec::new();
    }
    let mut contexts: Vec<BoundaryContext> = Vec::new();
    let mut st: (usize, usize, usize, bool, bool, bool, bool) = (0, 0, 0, false, false, false, false);
    let mut k: usize = 0;
    let mut done: usize = 0;
    assert(ts.subrange(0, 0).len() == 0);
    while k < lines.len() - 1
        invariant
            done as nat == total_len(ts.subrange(0, k as int)),
            ls == raws(lines@),
            ts == tes(lines@),
            all_wf(lines@),
            total_len(ts) <= usize::MAX,
            2 <= lines@.len(),
            k <= lines@.len() - 1,
            contexts@.len() == k,
            forall|j: int| 0 <= j < k ==> ctx_matches(#[trigger] contexts@[j], ctx_after(ls, j)),
            (st.0 as nat, st.1 as nat, st.2 as nat, st.3, st.4, st.5, st.6) == ctx_after(ls, k - 1),
            depth_bound(
                (st.0 as nat, st.1 as nat, st.2 as nat, st.3, st.4, st.5, st.6),
                total_len(ts.subrange(0, k as int)) as int,
            ),
        decreases lines.len() - k,
    {
        let l = lines[k].trimmed_end.as_slice();
        assert(lines@[k as int].wf());
        assert(ts[k as int] == l@);
        assert(ls[k as int] == lines@[k as int].raw@);
        let ghost pre = ts.subrange(0, k + 1);
        assert(pre.drop_last() =~= ts.subrange(0, k as int));
        proof {
            lemma_total_len_prefix(ts, k + 1);
        }
        let bound: usize = done + l.len();
        st = scan_line(l, st, bound);
        done = bound;
        contexts.push(
            BoundaryContext {
                paren_depth: st.0,
                bracket_depth: st.1,
                brace_depth: st.2,
                in_string: st.3 || st.4 || st.5,
                in_block_comment: st.6,
            },
        );
        k = k + 1;
    }
    contexts
}

} // verus!
