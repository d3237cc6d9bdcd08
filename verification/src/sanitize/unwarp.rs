//! Text-mode reflow: join each boundary that `decide_join` judges a wrap.
use vstd::prelude::*;

use crate::sanitize::boundaries::{ctxv, decide, decide_join, width_view, CtxView};
use crate::sanitize::context::{build_boundary_contexts, ctx_after, ctx_matches, tes, ScanState};
use crate::sanitize::lines::{all_wf, raws, LineMeta};
use crate::sanitize::profile::WrapProfile;
use crate::text::{append_chars, total_len, trim_end, trim_start, trim_start_vec};

verus! {

pub open spec fn ctx_of(st: ScanState) -> CtxView {
    (st.0, st.1, st.2, st.3 || st.4 || st.5, st.6)
}

/// The decision at the boundary after line `b` of `ls`.
pub open spec fn boundary_decision(ls: Seq<Seq<char>>, b: int, wrap: Option<int>, slack: int) -> (bool, bool) {
    decide(ls[b], ls[b + 1], wrap, slack, ctx_of(ctx_after(ls, b)))
}

/// The output for lines `0..=k` and how many boundaries were joined: the first
/// line without trailing white space, then at each boundary either a newline
/// and the next line, or (for a join) an optional space and the next line
/// without white space at either end.
pub open spec fn unwarp_upto(ls: Seq<Seq<char>>, k: int, wrap: Option<int>, slack: int) -> (Seq<char>, nat)
    decreases k,
{
    if k <= 0 {
        (trim_end(ls[0]), 0)
    } else {
        let prev = unwarp_upto(ls, k - 1, wrap, slack);
        let d = boundary_decision(ls, k - 1, wrap, slack);
        if d.0 {
            (prev.0 + (if d.1 {
                seq![' ']
            } else {
                Seq::<char>::empty()
            }) + trim_start(trim_end(ls[k])), prev.1 + 1)
        } else {
            (prev.0 + seq!['\n'] + trim_end(ls[k]), prev.1)
        }
    }
}

pub open spec fn unwarp_spec(ls: Seq<Seq<char>>, wrap: Option<int>, slack: int) -> (Seq<char>, nat) {
    if ls.len() == 0 {
        (Seq::<char>::empty(), 0)
    } else {
        unwarp_upto(ls, ls.len() - 1, wrap, slack)
    }
}

pub fn unwarp_lines(lines: &Vec<LineMeta>, profile: &WrapProfile) -> (r: (Vec<char>, usize))
    requires
        all_wf(lines@),
        total_len(tes(lines@)) <= usize::MAX,
    ensures
        (r.0@, r.1 as nat) == unwarp_spec(raws(lines@), width_view(*profile), profile.slack as int),
{
    let ghost ls = raws(lines@);
    let ghost wrap = width_view(*profile);
    let ghost slack = profile.slack as int;
    if lines.len() == 0 {
        return (Vec::new(), 0);
    }
    let contexts = build_boundary_contexts(lines);
    let mut out: Vec<char> = Vec::new();
    append_chars(&mut out, lines[0].trimmed_end.as_slice());
    assert(lines@[0].wf());
    assert(ls[0] == lines@[0].raw@);
    assert(out@ =~= trim_end(ls[0]));
    let mut joins: usize = 0;
    let mut k: usize = 1;
    while k < lines.len()
        invariant
            ls == raws(lines@),
            all_wf(lines@),
            wrap == width_view(*profile),
            slack == profile.slack as int,
            1 <= k <= lines@.len(),
            lines@.len() >= 2 ==> contexts@.len() == lines@.len() - 1,
            forall|j: int| 0 <= j < contexts@.len() ==> ctx_matches(#[trigger] contexts@[j], ctx_after(ls, j)),
            joins < k,
            (out@, joins as nat) == unwarp_upto(ls, k - 1, wrap, slack),
        decreases lines.len() - k,
    {
        let prev = &lines[k - 1];
        let next = &lines[k];
        assert(lines@[k - 1].wf());
        assert(lines@[k as int].wf());
        assert(ls[k - 1] == prev.raw@);
        assert(ls[k as int] == next.raw@);
        let ctx = contexts[k - 1];
        assert(ctx_matches(contexts@[k - 1], ctx_after(ls, k - 1)));
        assert(ctxv(ctx) == ctx_of(ctx_after(ls, k - 1)));
        let d = decide_join(prev, next, profile, ctx);
        if d.join {
            if d.insert_space {
                out.push(' ');
            }
            let nts = trim_start_vec(next.trimmed_end.as_slice());
            append_chars(&mut out, nts.as_slice());
            joins = joins + 1;
        } else {
            out.push('\n');
            append_chars(&mut out, next.trimmed_end.as_slice());
        }
        proof {
            let p = unwarp_upto(ls, k - 1, wrap, slack);
            assert(unwarp_upto(ls, k as int, wrap, slack) == if d.join {
                (p.0 + (if d.insert_space {
                    seq![' ']
                } else {
                    Seq::<char>::empty()
                }) + trim_start(trim_end(ls[k as int])), p.1 + 1)
            } else {
                (p.0 + seq!['\n'] + trim_end(ls[k as int]), p.1)
            });
            if d.join {
                if d.insert_space {
                    assert(out@ =~= p.0 + seq![' '] + trim_start(trim_end(ls[k as int])));
                } else {
                    assert(out@ =~= p.0 + Seq::<char>::empty() + trim_start(trim_end(ls[k as int])));
                }
            } else {
                assert(out@ =~= p.0 + seq!['\n'] + trim_end(ls[k as int]));
            }
        }
        k = k + 1;
    }
    (out, joins)
}

} // verus!
