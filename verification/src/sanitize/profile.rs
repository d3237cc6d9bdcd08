//! Estimating the width at which a terminal wrapped a text.
use vstd::prelude::*;

use crate::sanitize::lines::{all_wf, raws, LineMeta};
use crate::text::{is_blank, trim};

verus! {

#[derive(Clone, Copy, Debug)]
pub struct WrapProfile {
    pub wrap_width: Option<usize>,
    pub slack: usize,
}

/// The lengths of the lines of `ls` that are not blank, in order.
pub open spec fn nonblank_lens(ls: Seq<Seq<char>>) -> Seq<int>
    decreases ls.len(),
{
    if ls.len() == 0 {
        Seq::<int>::empty()
    } else {
        let p = nonblank_lens(ls.drop_last());
        if trim(ls.last()).len() > 0 {
            p.push(ls.last().len() as int)
        } else {
            p
        }
    }
}

/// The largest of `s`, or 0 for an empty `s`.
pub open spec fn max_of(s: Seq<int>) -> int
    decreases s.len(),
{
    if s.len() == 0 {
        0
    } else {
        let m = max_of(s.drop_last());
        if s.last() > m {
            s.last()
        } else {
            m
        }
    }
}

/// The lengths of `s` within 8 of `m`, in order.
pub open spec fn near_max(s: Seq<int>, m: int) -> Seq<int>
    decreases s.len(),
{
    if s.len() == 0 {
        Seq::<int>::empty()
    } else {
        let p = near_max(s.drop_last(), m);
        if s.last() + 8 >= m {
            p.push(s.last())
        } else {
            p
        }
    }
}

/// How many elements of `s` are at most `v`.
pub open spec fn count_le(s: Seq<int>, v: int) -> nat
    decreases s.len(),
{
    if s.len() == 0 {
        0
    } else {
        count_le(s.drop_last(), v) + if s.last() <= v {
            1nat
        } else {
            0
        }
    }
}

/// Whether `v` is the element at index `k` of `s` sorted in ascending order:
/// more than `k` elements are at most `v`, and at most `k` are below it.
pub open spec fn is_kth(s: Seq<int>, k: int, v: int) -> bool {
    count_le(s, v) > k && forall|w: int| w < v ==> #[trigger] count_le(s, w) <= k
}

/// The element at index `k` of `s` sorted in ascending order.
pub open spec fn kth_smallest(s: Seq<int>, k: int) -> int {
    choose|v: int| is_kth(s, k, v)
}

/// The wrap width of a text whose kept lines are `ls`: taken from at least two
/// non-blank lines whose lengths are within 8 of the longest, it is their
/// median (the middle one, or the upper of the two middle ones).
pub open spec fn wrap_width_spec(ls: Seq<Seq<char>>) -> Option<int> {
    let lens = nonblank_lens(ls);
    if lens.len() < 2 {
        None
    } else {
        let tail = near_max(lens, max_of(lens));
        if tail.len() >= 2 {
            Some(kth_smallest(tail, (tail.len() / 2) as int))
        } else {
            None
        }
    }
}

proof fn lemma_count_le_mono(s: Seq<int>, v: int, w: int)
    requires
        v <= w,
    ensures
        count_le(s, v) <= count_le(s, w),
    decreases s.len(),
{
    if s.len() > 0 {
        lemma_count_le_mono(s.drop_last(), v, w);
    }
}

proof fn lemma_count_le_all(s: Seq<int>, v: int)
    requires
        forall|i: int| 0 <= i < s.len() ==> s[i] <= v,
    ensures
        count_le(s, v) == s.len(),
    decreases s.len(),
{
    if s.len() > 0 {
        lemma_count_le_all(s.drop_last(), v);
    }
}

proof fn lemma_count_le_neg(s: Seq<int>, w: int)
    requires
        forall|i: int| 0 <= i < s.len() ==> s[i] >= 0,
        w < 0,
    ensures
        count_le(s, w) == 0,
    decreases s.len(),
{
    if s.len() > 0 {
        lemma_count_le_neg(s.drop_last(), w);
    }
}

proof fn lemma_kth_unique(s: Seq<int>, k: int, a: int)
    requires
        is_kth(s, k, a),
    ensures
        kth_smallest(s, k) == a,
{
    let b = kth_smallest(s, k);
    assert(is_kth(s, k, b));
    if b < a {
        assert(count_le(s, b) <= k);
    } else if a < b {
        assert(count_le(s, a) <= k);
    }
}

proof fn lemma_max_of(s: Seq<int>)
    requires
        forall|i: int| 0 <= i < s.len() ==> s[i] >= 0,
    ensures
        forall|i: int| 0 <= i < s.len() ==> s[i] <= max_of(s),
        max_of(s) >= 0,
        s.len() > 0 ==> s.contains(max_of(s)),
    decreases s.len(),
{
    if s.len() > 0 {
        lemma_max_of(s.drop_last());
        assert forall|i: int| 0 <= i < s.len() implies s[i] <= max_of(s) by {
            if i < s.len() - 1 {
                assert(s[i] == s.drop_last()[i]);
            }
        }
        if s.last() <= max_of(s.drop_last()) && s.len() > 1 {
            let j = choose|j: int| 0 <= j < s.drop_last().len() && s.drop_last()[j] == max_of(s.drop_last());
            assert(s[j] == max_of(s));
        } else {
            assert(s[s.len() - 1] == max_of(s));
        }
    }
}

fn count_le_exec(s: &Vec<usize>, v: usize) -> (r: usize)
    ensures
        r as nat == count_le(s@.map_values(|x: usize| x as int), v as int),
{
    let ghost si = s@.map_values(|x: usize| x as int);
    let mut c: usize = 0;
    let mut i: usize = 0;
    while i < s.len()
        invariant
            si == s@.map_values(|x: usize| x as int),
            i <= s@.len(),
            c <= i,
            c as nat == count_le(si.subrange(0, i as int), v as int),
        decreases s.len() - i,
    {
        assert(si.subrange(0, i + 1).drop_last() =~= si.subrange(0, i as int));
        if s[i] <= v {
            c = c + 1;
        }
        i = i + 1;
    }
    assert(si.subrange(0, si.len() as int) =~= si);
    c
}

/// The element at index `k` of `s` sorted ascending, found by binary search on
/// values up to `hi`, an upper bound of `s`.
fn kth_smallest_exec(s: &Vec<usize>, k: usize, hi: usize) -> (r: usize)
    requires
        k < s@.len(),
        forall|i: int| 0 <= i < s@.len() ==> s@[i] <= hi,
    ensures
        r as int == kth_smallest(s@.map_values(|x: usize| x as int), k as int),
{
    let ghost si = s@.map_values(|x: usize| x as int);
    proof {
        lemma_count_le_all(si, hi as int);
        assert forall|w: int| w < 0 implies #[trigger] count_le(si, w) <= k by {
            lemma_count_le_neg(si, w);
        }
    }
    let mut lo: usize = 0;
    let mut hi = hi;
    while lo < hi
        invariant
            si == s@.map_values(|x: usize| x as int),
            lo <= hi,
            count_le(si, hi as int) > k,
            forall|w: int| w < lo ==> #[trigger] count_le(si, w) <= k,
        decreases hi - lo,
    {
        let mid = lo + (hi - lo) / 2;
        let c = count_le_exec(s, mid);
        if c > k {
            hi = mid;
        } else {
            proof {
                assert forall|w: int| w < mid + 1 implies #[trigger] count_le(si, w) <= k by {
                    lemma_count_le_mono(si, w, mid as int);
                }
            }
            lo = mid + 1;
        }
    }
    proof {
        lemma_kth_unique(si, k as int, lo as int);
    }
    lo
}

/// The wrap profile of the kept lines: the wrap width of `wrap_width_spec`,
/// and a slack of 4 characters.
pub fn estimate_wrap_profile(lines: &Vec<LineMeta>) -> (r: WrapProfile)
    requires
        all_wf(lines@),
    ensures
        r.slack == 4,
        match r.wrap_width {
            Some(w) => wrap_width_spec(raws(lines@)) == Some(w as int),
            None => wrap_width_spec(raws(lines@)) is None,
        },
{
    let ghost ls = raws(lines@);
    let mut lengths: Vec<usize> = Vec::new();
    let mut i: usize = 0;
    while i < lines.len()
        invariant
            ls == raws(lines@),
            all_wf(lines@),
            i <= lines@.len(),
            lengths@.map_values(|x: usize| x as int) == nonblank_lens(ls.subrange(0, i as int)),
        decreases lines.len() - i,
    {
        assert(ls.subrange(0, i + 1).drop_last() =~= ls.subrange(0, i as int));
        assert(ls[i as int] == lines@[i as int].raw@);
        assert(lines@[i as int].wf());
        if !is_blank(lines[i].raw.as_slice()) {
            let ghost before = lengths@;
            lengths.push(lines[i].raw_len_chars);
            assert(lengths@.map_values(|x: usize| x as int) =~= before.map_values(|x: usize| x as int).push(
                lines@[i as int].raw_len_chars as int,
            ));
        }
        i = i + 1;
    }
    assert(ls.subrange(0, ls.len() as int) =~= ls);
    let ghost lens = nonblank_lens(ls);
    if lengths.len() < 2 {
        return WrapProfile { wrap_width: None, slack: 4 };
    }
    let mut max_len: usize = 0;
    let mut j: usize = 0;
    while j < lengths.len()
        invariant
            lens == lengths@.map_values(|x: usize| x as int),
            j <= lengths@.len(),
            max_len as int == max_of(lens.subrange(0, j as int)),
        decreases lengths.len() - j,
    {
        assert(lens.subrange(0, j + 1).drop_last() =~= lens.subrange(0, j as int));
        if lengths[j] > max_len {
            max_len = lengths[j];
        }
        j = j + 1;
    }
    assert(lens.subrange(0, lens.len() as int) =~= lens);
    let mut tail: Vec<usize> = Vec::new();
    let mut t: usize = 0;
    while t < lengths.len()
        invariant
            lens == lengths@.map_values(|x: usize| x as int),
            max_len as int == max_of(lens),
            t <= lengths@.len(),
            tail@.map_values(|x: usize| x as int) == near_max(lens.subrange(0, t as int), max_len as int),
            forall|q: int| 0 <= q < tail@.len() ==> tail@[q] <= max_len,
        decreases lengths.len() - t,
    {
        assert(lens.subrange(0, t + 1).drop_last() =~= lens.subrange(0, t as int));
        proof {
            lemma_max_of(lens);
        }
        let len = lengths[t];
        assert(len as int == lens[t as int]);
        if len >= max_len || max_len - len <= 8 {
            let ghost before = tail@;
            tail.push(len);
            assert(tail@.map_values(|x: usize| x as int) =~= before.map_values(|x: usize| x as int).push(
                len as int,
            ));
        }
        t = t + 1;
    }
    assert(lens.subrange(0, lens.len() as int) =~= lens);
    if tail.len() >= 2 {
        let w = kth_smallest_exec(&tail, tail.len() / 2, max_len);
        WrapProfile { wrap_width: Some(w), slack: 4 }
    } else {
        WrapProfile { wrap_width: None, slack: 4 }
    }
}

} // verus!
