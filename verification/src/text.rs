//! Characters and lines: the mathematical model of text used by the whole
//! library, and the executable operations that the sanitizer builds on.
use vstd::prelude::*;

verus! {

/// The most characters a clipboard text may hold and still be reflowed.
pub const MAX_CLIPBOARD_CHARS: usize = 250_000;

// ---------------------------------------------------------------------------
// Character classes
// ---------------------------------------------------------------------------

/// The Unicode `White_Space` property (what `char::is_whitespace` tests).
pub open spec fn is_ws(c: char) -> bool {
    ('\u{9}' <= c && c <= '\u{d}') || c == ' ' || c == '\u{85}' || c == '\u{a0}'
        || c == '\u{1680}' || ('\u{2000}' <= c && c <= '\u{200a}') || c == '\u{2028}'
        || c == '\u{2029}' || c == '\u{202f}' || c == '\u{205f}' || c == '\u{3000}'
}

pub fn is_whitespace(c: char) -> (r: bool)
    ensures
        r == is_ws(c),
{
    ('\u{9}' <= c && c <= '\u{d}') || c == ' ' || c == '\u{85}' || c == '\u{a0}' || c
        == '\u{1680}' || ('\u{2000}' <= c && c <= '\u{200a}') || c == '\u{2028}' || c
        == '\u{2029}' || c == '\u{202f}' || c == '\u{205f}' || c == '\u{3000}'
}

pub open spec fn is_ascii_alpha(c: char) -> bool {
    ('a' <= c && c <= 'z') || ('A' <= c && c <= 'Z')
}

pub open spec fn is_ascii_digit(c: char) -> bool {
    '0' <= c && c <= '9'
}

pub open spec fn is_ascii_alnum(c: char) -> bool {
    is_ascii_alpha(c) || is_ascii_digit(c)
}

pub fn ascii_alpha(c: char) -> (r: bool)
    ensures
        r == is_ascii_alpha(c),
{
    ('a' <= c && c <= 'z') || ('A' <= c && c <= 'Z')
}

pub fn ascii_alnum(c: char) -> (r: bool)
    ensures
        r == is_ascii_alnum(c),
{
    ('a' <= c && c <= 'z') || ('A' <= c && c <= 'Z') || ('0' <= c && c <= '9')
}

/// The Unicode general category `Cc` (what `char::is_control` tests).
pub open spec fn is_cc(c: char) -> bool {
    c <= '\u{1f}' || ('\u{7f}' <= c && c <= '\u{9f}')
}

pub fn is_control(c: char) -> (r: bool)
    ensures
        r == is_cc(c),
{
    c <= '\u{1f}' || ('\u{7f}' <= c && c <= '\u{9f}')
}

/// Whether every character of `s` is ASCII.
pub open spec fn is_ascii_text(s: Seq<char>) -> bool {
    forall|i: int| 0 <= i < s.len() ==> (#[trigger] s[i] as u32) < 128
}

/// The ASCII lower-case mapping of one character (what `to_ascii_lowercase` does).
pub open spec fn ascii_lower(c: char) -> char {
    if 'A' <= c && c <= 'Z' {
        ((c as u32) + 32) as char
    } else {
        c
    }
}

pub fn to_ascii_lower(c: char) -> (r: char)
    ensures
        r == ascii_lower(c),
{
    if 'A' <= c && c <= 'Z' {
        let v: u32 = (c as u32) + 32;
        assert(v <= 0x7a);
        proof {
            assert(v < 0xd800);
        }
        char_from_ascii(v)
    } else {
        c
    }
}

fn char_from_ascii(v: u32) -> (r: char)
    requires
        v < 0x80,
    ensures
        r == v as char,
{
    let b: u8 = v as u8;
    b as char
}

/// The ASCII lower-case mapping of a whole sequence.
pub open spec fn ascii_lower_seq(s: Seq<char>) -> Seq<char> {
    s.map_values(|c: char| ascii_lower(c))
}

pub fn ascii_lowercase(s: &[char]) -> (r: Vec<char>)
    ensures
        r@ == ascii_lower_seq(s@),
{
    let mut out: Vec<char> = Vec::new();
    let mut i: usize = 0;
    while i < s.len()
        invariant
            i <= s.len(),
            out@ == ascii_lower_seq(s@.subrange(0, i as int)),
        decreases s.len() - i,
    {
        out.push(to_ascii_lower(s[i]));
        i = i + 1;
        assert(ascii_lower_seq(s@.subrange(0, i as int)) =~= ascii_lower_seq(
            s@.subrange(0, i - 1),
        ).push(ascii_lower(s@[i - 1])));
    }
    assert(s@.subrange(0, s@.len() as int) =~= s@);
    out
}

// ---------------------------------------------------------------------------
// Trimming
// ---------------------------------------------------------------------------

/// `s` without its trailing white space (what `str::trim_end` gives).
pub open spec fn trim_end(s: Seq<char>) -> Seq<char>
    decreases s.len(),
{
    if s.len() > 0 && is_ws(s.last()) {
        trim_end(s.drop_last())
    } else {
        s
    }
}

/// `s` without its leading white space (what `str::trim_start` gives).
pub open spec fn trim_start(s: Seq<char>) -> Seq<char>
    decreases s.len(),
{
    if s.len() > 0 && is_ws(s[0]) {
        trim_start(s.drop_first())
    } else {
        s
    }
}

/// `s` without white space at either end (what `str::trim` gives).
pub open spec fn trim(s: Seq<char>) -> Seq<char> {
    trim_start(trim_end(s))
}

/// Whether every character of `s` is white space.
pub open spec fn all_ws(s: Seq<char>) -> bool {
    forall|i: int| 0 <= i < s.len() ==> is_ws(#[trigger] s[i])
}

pub proof fn lemma_trim_end_prefix(s: Seq<char>)
    ensures
        trim_end(s).len() <= s.len(),
        trim_end(s) == s.subrange(0, trim_end(s).len() as int),
        all_ws(s.subrange(trim_end(s).len() as int, s.len() as int)),
        trim_end(s).len() == 0 || !is_ws(trim_end(s).last()),
    decreases s.len(),
{
    if s.len() > 0 && is_ws(s.last()) {
        lemma_trim_end_prefix(s.drop_last());
        let t = trim_end(s);
        assert(s.drop_last().subrange(0, t.len() as int) =~= s.subrange(0, t.len() as int));
        let tail = s.subrange(t.len() as int, s.len() as int);
        let tail0 = s.drop_last().subrange(t.len() as int, s.len() - 1);
        assert forall|i: int| 0 <= i < tail.len() implies is_ws(#[trigger] tail[i]) by {
            if i < tail.len() - 1 {
                assert(tail[i] == tail0[i]);
            }
        }
    } else {
        assert(s.subrange(0, s.len() as int) =~= s);
    }
}

pub proof fn lemma_trim_start_suffix(s: Seq<char>)
    ensures
        trim_start(s).len() <= s.len(),
        trim_start(s) == s.subrange(s.len() - trim_start(s).len(), s.len() as int),
        all_ws(s.subrange(0, s.len() - trim_start(s).len())),
        trim_start(s).len() == 0 || !is_ws(trim_start(s)[0]),
    decreases s.len(),
{
    if s.len() > 0 && is_ws(s[0]) {
        lemma_trim_start_suffix(s.drop_first());
        let t = trim_start(s);
        let k = s.len() - t.len();
        assert(s.drop_first().subrange(s.len() - 1 - t.len(), s.len() - 1) =~= s.subrange(
            k,
            s.len() as int,
        ));
        let head = s.subrange(0, k);
        assert forall|i: int| 0 <= i < head.len() implies is_ws(#[trigger] head[i]) by {
            if i > 0 {
                assert(head[i] == s.drop_first().subrange(0, k - 1)[i - 1]);
            }
        }
    } else {
        assert(s.subrange(0, s.len() as int) =~= s);
        assert(s.subrange(0, 0) =~= Seq::<char>::empty());
    }
}

/// Trimming the end of a sequence whose last `k` characters are white space.
pub proof fn lemma_trim_end_ws_tail(s: Seq<char>, k: int)
    requires
        0 <= k <= s.len(),
        all_ws(s.subrange(k, s.len() as int)),
    ensures
        trim_end(s) == trim_end(s.subrange(0, k)),
    decreases s.len() - k,
{
    if k < s.len() {
        assert(s.subrange(k, s.len() as int)[s.len() - 1 - k] == s.last());
        let t0 = s.drop_last().subrange(k, s.len() - 1);
        let t1 = s.subrange(k, s.len() as int);
        assert forall|i: int| 0 <= i < t0.len() implies is_ws(#[trigger] t0[i]) by {
            assert(t0[i] == t1[i]);
        }
        lemma_trim_end_ws_tail(s.drop_last(), k);
        assert(s.drop_last().subrange(0, k) =~= s.subrange(0, k));
    } else {
        assert(s.subrange(0, k) =~= s);
    }
}

/// Trimming the start of a sequence whose first `k` characters are white space.
pub proof fn lemma_trim_start_ws_head(s: Seq<char>, k: int)
    requires
        0 <= k <= s.len(),
        all_ws(s.subrange(0, k)),
    ensures
        trim_start(s) == trim_start(s.subrange(k, s.len() as int)),
    decreases k,
{
    if k > 0 {
        assert(s.subrange(0, k)[0] == s[0]);
        let s1 = s.drop_first();
        let h1 = s1.subrange(0, k - 1);
        assert forall|i: int| 0 <= i < h1.len() implies is_ws(#[trigger] h1[i]) by {
            assert(h1[i] == s.subrange(0, k)[i + 1]);
        }
        lemma_trim_start_ws_head(s1, k - 1);
        assert(s1.subrange(k - 1, s1.len() as int) =~= s.subrange(k, s.len() as int));
    } else {
        assert(s.subrange(0, s.len() as int) =~= s);
    }
}

/// The length of `trim_end(s)`.
pub fn trim_end_len(s: &[char]) -> (n: usize)
    ensures
        n <= s@.len(),
        s@.subrange(0, n as int) == trim_end(s@),
{
    let mut n: usize = s.len();
    while n > 0 && is_whitespace(s[n - 1])
        invariant
            n <= s@.len(),
            all_ws(s@.subrange(n as int, s@.len() as int)),
        decreases n,
    {
        let ghost old_tail = s@.subrange(n as int, s@.len() as int);
        n = n - 1;
        let ghost tail = s@.subrange(n as int, s@.len() as int);
        assert forall|i: int| 0 <= i < tail.len() implies is_ws(#[trigger] tail[i]) by {
            if i > 0 {
                assert(tail[i] == old_tail[i - 1]);
            }
        }
    }
    proof {
        lemma_trim_end_ws_tail(s@, n as int);
        let p = s@.subrange(0, n as int);
        if n > 0 {
            assert(p.last() == s@[n - 1]);
        }
    }
    n
}

/// The number of leading white-space characters of `s`.
pub fn trim_start_len(s: &[char]) -> (k: usize)
    ensures
        k <= s@.len(),
        s@.subrange(k as int, s@.len() as int) == trim_start(s@),
        all_ws(s@.subrange(0, k as int)),
{
    let mut k: usize = 0;
    while k < s.len() && is_whitespace(s[k])
        invariant
            k <= s@.len(),
            all_ws(s@.subrange(0, k as int)),
        decreases s.len() - k,
    {
        let ghost old_head = s@.subrange(0, k as int);
        k = k + 1;
        let ghost head = s@.subrange(0, k as int);
        assert forall|i: int| 0 <= i < head.len() implies is_ws(#[trigger] head[i]) by {
            if i < head.len() - 1 {
                assert(head[i] == old_head[i]);
            }
        }
    }
    proof {
        lemma_trim_start_ws_head(s@, k as int);
        let r = s@.subrange(k as int, s@.len() as int);
        if k < s.len() {
            assert(r[0] == s@[k as int]);
        }
    }
    k
}

pub fn subvec(s: &[char], a: usize, b: usize) -> (r: Vec<char>)
    requires
        a <= b <= s@.len(),
    ensures
        r@ == s@.subrange(a as int, b as int),
{
    let mut out: Vec<char> = Vec::new();
    let mut i: usize = a;
    while i < b
        invariant
            a <= i <= b <= s@.len(),
            out@ == s@.subrange(a as int, i as int),
        decreases b - i,
    {
        out.push(s[i]);
        i = i + 1;
        assert(out@ =~= s@.subrange(a as int, i as int));
    }
    out
}

pub fn trim_end_vec(s: &[char]) -> (r: Vec<char>)
    ensures
        r@ == trim_end(s@),
{
    let n = trim_end_len(s);
    subvec(s, 0, n)
}

pub fn trim_start_vec(s: &[char]) -> (r: Vec<char>)
    ensures
        r@ == trim_start(s@),
{
    let k = trim_start_len(s);
    subvec(s, k, s.len())
}

pub fn trim_vec(s: &[char]) -> (r: Vec<char>)
    ensures
        r@ == trim(s@),
{
    let e = trim_end_vec(s);
    trim_start_vec(e.as_slice())
}

/// Whether `trim(s)` is empty, that is, whether `s` is all white space.
pub proof fn lemma_trim_empty_iff_all_ws(s: Seq<char>)
    ensures
        (trim(s).len() == 0) == all_ws(s),
        (trim_end(s).len() == 0) == all_ws(s),
{
    lemma_trim_end_prefix(s);
    let e = trim_end(s);
    lemma_trim_start_suffix(e);
    if all_ws(s) {
        if e.len() > 0 {
            assert(e.last() == s[e.len() - 1]);
        }
    } else {
        let i = choose|i: int| 0 <= i < s.len() && !is_ws(s[i]);
        if i >= e.len() {
            assert(s.subrange(e.len() as int, s.len() as int)[i - e.len()] == s[i]);
        }
        assert(e.len() > 0);
        assert(e[e.len() - 1] == e.last());
        if trim(s).len() == 0 {
            assert(all_ws(e.subrange(0, e.len() as int)));
            assert(e.subrange(0, e.len() as int)[e.len() - 1] == e.last());
        }
    }
}

pub fn is_blank(s: &[char]) -> (r: bool)
    ensures
        r == (trim(s@).len() == 0),
        r == all_ws(s@),
{
    proof {
        lemma_trim_empty_iff_all_ws(s@);
    }
    let n = trim_end_len(s);
    n == 0
}

// ---------------------------------------------------------------------------
// Prefixes, suffixes and searching
// ---------------------------------------------------------------------------

pub open spec fn starts_with(s: Seq<char>, p: Seq<char>) -> bool {
    p.len() <= s.len() && s.subrange(0, p.len() as int) == p
}

pub open spec fn ends_with(s: Seq<char>, p: Seq<char>) -> bool {
    p.len() <= s.len() && s.subrange(s.len() - p.len(), s.len() as int) == p
}

/// Whether `p` occurs in `s` starting at index `i`.
pub open spec fn occurs_at(s: Seq<char>, p: Seq<char>, i: int) -> bool {
    0 <= i && i + p.len() <= s.len() && s.subrange(i, i + p.len()) == p
}

/// Whether `p` occurs anywhere in `s` (what `str::contains` tests).
pub open spec fn contains_seq(s: Seq<char>, p: Seq<char>) -> bool {
    exists|i: int| occurs_at(s, p, i)
}

pub fn matches_at(s: &[char], p: &[char], i: usize) -> (r: bool)
    ensures
        r == occurs_at(s@, p@, i as int),
{
    if i > s.len() || p.len() > s.len() - i {
        return false;
    }
    let n = s.len();
    let mut k: usize = 0;
    while k < p.len()
        invariant
            n == s@.len(),
            i + p@.len() <= s@.len(),
            k <= p@.len(),
            forall|j: int| 0 <= j < k ==> s@[i + j] == p@[j],
        decreases p.len() - k,
    {
        if s[i + k] != p[k] {
            assert(s@.subrange(i as int, i + p@.len())[k as int] != p@[k as int]);
            return false;
        }
        k = k + 1;
    }
    assert(s@.subrange(i as int, i + p@.len()) =~= p@);
    true
}

pub fn starts_with_at(s: &[char], p: &[char]) -> (r: bool)
    ensures
        r == starts_with(s@, p@),
{
    matches_at(s, p, 0)
}

pub fn ends_with_at(s: &[char], p: &[char]) -> (r: bool)
    ensures
        r == ends_with(s@, p@),
{
    if p.len() > s.len() {
        return false;
    }
    matches_at(s, p, s.len() - p.len())
}

pub fn contains_at(s: &[char], p: &[char]) -> (r: bool)
    ensures
        r == contains_seq(s@, p@),
{
    if p.len() > s.len() {
        assert(forall|i: int| !occurs_at(s@, p@, i));
        return false;
    }
    if p.len() == 0 {
        assert(s@.subrange(0, 0) =~= p@);
        assert(occurs_at(s@, p@, 0));
        return true;
    }
    let mut i: usize = 0;
    while i <= s.len() - p.len()
        invariant
            0 < p@.len() <= s@.len(),
            i <= s@.len() - p@.len() + 1,
            forall|j: int| 0 <= j < i ==> !occurs_at(s@, p@, j),
        decreases s.len() - p.len() + 1 - i,
    {
        if matches_at(s, p, i) {
            return true;
        }
        i = i + 1;
    }
    assert forall|j: int| !occurs_at(s@, p@, j) by {
        if 0 <= j && j + p@.len() <= s@.len() {
            assert(j < i);
        }
    }
    false
}

pub fn contains_char(s: &[char], c: char) -> (r: bool)
    ensures
        r == s@.contains(c),
{
    let mut i: usize = 0;
    while i < s.len()
        invariant
            i <= s@.len(),
            forall|j: int| 0 <= j < i ==> s@[j] != c,
        decreases s.len() - i,
    {
        if s[i] == c {
            return true;
        }
        i = i + 1;
    }
    false
}

// ---------------------------------------------------------------------------
// Lines
// ---------------------------------------------------------------------------

/// The pieces of `s` between `'\n'` characters (what `str::split('\n')` gives).
pub open spec fn split_lines(s: Seq<char>) -> Seq<Seq<char>>
    decreases s.len(),
{
    if s.len() == 0 {
        seq![Seq::<char>::empty()]
    } else {
        let rest = split_lines(s.drop_last());
        if s.last() == '\n' {
            rest.push(Seq::<char>::empty())
        } else {
            rest.update(rest.len() - 1, rest.last().push(s.last()))
        }
    }
}

/// The pieces of `ls` joined with `'\n'` between them (what `join("\n")` gives).
pub open spec fn join_lines(ls: Seq<Seq<char>>) -> Seq<char>
    decreases ls.len(),
{
    if ls.len() == 0 {
        Seq::<char>::empty()
    } else if ls.len() == 1 {
        ls[0]
    } else {
        join_lines(ls.drop_last()) + seq!['\n'] + ls.last()
    }
}

pub open spec fn views(v: Seq<Vec<char>>) -> Seq<Seq<char>> {
    v.map_values(|x: Vec<char>| x@)
}

pub open spec fn opt_view(o: Option<Vec<char>>) -> Option<Seq<char>> {
    match o {
        Some(v) => Some(v@),
        None => None,
    }
}

pub proof fn lemma_split_lines_props(s: Seq<char>)
    ensures
        split_lines(s).len() >= 1,
        forall|i: int| 0 <= i < split_lines(s).len() ==> !(#[trigger] split_lines(s)[i]).contains('\n'),
    decreases s.len(),
{
    if s.len() > 0 {
        lemma_split_lines_props(s.drop_last());
    }
}

/// Splitting a text into lines and joining the lines with line feeds gives
/// the text back.
pub proof fn law_join_split(s: Seq<char>)
    ensures
        join_lines(split_lines(s)) == s,
    decreases s.len(),
{
    if s.len() > 0 {
        let r = split_lines(s.drop_last());
        law_join_split(s.drop_last());
        lemma_split_lines_props(s.drop_last());
        if s.last() == '\n' {
            assert(r.push(Seq::<char>::empty()).drop_last() =~= r);
            assert(s =~= join_lines(r) + seq!['\n'] + Seq::<char>::empty());
        } else {
            let u = r.update(r.len() - 1, r.last().push(s.last()));
            if r.len() == 1 {
                assert(s =~= s.drop_last().push(s.last()));
            } else {
                assert(u.drop_last() =~= r.drop_last());
                assert(join_lines(r) == join_lines(r.drop_last()) + seq!['\n'] + r.last());
                let a = join_lines(r.drop_last()) + seq!['\n'];
                assert(s =~= s.drop_last().push(s.last()));
                assert((a + r.last()).push(s.last()) =~= a + r.last().push(s.last()));
            }
        }
    }
}

/// Whether no line of `ls` holds a line feed.
pub open spec fn no_lf_lines(ls: Seq<Seq<char>>) -> bool {
    forall|k: int| 0 <= k < ls.len() ==> !(#[trigger] ls[k]).contains('\n')
}

/// Splitting a text that ends in a line feed and then `b` (a piece without a
/// line feed) gives the lines of the text before, then `b`.
pub proof fn lemma_split_append_line(s: Seq<char>, b: Seq<char>)
    requires
        !b.contains('\n'),
    ensures
        split_lines(s + seq!['\n'] + b) == split_lines(s).push(b),
    decreases b.len(),
{
    if b.len() == 0 {
        assert(s + seq!['\n'] + b =~= s.push('\n'));
        assert(s.push('\n').drop_last() =~= s);
        assert(s.push('\n').last() == '\n');
        assert(b =~= Seq::<char>::empty());
    } else {
        let init = b.drop_last();
        assert(!init.contains('\n')) by {
            if init.contains('\n') {
                let k = choose|k: int| 0 <= k < init.len() && init[k] == '\n';
                assert(b[k] == '\n');
            }
        }
        lemma_split_append_line(s, init);
        let t = s + seq!['\n'] + b;
        assert(t.drop_last() =~= s + seq!['\n'] + init);
        assert(t.last() == b.last());
        assert(b.last() == b[b.len() - 1]);
        assert(b.last() != '\n');
        let r = split_lines(s).push(init);
        assert(split_lines(t) == r.update(r.len() - 1, r.last().push(t.last())));
        assert(r.update(r.len() - 1, r.last().push(b.last())) =~= split_lines(s).push(b)) by {
            assert(init.push(b.last()) =~= b);
        }
    }
}

/// A piece without a line feed is one line.
pub proof fn lemma_split_single(b: Seq<char>)
    requires
        !b.contains('\n'),
    ensures
        split_lines(b) == seq![b],
    decreases b.len(),
{
    if b.len() > 0 {
        let init = b.drop_last();
        assert(!init.contains('\n')) by {
            if init.contains('\n') {
                let k = choose|k: int| 0 <= k < init.len() && init[k] == '\n';
                assert(b[k] == '\n');
            }
        }
        lemma_split_single(init);
        assert(b.last() == b[b.len() - 1]);
        assert(seq![init].update(0, init.push(b.last())) =~= seq![b]) by {
            assert(init.push(b.last()) =~= b);
        }
    } else {
        assert(b =~= Seq::<char>::empty());
    }
}

/// Joining lines without line feeds with line feeds and splitting the text
/// gives the lines back.
pub proof fn law_split_join(ls: Seq<Seq<char>>)
    requires
        ls.len() >= 1,
        no_lf_lines(ls),
    ensures
        split_lines(join_lines(ls)) == ls,
    decreases ls.len(),
{
    if ls.len() == 1 {
        assert(!ls[0].contains('\n'));
        lemma_split_single(ls[0]);
        assert(seq![ls[0]] =~= ls);
    } else {
        let init = ls.drop_last();
        assert forall|k: int| 0 <= k < init.len() implies !(#[trigger] init[k]).contains('\n') by {
            assert(init[k] == ls[k]);
        }
        law_split_join(init);
        assert(!ls[ls.len() - 1].contains('\n'));
        lemma_split_append_line(join_lines(init), ls.last());
        assert(init.push(ls.last()) =~= ls);
    }
}

/// Each of `ls` without trailing white space.
pub open spec fn trim_end_all(ls: Seq<Seq<char>>) -> Seq<Seq<char>> {
    Seq::new(ls.len(), |i: int| trim_end(ls[i]))
}

/// The number of characters over all of `ls`.
pub open spec fn total_len(ls: Seq<Seq<char>>) -> nat
    decreases ls.len(),
{
    if ls.len() == 0 {
        0
    } else {
        total_len(ls.drop_last()) + ls.last().len()
    }
}

pub proof fn lemma_split_total_len(s: Seq<char>)
    ensures
        total_len(split_lines(s)) + split_lines(s).len() == s.len() + 1,
    decreases s.len(),
{
    if s.len() > 0 {
        lemma_split_total_len(s.drop_last());
        lemma_split_lines_props(s.drop_last());
        let r = split_lines(s.drop_last());
        if s.last() == '\n' {
            let p = r.push(Seq::<char>::empty());
            assert(p.drop_last() =~= r);
            assert(total_len(p) == total_len(p.drop_last()) + p.last().len());
        } else {
            let u = r.update(r.len() - 1, r.last().push(s.last()));
            assert(u.drop_last() =~= r.drop_last());
            assert(total_len(u) == total_len(u.drop_last()) + u.last().len());
            assert(total_len(r) == total_len(r.drop_last()) + r.last().len());
        }
    } else {
        let e = split_lines(s);
        assert(e.drop_last().len() == 0);
        assert(total_len(e.drop_last()) == 0);
    }
}

pub proof fn lemma_total_len_prefix(ls: Seq<Seq<char>>, i: int)
    requires
        0 <= i <= ls.len(),
    ensures
        total_len(ls.subrange(0, i)) <= total_len(ls),
    decreases ls.len(),
{
    if i < ls.len() {
        lemma_total_len_prefix(ls.drop_last(), i);
        assert(ls.drop_last().subrange(0, i) =~= ls.subrange(0, i));
    } else {
        assert(ls.subrange(0, i) =~= ls);
    }
}

pub proof fn lemma_total_len_sub(ls: Seq<Seq<char>>, a: int, b: int)
    requires
        0 <= a <= b <= ls.len(),
    ensures
        total_len(ls.subrange(a, b)) <= total_len(ls),
    decreases a,
{
    if a == 0 {
        lemma_total_len_prefix(ls, b);
    } else {
        lemma_total_len_sub(ls.drop_first(), a - 1, b - 1);
        assert(ls.drop_first().subrange(a - 1, b - 1) =~= ls.subrange(a, b));
        lemma_total_len_drop_first(ls);
    }
}

pub proof fn lemma_total_len_drop_first(ls: Seq<Seq<char>>)
    requires
        ls.len() > 0,
    ensures
        total_len(ls) == ls[0].len() + total_len(ls.drop_first()),
    decreases ls.len(),
{
    if ls.len() > 1 {
        lemma_total_len_drop_first(ls.drop_last());
        assert(ls.drop_last().drop_first() =~= ls.drop_first().drop_last());
        assert(ls.drop_last()[0] == ls[0]);
        assert(ls.drop_first().last() == ls.last());
        assert(total_len(ls) == total_len(ls.drop_last()) + ls.last().len());
        assert(total_len(ls.drop_first()) == total_len(ls.drop_first().drop_last())
            + ls.drop_first().last().len());
    } else {
        assert(ls.drop_first().len() == 0);
        assert(ls.drop_last().len() == 0);
        assert(total_len(ls.drop_last()) == 0);
        assert(total_len(ls.drop_first()) == 0);
        assert(ls.last() == ls[0]);
    }
}

pub fn split_lines_vec(s: &[char]) -> (r: Vec<Vec<char>>)
    ensures
        views(r@) == split_lines(s@),
{
    let mut out: Vec<Vec<char>> = Vec::new();
    out.push(Vec::new());
    let mut i: usize = 0;
    assert(s@.subrange(0, 0) =~= Seq::<char>::empty());
    assert(views(out@) =~= split_lines(Seq::<char>::empty()));
    while i < s.len()
        invariant
            i <= s@.len(),
            out@.len() >= 1,
            views(out@) == split_lines(s@.subrange(0, i as int)),
        decreases s.len() - i,
    {
        let c = s[i];
        let ghost prev = s@.subrange(0, i as int);
        let ghost next = s@.subrange(0, i + 1);
        assert(next.drop_last() =~= prev);
        assert(next.last() == c);
        if c == '\n' {
            out.push(Vec::new());
            assert(views(out@) =~= split_lines(prev).push(Seq::<char>::empty()));
        } else {
            let last = out.len() - 1;
            let mut line = out.pop().unwrap();
            line.push(c);
            out.push(line);
            assert(views(out@) =~= split_lines(prev).update(
                last as int,
                split_lines(prev).last().push(c),
            ));
        }
        i = i + 1;
    }
    assert(s@.subrange(0, s@.len() as int) =~= s@);
    out
}

pub fn join_lines_vec(ls: &Vec<Vec<char>>) -> (r: Vec<char>)
    ensures
        r@ == join_lines(views(ls@)),
{
    let mut out: Vec<char> = Vec::new();
    let mut i: usize = 0;
    while i < ls.len()
        invariant
            i <= ls@.len(),
            out@ == join_lines(views(ls@).subrange(0, i as int)),
        decreases ls.len() - i,
    {
        let ghost prev = views(ls@).subrange(0, i as int);
        if i > 0 {
            out.push('\n');
        }
        let ghost mid = out@;
        append_chars(&mut out, ls[i].as_slice());
        i = i + 1;
        let ghost cur = views(ls@).subrange(0, i as int);
        assert(cur.drop_last() =~= prev);
        assert(cur.last() == ls@[i - 1]@);
        if i == 1 {
            assert(out@ =~= cur[0]);
        } else {
            assert(out@ =~= join_lines(prev) + seq!['\n'] + cur.last());
        }
    }
    assert(views(ls@).subrange(0, ls@.len() as int) =~= views(ls@));
    out
}

pub fn append_chars(out: &mut Vec<char>, s: &[char])
    ensures
        final(out)@ == old(out)@ + s@,
{
    let mut i: usize = 0;
    while i < s.len()
        invariant
            i <= s@.len(),
            out@ == old(out)@ + s@.subrange(0, i as int),
        decreases s.len() - i,
    {
        out.push(s[i]);
        i = i + 1;
        assert(out@ =~= old(out)@ + s@.subrange(0, i as int));
    }
    assert(s@.subrange(0, s@.len() as int) =~= s@);
}

/// The pieces of `ls` joined with `sep` between them.
pub open spec fn join_with(ls: Seq<Seq<char>>, sep: Seq<char>) -> Seq<char>
    decreases ls.len(),
{
    if ls.len() == 0 {
        Seq::<char>::empty()
    } else if ls.len() == 1 {
        ls[0]
    } else {
        join_with(ls.drop_last(), sep) + sep + ls.last()
    }
}

pub fn join_with_vec(ls: &Vec<Vec<char>>, sep: &[char]) -> (r: Vec<char>)
    ensures
        r@ == join_with(views(ls@), sep@),
{
    let mut out: Vec<char> = Vec::new();
    let mut i: usize = 0;
    while i < ls.len()
        invariant
            i <= ls@.len(),
            out@ == join_with(views(ls@).subrange(0, i as int), sep@),
        decreases ls.len() - i,
    {
        let ghost prev = views(ls@).subrange(0, i as int);
        if i > 0 {
            append_chars(&mut out, sep);
        }
        append_chars(&mut out, ls[i].as_slice());
        i = i + 1;
        let ghost cur = views(ls@).subrange(0, i as int);
        assert(cur.drop_last() =~= prev);
        assert(cur.last() == ls@[i - 1]@);
        if i == 1 {
            assert(out@ =~= cur[0]);
        } else {
            assert(out@ =~= join_with(prev, sep@) + sep@ + cur.last());
        }
    }
    assert(views(ls@).subrange(0, ls@.len() as int) =~= views(ls@));
    out
}

// ---------------------------------------------------------------------------
// Decimal numbers
// ---------------------------------------------------------------------------

/// The decimal digit for `d` < 10.
pub open spec fn digit_char(d: nat) -> char {
    (d + 48) as char
}

/// The decimal representation of `n`, without leading zeros.
pub open spec fn decimal(n: nat) -> Seq<char>
    decreases n,
{
    if n < 10 {
        seq![digit_char(n)]
    } else {
        decimal(n / 10).push(digit_char(n % 10))
    }
}

fn digit_exec(d: u64) -> (r: char)
    requires
        d < 10,
    ensures
        r == digit_char(d as nat),
{
    let v: u32 = (d as u32) + 48;
    char_from_ascii(v)
}

pub fn decimal_u64(n: u64) -> (r: Vec<char>)
    ensures
        r@ == decimal(n as nat),
    decreases n,
{
    if n < 10 {
        let mut v: Vec<char> = Vec::new();
        v.push(digit_exec(n));
        assert(v@ =~= seq![digit_char(n as nat)]);
        v
    } else {
        let mut v = decimal_u64(n / 10);
        v.push(digit_exec(n % 10));
        v
    }
}

pub fn decimal_usize(n: usize) -> (r: Vec<char>)
    ensures
        r@ == decimal(n as nat),
{
    decimal_u64(n as u64)
}

// ---------------------------------------------------------------------------
// Conversions between `str`, `String` and characters
// ---------------------------------------------------------------------------

pub fn chars_of(s: &str) -> (r: Vec<char>)
    ensures
        r@ == s@,
{
    let mut out: Vec<char> = Vec::new();
    for c in it: s.chars()
        invariant
            out@ == it.seq().take(it.index() as int),
            it.seq() == s@,
    {
        out.push(c);
        assert(out@ =~= it.seq().take(it.index() + 1));
    }
    assert(out@ =~= s@);
    out
}

} // verus!
