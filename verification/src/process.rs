//! Executable names as the allowlist holds them.
use vstd::prelude::*;

use crate::text::{ascii_lower_seq, is_ascii_text, subvec};
use crate::unicode::{lowercase_text, string_from_chars, text_to_lowercase};

verus! {

/// The separators of a Windows or Unix path.
pub open spec fn is_sep(c: char) -> bool {
    c == '\\' || c == '/'
}

/// The characters at the end of `s` back to the last separator.
pub open spec fn tail_run(s: Seq<char>) -> Seq<char>
    decreases s.len(),
{
    if s.len() == 0 || is_sep(s.last()) {
        Seq::<char>::empty()
    } else {
        tail_run(s.drop_last()).push(s.last())
    }
}

/// The last non-empty segment of the path `s`, if it has one.
pub open spec fn last_segment(s: Seq<char>) -> Option<Seq<char>>
    decreases s.len(),
{
    if s.len() == 0 {
        None
    } else if is_sep(s.last()) {
        last_segment(s.drop_last())
    } else {
        Some(tail_run(s))
    }
}

/// The file name of `path` in lower case: its last non-empty segment between
/// `\` and `/` separators. `None` for a path of separators only.
pub fn basename_from_path(path: &str) -> (r: Option<String>)
    ensures
        match last_segment(path@) {
            Some(seg) => r is Some && r->0@ == lowercase_text(seg) && (is_ascii_text(seg)
                ==> r->0@ == ascii_lower_seq(seg)),
            None => r is None,
        },
{
    let s = crate::text::chars_of(path);
    let mut e: usize = s.len();
    assert(s@.subrange(0, s@.len() as int) =~= s@);
    while e > 0 && (s[e - 1] == '\\' || s[e - 1] == '/')
        invariant
            e <= s@.len(),
            last_segment(s@.subrange(0, e as int)) == last_segment(s@),
        decreases e,
    {
        assert(s@.subrange(0, e as int).drop_last() =~= s@.subrange(0, e - 1));
        e = e - 1;
    }
    if e == 0 {
        assert(s@.subrange(0, 0) =~= Seq::<char>::empty());
        return None;
    }
    assert(s@.subrange(0, e as int).last() == s@[e - 1]);
    let mut b: usize = e;
    while b > 0 && !(s[b - 1] == '\\' || s[b - 1] == '/')
        invariant
            b <= e <= s@.len(),
            tail_run(s@.subrange(0, e as int)) == tail_run(s@.subrange(0, b as int)) + s@.subrange(
                b as int,
                e as int,
            ),
        decreases b,
    {
        assert(s@.subrange(0, b as int).drop_last() =~= s@.subrange(0, b - 1));
        assert(s@.subrange(0, b as int).last() == s@[b - 1]);
        assert(s@.subrange(b - 1, e as int) =~= seq![s@[b - 1]] + s@.subrange(b as int, e as int));
        b = b - 1;
    }
    if b > 0 {
        assert(s@.subrange(0, b as int).last() == s@[b - 1]);
    }
    assert(tail_run(s@.subrange(0, b as int)) =~= Seq::<char>::empty());
    let seg = subvec(s.as_slice(), b, e);
    let lower = text_to_lowercase(seg.as_slice());
    Some(string_from_chars(lower.as_slice()))
}


/// The buffer size of the first attempt to read a process image name.
pub const IMAGE_NAME_START_CAPACITY: usize = 260;

/// The largest buffer size tried for a process image name.
pub const IMAGE_NAME_MAX_CAPACITY: usize = 32768;

/// After an attempt with a buffer of `capacity` that did not give the name:
/// the next buffer size, twice as large but at most the largest, where the
/// buffer was too small and the largest was not tried yet; else `None`, and
/// the lookup gives up.
pub fn next_image_name_capacity(capacity: usize, buffer_too_small: bool) -> (r: Option<usize>)
    ensures
        r == (if capacity >= IMAGE_NAME_MAX_CAPACITY || !buffer_too_small {
            None
        } else if 2 * capacity < IMAGE_NAME_MAX_CAPACITY {
            Some((2 * capacity) as usize)
        } else {
            Some(IMAGE_NAME_MAX_CAPACITY)
        }),
{
    if capacity >= IMAGE_NAME_MAX_CAPACITY || !buffer_too_small {
        return None;
    }
    let doubled = capacity * 2;
    if doubled < IMAGE_NAME_MAX_CAPACITY {
        Some(doubled)
    } else {
        Some(IMAGE_NAME_MAX_CAPACITY)
    }
}

} // verus!
