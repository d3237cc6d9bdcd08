//! Unicode case properties and string building, which std computes.
use vstd::prelude::*;

use crate::text::{ascii_lower_seq, chars_of, is_ascii_text};

verus! {

/// What `char::is_lowercase` returns for `c` (the Unicode `Lowercase` property).
pub uninterp spec fn lowercase_char(c: char) -> bool;

/// What `str::to_lowercase` returns for the text `s` (the Unicode lower-case
/// mapping of each character, with the final-sigma rule).
pub uninterp spec fn lowercase_text(s: Seq<char>) -> Seq<char>;

/// Calls `char::is_lowercase`. Claimed: the result is `lowercase_char(c)`, a
/// function of `c` alone; which characters have the property is not stated.
#[verifier::external_body]
pub(crate) fn char_is_lowercase(c: char) -> (r: bool)
    ensures
        r == lowercase_char(c),
{
    c.is_lowercase()
}

/// Calls `str::to_lowercase`. Claimed: the result is `lowercase_text(s@)`, a
/// function of the text alone, and for an all-ASCII text it is the ASCII
/// lower-case mapping (`A`..`Z` to `a`..`z`, every other character as it is),
/// which is what the Unicode lower-case mapping gives on ASCII. The mapping of
/// other characters is not stated.
#[verifier::external_body]
pub(crate) fn str_to_lowercase(s: &str) -> (r: String)
    ensures
        r@ == lowercase_text(s@),
        is_ascii_text(s@) ==> r@ == ascii_lower_seq(s@),
{
    s.to_lowercase()
}

/// Calls `String::push`. Claimed: `c` is appended to the text.
#[verifier::external_body]
pub(crate) fn string_push(s: &mut String, c: char)
    ensures
        final(s)@ == old(s)@.push(c),
{
    s.push(c)
}

/// The `String` that holds exactly the characters of `s`.
pub fn string_from_chars(s: &[char]) -> (r: String)
    ensures
        r@ == s@,
{
    let mut out = String::new();
    let mut i: usize = 0;
    while i < s.len()
        invariant
            i <= s@.len(),
            out@ == s@.subrange(0, i as int),
        decreases s.len() - i,
    {
        string_push(&mut out, s[i]);
        i = i + 1;
        assert(out@ =~= s@.subrange(0, i as int));
    }
    assert(s@.subrange(0, s@.len() as int) =~= s@);
    out
}

/// The lower-case mapping of the text `s`, as characters.
pub fn text_to_lowercase(s: &[char]) -> (r: Vec<char>)
    ensures
        r@ == lowercase_text(s@),
        is_ascii_text(s@) ==> r@ == ascii_lower_seq(s@),
{
    let text = string_from_chars(s);
    let lower = str_to_lowercase(text.as_str());
    chars_of(lower.as_str())
}

} // verus!
