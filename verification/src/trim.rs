//! Trimming.
//!
//! What it means to trim a text, and the outside functions that do it. The
//! trimming itself is not proved here: the functions of this module hand the
//! work to the standard library and to the `trim-in-place` crate and state
//! what those document.

use trim_in_place::TrimInPlace;
use vstd::prelude::*;

verus! {

/// The characters with the Unicode property `White_Space`.
pub open spec fn is_white_space(c: char) -> bool {
    let u = c as u32;
    ||| 0x09 <= u <= 0x0d
    ||| u == 0x20
    ||| u == 0x85
    ||| u == 0xa0
    ||| u == 0x1680
    ||| 0x2000 <= u <= 0x200a
    ||| u == 0x2028
    ||| u == 0x2029
    ||| u == 0x202f
    ||| u == 0x205f
    ||| u == 0x3000
}

/// The test for `White_Space`.
pub open spec fn white_space() -> spec_fn(char) -> bool {
    |c: char| is_white_space(c)
}

/// The test for being the character `pat`.
pub open spec fn only(pat: char) -> spec_fn(char) -> bool {
    |c: char| c == pat
}

/// `s` without its longest prefix of characters that `strip` accepts.
pub open spec fn trimmed_start(s: Seq<char>, strip: spec_fn(char) -> bool) -> Seq<char>
    decreases s.len(),
{
    if s.len() > 0 && strip(s[0]) {
        trimmed_start(s.drop_first(), strip)
    } else {
        s
    }
}

/// `s` without its longest suffix of characters that `strip` accepts.
pub open spec fn trimmed_end(s: Seq<char>, strip: spec_fn(char) -> bool) -> Seq<char>
    decreases s.len(),
{
    if s.len() > 0 && strip(s.last()) {
        trimmed_end(s.drop_last(), strip)
    } else {
        s
    }
}

/// `s` without the characters at either end that `strip` accepts.
pub open spec fn trimmed(s: Seq<char>, strip: spec_fn(char) -> bool) -> Seq<char> {
    trimmed_end(trimmed_start(s, strip), strip)
}

/// What is trimmed at the start does not start with a character that
/// `strip` accepts, and is a part of `s`.
pub proof fn lemma_trimmed_start(s: Seq<char>, strip: spec_fn(char) -> bool)
    ensures
        trimmed_start(s, strip).len() <= s.len(),
        trimmed_start(s, strip).len() > 0 ==> !strip(trimmed_start(s, strip)[0]),
        trimmed_start(trimmed_start(s, strip), strip) == trimmed_start(s, strip),
    decreases s.len(),
{
    if s.len() > 0 && strip(s[0]) {
        lemma_trimmed_start(s.drop_first(), strip);
    }
}

/// What is trimmed at the end does not end with a character that `strip`
/// accepts, and starts as `s` starts.
pub proof fn lemma_trimmed_end(s: Seq<char>, strip: spec_fn(char) -> bool)
    ensures
        trimmed_end(s, strip).len() <= s.len(),
        trimmed_end(s, strip).len() > 0 ==> !strip(trimmed_end(s, strip).last()),
        trimmed_end(s, strip).len() > 0 ==> trimmed_end(s, strip)[0] == s[0],
        s.len() > 0 && !strip(s[0]) ==> trimmed_end(s, strip).len() > 0,
        trimmed_end(trimmed_end(s, strip), strip) == trimmed_end(s, strip),
    decreases s.len(),
{
    if s.len() > 0 && strip(s.last()) {
        lemma_trimmed_end(s.drop_last(), strip);
    }
}

/// Trimming what is trimmed changes nothing.
pub proof fn lemma_trimmed_idempotent(s: Seq<char>, strip: spec_fn(char) -> bool)
    ensures
        trimmed(trimmed(s, strip), strip) == trimmed(s, strip),
{
    let front = trimmed_start(s, strip);
    let both = trimmed_end(front, strip);
    lemma_trimmed_start(s, strip);
    lemma_trimmed_end(front, strip);
    assert(trimmed_start(both, strip) == both);
}

/// `str::trim`: the slice without leading and trailing whitespace, where
/// whitespace is the Unicode property `White_Space`.
#[verifier::external_body]
pub(crate) fn trim(s: &str) -> (r: &str)
    ensures
        r@ == trimmed(s@, white_space()),
{
    s.trim()
}

/// `TrimInPlace::trim_in_place`: the string is cut down to what `str::trim`
/// gives for it.
#[verifier::external_body]
pub(crate) fn trim_in_place(s: &mut String)
    ensures
        final(s)@ == trimmed(old(s)@, white_space()),
{
    s.trim_in_place();
}

/// `TrimInPlace::trim_matches_in_place`: the string is cut down to what
/// `str::trim_matches` gives for it, which is the string without the
/// characters equal to `pat` at either end.
#[verifier::external_body]
pub(crate) fn trim_matches_in_place(s: &mut String, pat: char)
    ensures
        final(s)@ == trimmed(old(s)@, only(pat)),
{
    s.trim_matches_in_place(pat);
}

} // verus!
