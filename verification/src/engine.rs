//! The regular-expression engine.
//!
//! Matching is done by the `regex` crate. Nothing in this module is proved:
//! it declares the engine's type, gives names to what the engine computes,
//! and states the few facts about match offsets that the engine documents.
//! Every other module reasons from these statements alone.

use regex::Regex;
use vstd::prelude::*;
use vstd::utf8::*;

use crate::text::Span;

verus! {

/// A compiled regular expression of the `regex` crate.
#[verifier::external_type_specification]
#[verifier::external_body]
pub struct ExRegex(Regex);

/// The pattern text that the expression was built from, as `Regex::as_str`
/// gives it back. The text alone does not say how an expression matches: a
/// builder with other settings makes another matcher of the same text.
pub uninterp spec fn regex_source(re: Regex) -> Seq<char>;

/// Whether the expression is as `Regex::new` makes it: built from its pattern
/// text with the engine's own settings and nothing else. How a plain
/// expression matches is fixed by its pattern text.
pub uninterp spec fn regex_plain(re: Regex) -> bool;

/// Whether `Regex::new` accepts `pattern`. The engine decides this from the
/// pattern alone: by its syntax, and by the size of what it compiles from it.
pub uninterp spec fn regex_accepts(pattern: Seq<char>) -> bool;

/// What `Regex::captures_iter` of a plain expression with the pattern text
/// `pattern` finds in `haystack`: for each match, in the order of the
/// iteration, the byte offsets of capture group `group`, or `None` where that
/// group took no part in the match.
pub uninterp spec fn regex_group_spans(pattern: Seq<char>, haystack: Seq<char>, group: usize) -> Seq<
    Option<Span>,
>;

/// What `Regex::replace_all` of a plain expression with the pattern text
/// `pattern` returns on `haystack` with the replacement template `rep`.
pub uninterp spec fn regex_replaced(pattern: Seq<char>, haystack: Seq<char>, rep: Seq<char>) -> Seq<
    char,
>;

/// What the engine promises of the offsets it reports for one capture group
/// over the successive matches in `haystack`: each span that is present lies
/// inside the haystack with its start before its end, both ends fall on
/// character boundaries, and the spans of later matches start where those of
/// earlier matches have ended.
pub open spec fn spans_well_placed(haystack: Seq<char>, spans: Seq<Option<Span>>) -> bool {
    let b = encode_utf8(haystack);
    &&& forall|i: int|
        0 <= i < spans.len() ==> ((#[trigger] spans[i]) matches Some(sp) ==> {
            &&& sp.0 <= sp.1 <= b.len()
            &&& is_char_boundary(b, sp.0 as int)
            &&& is_char_boundary(b, sp.1 as int)
        })
    &&& forall|i: int, j: int|
        0 <= i < j < spans.len() ==> ((#[trigger] spans[i]) matches Some(first) ==> ((
        #[trigger] spans[j]) matches Some(second) ==> first.1 <= second.0))
}

/// `Regex::new`. There is a compiled expression exactly when the engine
/// accepts the pattern. The expression is then plain, and it remembers the
/// pattern it was given.
#[verifier::external_body]
pub(crate) fn compile(pattern: &str) -> (r: Option<Regex>)
    ensures
        r is Some <==> regex_accepts(pattern@),
        r matches Some(re) ==> regex_plain(re) && regex_source(re) == pattern@,
{
    match Regex::new(pattern) {
        Ok(re) => Some(re),
        Err(_) => None,
    }
}

/// `Regex::captures_iter`, with `Captures::get` on each item. For a plain
/// expression the result is the named list of spans. The engine documents that a `Match` has its start
/// at or before its end, that both are offsets into the haystack on UTF-8
/// boundaries, that successive matches do not overlap, and that a capture
/// group is a part of its match: `spans_well_placed` says no more than that.
#[verifier::external_body]
pub(crate) fn group_spans(re: &Regex, haystack: &str, group: usize) -> (r: Vec<Option<Span>>)
    requires
        regex_plain(*re),
    ensures
        r@ == regex_group_spans(regex_source(*re), haystack@, group),
        spans_well_placed(haystack@, r@),
{
    re.captures_iter(haystack).map(|c| c.get(group).map(|m| (m.start(), m.end()))).collect()
}

/// `Regex::replace_all` with a template string as the replacement. For a
/// plain expression the result is the named text. The engine documents that a haystack in which it finds
/// no match comes back unchanged, whatever the replacement.
#[verifier::external_body]
pub(crate) fn replace_all(re: &Regex, haystack: &str, rep: &str) -> (r: String)
    requires
        regex_plain(*re),
    ensures
        r@ == regex_replaced(regex_source(*re), haystack@, rep@),
        regex_group_spans(regex_source(*re), haystack@, 0).len() == 0 ==> r@ == haystack@,
{
    re.replace_all(haystack, rep).into_owned()
}

} // verus!
