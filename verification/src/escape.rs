//! Escaping of HTML.
//!
//! What the escaped form of a text is, and the outside function that
//! computes it.

use vstd::prelude::*;

verus! {

/// What stands for one character in escaped text: an entity for each of
/// `&`, `<`, `>`, `"`, `'` and `/`, the character itself otherwise.
pub open spec fn entity(c: char) -> Seq<char> {
    if c == '&' {
        seq!['&', 'a', 'm', 'p', ';']
    } else if c == '<' {
        seq!['&', 'l', 't', ';']
    } else if c == '>' {
        seq!['&', 'g', 't', ';']
    } else if c == '"' {
        seq!['&', 'q', 'u', 'o', 't', ';']
    } else if c == '\'' {
        seq!['&', '#', 'x', '2', '7', ';']
    } else if c == '/' {
        seq!['&', '#', 'x', '2', 'F', ';']
    } else {
        seq![c]
    }
}

/// The text with each character replaced by what stands for it.
pub open spec fn escaped(s: Seq<char>) -> Seq<char>
    decreases s.len(),
{
    if s.len() == 0 {
        Seq::<char>::empty()
    } else {
        escaped(s.drop_last()) + entity(s.last())
    }
}

/// `html_escape::encode_safe`: `&`, `<`, `>`, `"`, `'` and `/` are written as
/// the entities `&amp;`, `&lt;`, `&gt;`, `&quot;`, `&#x27;` and `&#x2F;`; all
/// else is copied.
#[verifier::external_body]
pub(crate) fn encode_safe(text: &str) -> (r: String)
    ensures
        r@ == escaped(text@),
{
    html_escape::encode_safe(text).into_owned()
}

} // verus!
