//! Line breaks for the newlines that are left.
//!
//! The text is read from its end backwards. At each newline the whitespace
//! before it is passed over; unless a break marker already stands right
//! before that whitespace, the whitespace is replaced by one break marker.
//! Reading then goes on before the whitespace, so that a run of blank lines
//! gets one marker and not one for each.

use vstd::prelude::*;
use vstd::string::*;
use vstd::utf8::*;

use crate::engine::{regex_replaced, replace_all};
use crate::grammar::{br_after_block_pattern, br_before_block_pattern, Patterns, BR_ELEMENT};
use crate::text::{
    encoded, lemma_ascii_boundary, span_fits, spans_ascend, spans_fit, texts, Span, NEWLINE,
};
use crate::splice::{put_back, stitch};

verus! {

/// ASCII whitespace: space, tab, newline, form feed, carriage return.
pub open spec fn is_space(x: u8) -> bool {
    x == 0x20 || x == 0x09 || x == 0x0a || x == 0x0c || x == 0x0d
}

/// Where the walk back from `p` over whitespace stops: at the nearest byte
/// before `p` that is no whitespace, or at 0 where there is none.
pub open spec fn walk_back(b: Seq<u8>, p: int) -> int
    decreases p,
{
    if p <= 0 {
        0
    } else if !is_space(b[p - 1]) {
        p - 1
    } else {
        walk_back(b, p - 1)
    }
}

/// The four bytes that end at `at` are `<br>`.
pub open spec fn marked(b: Seq<u8>, at: int) -> bool {
    at >= 3 && b[at - 3] == 0x3c && b[at - 2] == 0x62 && b[at - 1] == 0x72 && b[at] == 0x3e
}

/// Where the whitespace to replace begins, for a newline at `p`: right after
/// the byte at which the walk back stopped. The first byte of the text is
/// never taken.
pub open spec fn gap_start(b: Seq<u8>, p: int) -> int {
    if walk_back(b, p) + 1 <= p {
        walk_back(b, p) + 1
    } else {
        p
    }
}

/// The spans of whitespace in the first `n` bytes that are to be replaced by
/// a break marker, in ascending order.
pub open spec fn break_spans(b: Seq<u8>, n: int) -> Seq<Span>
    decreases n,
{
    if n <= 0 {
        Seq::<Span>::empty()
    } else if b[n - 1] != NEWLINE {
        break_spans(b, n - 1)
    } else {
        proof {
            lemma_walk_back(b, n - 1);
        }
        let at = walk_back(b, n - 1);
        if marked(b, at) {
            break_spans(b, at)
        } else {
            break_spans(b, at).push((gap_start(b, n - 1) as usize, (n - 1) as usize))
        }
    }
}

/// As many break markers as asked for.
pub open spec fn markers(n: nat) -> Seq<Seq<char>> {
    Seq::new(n, |k: int| "<br>"@)
}

/// The bytes with a break marker in place of each span of whitespace that
/// is to be replaced.
pub open spec fn with_markers(b: Seq<u8>) -> Seq<u8> {
    let spans = break_spans(b, b.len() as int);
    stitch(b, spans, encoded(markers(spans.len())), 0, 0)
}

/// The text with a break marker before each newline that has none, in place
/// of the whitespace that stood there.
pub open spec fn broken(text: Seq<char>) -> Seq<char> {
    decode_utf8(with_markers(encode_utf8(text)))
}

/// The walk back stops before `p`, and what it passed over is whitespace.
pub proof fn lemma_walk_back(b: Seq<u8>, p: int)
    requires
        0 <= p,
    ensures
        0 <= walk_back(b, p) <= p,
        p > 0 ==> walk_back(b, p) < p,
        forall|i: int| walk_back(b, p) < i < p ==> is_space(#[trigger] b[i]),
    decreases p,
{
    if p > 0 && is_space(b[p - 1]) {
        lemma_walk_back(b, p - 1);
    }
}

/// Each span to replace holds whitespace only, and a newline follows it.
pub open spec fn whitespace_before_newline(b: Seq<u8>, sp: Span) -> bool {
    &&& sp.0 <= sp.1 < b.len()
    &&& b[sp.1 as int] == NEWLINE
    &&& forall|i: int| sp.0 <= i < sp.1 ==> is_space(#[trigger] b[i])
}

/// The spans to replace fit the text, come in ascending order, and end
/// before `n`. Nothing but whitespace is ever replaced: each span holds
/// whitespace only and is followed by the newline that it was found for.
pub proof fn lemma_break_spans(b: Seq<u8>, n: int)
    requires
        valid_utf8(b),
        0 <= n <= b.len() <= usize::MAX,
    ensures
        spans_fit(b, break_spans(b, n)),
        spans_ascend(break_spans(b, n)),
        forall|k: int| 0 <= k < break_spans(b, n).len() ==> (#[trigger] break_spans(b, n)[k]).1 < n,
        forall|k: int|
            0 <= k < break_spans(b, n).len() ==> whitespace_before_newline(
                b,
                #[trigger] break_spans(b, n)[k],
            ),
    decreases n,
{
    if n <= 0 {
    } else if b[n - 1] != NEWLINE {
        lemma_break_spans(b, n - 1);
    } else {
        let p = n - 1;
        lemma_walk_back(b, p);
        let at = walk_back(b, p);
        lemma_break_spans(b, at);
        if !marked(b, at) {
            let start = gap_start(b, p);
            let sp = (start as usize, p as usize);
            lemma_ascii_boundary(b, p);
            if start < p {
                assert(is_space(b[start]));
                lemma_ascii_boundary(b, start);
            }
            assert(span_fits(b, sp));
            assert(whitespace_before_newline(b, sp));
        }
    }
}

/// What becomes of the newline at `p` when the first `n` bytes are read: it
/// gets a break marker, or it has one already, or it belongs to the blank
/// lines before a later newline, which are passed over together.
pub open spec fn newline_served(b: Seq<u8>, n: int, p: int) -> bool {
    ||| exists|k: int|
        0 <= k < break_spans(b, n).len() && (#[trigger] break_spans(b, n)[k]).1 == p
    ||| marked(b, walk_back(b, p))
    ||| exists|q: int| p < q < n && b[q] == NEWLINE && #[trigger] walk_back(b, q) <= p
}

/// No newline is forgotten: each one gets a break marker, has one already,
/// or is passed over with the blank lines before a later newline.
pub proof fn lemma_every_newline_served(b: Seq<u8>, n: int)
    requires
        0 <= n <= b.len() <= usize::MAX,
    ensures
        forall|p: int| 0 <= p < n && b[p] == NEWLINE ==> newline_served(b, n, p),
    decreases n,
{
    if n <= 0 {
    } else if b[n - 1] != NEWLINE {
        lemma_every_newline_served(b, n - 1);
        assert forall|p: int| 0 <= p < n && b[p] == NEWLINE implies newline_served(b, n, p) by {
            assert(newline_served(b, n - 1, p));
            lemma_served_later(b, n - 1, n, p);
        }
    } else {
        let last = n - 1;
        lemma_walk_back(b, last);
        let at = walk_back(b, last);
        lemma_every_newline_served(b, at);
        assert forall|p: int| 0 <= p < n && b[p] == NEWLINE implies newline_served(b, n, p) by {
            if p < at {
                assert(newline_served(b, at, p));
                lemma_served_later(b, at, n, p);
            } else if p < last {
                assert(walk_back(b, last) <= p);
            } else if !marked(b, at) {
                let spans = break_spans(b, n);
                assert(spans[spans.len() - 1].1 == p);
            }
        }
    }
}

/// A newline that is served when `m` bytes are read stays served when more
/// are read, as long as the spans found in the first `m` bytes stay.
proof fn lemma_served_later(b: Seq<u8>, m: int, n: int, p: int)
    requires
        0 <= m <= n,
        newline_served(b, m, p),
        break_spans(b, m).len() <= break_spans(b, n).len(),
        forall|k: int|
            0 <= k < break_spans(b, m).len() ==> break_spans(b, n)[k] == break_spans(b, m)[k],
    ensures
        newline_served(b, n, p),
{
    if exists|k: int| 0 <= k < break_spans(b, m).len() && (#[trigger] break_spans(b, m)[k]).1 == p {
        let k = choose|k: int|
            0 <= k < break_spans(b, m).len() && (#[trigger] break_spans(b, m)[k]).1 == p;
        assert(break_spans(b, n)[k].1 == p);
    } else if marked(b, walk_back(b, p)) {
    } else {
        let q = choose|q: int| p < q < m && b[q] == NEWLINE && #[trigger] walk_back(b, q) <= p;
        assert(p < q < n && b[q] == NEWLINE && walk_back(b, q) <= p);
    }
}

/// Whether the byte is ASCII whitespace.
fn is_space_byte(x: u8) -> (r: bool)
    ensures
        r == is_space(x),
{
    x == 0x20 || x == 0x09 || x == 0x0a || x == 0x0c || x == 0x0d
}

/// Walks back from `p` over whitespace.
fn walk(b: &[u8], p: usize) -> (r: usize)
    requires
        p <= b@.len(),
    ensures
        r == walk_back(b@, p as int),
{
    let mut at: usize = p;
    while at > 0 && is_space_byte(b[at - 1])
        invariant
            at <= p <= b@.len(),
            walk_back(b@, at as int) == walk_back(b@, p as int),
        decreases at,
    {
        at -= 1;
    }
    if at > 0 {
        at - 1
    } else {
        0
    }
}

/// The spans in the opposite order.
fn reversed(v: &Vec<Span>) -> (r: Vec<Span>)
    ensures
        r@ == v@.reverse(),
{
    let mut out: Vec<Span> = Vec::new();
    let mut i: usize = v.len();
    while i > 0
        invariant
            i <= v.len(),
            out@.len() == v.len() - i,
            forall|j: int| 0 <= j < out@.len() ==> out@[j] == v@[v.len() - 1 - j],
        decreases i,
    {
        i -= 1;
        out.push(v[i]);
    }
    proof {
        assert(out@ =~= v@.reverse());
    }
    out
}

/// As many break markers as asked for.
fn marker_list(n: usize) -> (r: Vec<String>)
    ensures
        texts(r@) == markers(n as nat),
{
    let mut out: Vec<String> = Vec::new();
    let mut i: usize = 0;
    while i < n
        invariant
            i <= n,
            out@.len() == i,
            forall|j: int| 0 <= j < i ==> (#[trigger] out@[j])@ == "<br>"@,
        decreases n - i,
    {
        out.push("<br>".to_owned());
        i += 1;
    }
    proof {
        assert(texts(out@) =~= markers(n as nat));
    }
    out
}

/// Puts a break marker before each newline that has none, in place of the
/// whitespace that stood before the newline.
pub fn insert_breaks(text: &str) -> (r: String)
    ensures
        r@ == broken(text@),
        encode_utf8(r@) == with_markers(encode_utf8(text@)),
{
    let bytes = text.as_bytes();
    let ghost b = encode_utf8(text@);
    let mut found: Vec<Span> = Vec::new();
    let mut p: usize = bytes.len();
    proof {
        assert(break_spans(b, p as int) + found@.reverse() =~= break_spans(b, b.len() as int));
    }
    while p > 0
        invariant
            bytes@ == b,
            p <= b.len(),
            break_spans(b, p as int) + found@.reverse() == break_spans(b, b.len() as int),
        decreases p,
    {
        let ghost before = found@;
        let ghost n = p as int;
        p -= 1;
        if bytes[p] == NEWLINE {
            let at = walk(bytes, p);
            proof {
                lemma_walk_back(b, p as int);
            }
            let is_marked = at >= 3 && bytes[at - 3] == 0x3c && bytes[at - 2] == 0x62 && bytes[at
                - 1] == 0x72 && bytes[at] == 0x3e;
            if !is_marked {
                let start = if at + 1 <= p {
                    at + 1
                } else {
                    p
                };
                found.push((start, p));
                proof {
                    let sp = (start, p);
                    assert(found@.reverse() =~= seq![sp] + before.reverse());
                    assert(break_spans(b, n) == break_spans(b, at as int).push(sp));
                    assert(break_spans(b, at as int).push(sp) + before.reverse() =~= break_spans(
                        b,
                        at as int,
                    ) + (seq![sp] + before.reverse()));
                }
            }
            p = at;
        }
    }
    let spans = reversed(&found);
    let contents = marker_list(spans.len());
    proof {
        encode_utf8_valid_utf8(text@);
        assert(found@.reverse().reverse() =~= found@);
        assert(break_spans(b, 0) + found@.reverse() =~= found@.reverse());
        lemma_break_spans(b, b.len() as int);
    }
    put_back(text, &spans, &contents)
}

/// The text with line breaks: the break markers that are there are brought
/// to the form `<br>`, each newline that has none gets one, and a marker next
/// to a tag of a block element is taken out again.
pub open spec fn with_breaks(text: Seq<char>) -> Seq<char> {
    let plain = regex_replaced(BR_ELEMENT@, text, "<br>"@);
    let marked_up = broken(plain);
    let after = regex_replaced(br_after_block_pattern(), marked_up, "$1\n"@);
    regex_replaced(br_before_block_pattern(), after, "\n$1"@)
}

/// Turns the newlines of the text into line breaks.
pub fn add_breaks(patterns: &Patterns, text: &str) -> (r: String)
    ensures
        r@ == with_breaks(text@),
{
    let text = replace_all(patterns.br_element(), text, "<br>");
    let text = insert_breaks(text.as_str());
    let text = replace_all(patterns.br_after_block(), text.as_str(), "$1\n");
    replace_all(patterns.br_before_block(), text.as_str(), "\n$1")
}

} // verus!
