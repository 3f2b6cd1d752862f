//! Text as bytes.
//!
//! The transformation addresses its buffer by byte offsets, while a `String`
//! is seen by the verifier as a sequence of `char`s. This module holds the
//! bridge between the two: what it means for an offset to be usable, the
//! facts about UTF-8 that keep every rewritten buffer well-formed, and the
//! two conversions that the stages are built on.

use vstd::prelude::*;
use vstd::string::*;
use vstd::utf8::*;

verus! {

/// The newline byte.
pub const NEWLINE: u8 = 0x0a;

/// The carriage return byte. It stands in for a newline that is hidden
/// inside a tag.
pub const SENTINEL: u8 = 0x0d;

/// The byte that takes the place of protected content: the digit `0`.
pub const FILLER: u8 = 0x30;

/// A half-open range of byte offsets, start first.
pub type Span = (usize, usize);

/// `i` is an offset into `b`, or its end, that does not point into the
/// middle of an encoded scalar.
pub open spec fn on_boundary(b: Seq<u8>, i: int) -> bool {
    0 <= i <= b.len() && (i < b.len() ==> !is_continuation_byte(b[i]))
}

/// Every span lies inside `b`, its start before its end.
pub open spec fn spans_inside(b: Seq<u8>, spans: Seq<Span>) -> bool {
    forall|k: int| 0 <= k < spans.len() ==> (#[trigger] spans[k]).0 <= spans[k].1 <= b.len()
}

/// The span lies inside `b` and both of its ends are on boundaries.
pub open spec fn span_fits(b: Seq<u8>, sp: Span) -> bool {
    sp.0 <= sp.1 && on_boundary(b, sp.0 as int) && on_boundary(b, sp.1 as int)
}

/// Every span of the list fits `b`.
pub open spec fn spans_fit(b: Seq<u8>, spans: Seq<Span>) -> bool {
    forall|i: int| 0 <= i < spans.len() ==> span_fits(b, #[trigger] spans[i])
}

/// The spans come in buffer order and do not overlap.
pub open spec fn spans_ascend(spans: Seq<Span>) -> bool {
    forall|i: int, j: int|
        0 <= i < j < spans.len() ==> (#[trigger] spans[i]).1 <= (#[trigger] spans[j]).0
}

/// Some span of the list covers offset `i`.
pub open spec fn covered(spans: Seq<Span>, i: int) -> bool {
    exists|k: int| 0 <= k < spans.len() && (#[trigger] spans[k]).0 <= i < spans[k].1
}

/// Every byte is ASCII.
pub open spec fn all_ascii(b: Seq<u8>) -> bool {
    forall|i: int| 0 <= i < b.len() ==> #[trigger] b[i] < 0x80
}

/// `b` with the bytes from `s` to `e` replaced by `c`.
pub open spec fn splice(b: Seq<u8>, s: int, e: int, c: Seq<u8>) -> Seq<u8> {
    b.subrange(0, s) + c + b.subrange(e, b.len() as int)
}

/// What a list of strings holds.
pub open spec fn texts(v: Seq<String>) -> Seq<Seq<char>> {
    Seq::new(v.len(), |k: int| v[k]@)
}

/// The encodings of a list of texts.
pub open spec fn encoded(contents: Seq<Seq<char>>) -> Seq<Seq<u8>> {
    Seq::new(contents.len(), |k: int| encode_utf8(contents[k]))
}

/// An offset is covered by a list of spans when the last span covers it or
/// one of the others does.
pub proof fn lemma_covered_step(spans: Seq<Span>, i: int)
    requires
        spans.len() > 0,
    ensures
        covered(spans, i) <==> (covered(spans.drop_last(), i) || spans.last().0 <= i
            < spans.last().1),
{
    let init = spans.drop_last();
    if covered(spans, i) {
        let k = choose|k: int| 0 <= k < spans.len() && (#[trigger] spans[k]).0 <= i < spans[k].1;
        if k < init.len() {
            assert(init[k].0 <= i < init[k].1);
        }
    }
    if covered(init, i) {
        let k = choose|k: int| 0 <= k < init.len() && (#[trigger] init[k]).0 <= i < init[k].1;
        assert(spans[k].0 <= i < spans[k].1);
    }
    if spans.last().0 <= i < spans.last().1 {
        assert(spans[spans.len() - 1].0 <= i < spans[spans.len() - 1].1);
    }
}

/// On well-formed text, `on_boundary` is what `vstd` calls a character
/// boundary.
pub proof fn lemma_boundary(b: Seq<u8>, i: int)
    requires
        valid_utf8(b),
    ensures
        is_char_boundary(b, i) <==> on_boundary(b, i),
{
    if 0 <= i < b.len() {
        is_char_boundary_iff_not_is_continuation_byte(b, i);
    } else if i == b.len() {
        is_char_boundary_start_end_of_seq(b);
    } else {
        reveal_with_fuel(is_char_boundary, 1);
    }
}

/// A sequence of ASCII bytes is well-formed.
pub proof fn lemma_ascii_valid(b: Seq<u8>)
    requires
        all_ascii(b),
    ensures
        valid_utf8(b),
{
    assert(valid_utf8(b.subrange(0, 0))) by {
        reveal_with_fuel(valid_utf8, 1);
    }
    assert(partial_valid_utf8(b, 0));
    assert forall|i: int| 0 <= 0 <= i < b.len() <= b.len() implies #[trigger] is_leading_byte_width_1(
        b[i],
    ) by {}
    partial_valid_utf8_extend_ascii_block(b, 0, b.len() as int);
    assert(b.subrange(0, b.len() as int) =~= b);
}

/// What lies between two boundaries of well-formed text is well-formed.
pub proof fn lemma_between_valid(b: Seq<u8>, s: int, e: int)
    requires
        valid_utf8(b),
        on_boundary(b, s),
        on_boundary(b, e),
        s <= e,
    ensures
        valid_utf8(b.subrange(s, e)),
{
    lemma_boundary(b, e);
    valid_utf8_split(b, e);
    let p = b.subrange(0, e);
    assert(on_boundary(p, s));
    lemma_boundary(p, s);
    valid_utf8_split(p, s);
    assert(p.subrange(s, p.len() as int) =~= b.subrange(s, e));
}

/// Replacing what lies between two boundaries by well-formed text keeps the
/// whole well-formed.
pub proof fn lemma_splice_valid(b: Seq<u8>, s: int, e: int, c: Seq<u8>)
    requires
        valid_utf8(b),
        on_boundary(b, s),
        on_boundary(b, e),
        s <= e,
        valid_utf8(c),
    ensures
        valid_utf8(splice(b, s, e, c)),
{
    lemma_between_valid(b, 0, s);
    lemma_between_valid(b, e, b.len() as int);
    valid_utf8_concat(b.subrange(0, s), c);
    valid_utf8_concat(b.subrange(0, s) + c, b.subrange(e, b.len() as int));
}

/// An ASCII byte of well-formed text has a boundary on either side.
pub proof fn lemma_ascii_boundary(b: Seq<u8>, i: int)
    requires
        valid_utf8(b),
        0 <= i < b.len(),
        b[i] < 0x80,
    ensures
        on_boundary(b, i),
        on_boundary(b, i + 1),
{
    if i + 1 < b.len() {
        lemma_boundary(b, i);
        valid_utf8_split(b, i);
        let rest = b.subrange(i, b.len() as int);
        assert(rest[0] == b[i]);
        assert(valid_first_scalar(rest) && valid_utf8(pop_first_scalar(rest))) by {
            reveal_with_fuel(valid_utf8, 1);
        }
        assert(length_of_first_scalar(rest) == 1);
        let after = pop_first_scalar(rest);
        assert(after =~= b.subrange(i + 1, b.len() as int));
        assert(after[0] == b[i + 1]);
        assert(valid_first_scalar(after)) by {
            reveal_with_fuel(valid_utf8, 1);
        }
    }
}

/// Exchanging ASCII bytes for ASCII bytes, place by place, keeps text
/// well-formed.
pub proof fn lemma_ascii_swap_valid(b: Seq<u8>, c: Seq<u8>)
    requires
        valid_utf8(b),
        c.len() == b.len(),
        forall|i: int| 0 <= i < b.len() ==> c[i] == b[i] || (b[i] < 0x80 && c[i] < 0x80),
    ensures
        valid_utf8(c),
    decreases b.len(),
{
    reveal_with_fuel(valid_utf8, 1);
    if b.len() > 0 {
        let n = length_of_first_scalar(b);
        assert(valid_first_scalar(b));
        assert(1 <= n <= b.len());
        assert(forall|k: int| 0 <= k < n ==> c[k] == b[k] || n == 1);
        assert(valid_first_scalar(c) && length_of_first_scalar(c) == n);
        let rb = pop_first_scalar(b);
        let rc = pop_first_scalar(c);
        assert forall|i: int| 0 <= i < rb.len() implies rc[i] == rb[i] || (rb[i] < 0x80 && rc[i]
            < 0x80) by {
            assert(rb[i] == b[i + n]);
            assert(rc[i] == c[i + n]);
        }
        lemma_ascii_swap_valid(rb, rc);
    }
}

/// `String::from_utf8`: the bytes become a `String` exactly when they are
/// well-formed UTF-8, and the `String` then holds the text they encode.
#[verifier::external_body]
fn string_from_utf8(bytes: Vec<u8>) -> (r: Option<String>)
    ensures
        r is Some <==> valid_utf8(bytes@),
        r matches Some(s) ==> s@ == decode_utf8(bytes@),
{
    match String::from_utf8(bytes) {
        Ok(s) => Some(s),
        Err(_) => None,
    }
}

/// The text that well-formed bytes encode.
pub fn into_text(bytes: Vec<u8>) -> (r: String)
    requires
        valid_utf8(bytes@),
    ensures
        r@ == decode_utf8(bytes@),
        encode_utf8(r@) == bytes@,
{
    proof {
        decode_utf8_encode_utf8(bytes@);
    }
    match string_from_utf8(bytes) {
        Some(s) => s,
        // Well-formed bytes always convert.
        None => String::new(),
    }
}

/// The bytes of a text, copied out.
pub fn bytes_of(text: &str) -> (r: Vec<u8>)
    ensures
        r@ == encode_utf8(text@),
        valid_utf8(r@),
{
    proof {
        encode_utf8_valid_utf8(text@);
    }
    text.as_bytes_vec()
}

/// Whether the spans can be used on the text: each fits it, and they ascend.
pub fn spans_usable(text: &str, spans: &Vec<Span>) -> (r: bool)
    ensures
        r == (spans_fit(encode_utf8(text@), spans@) && spans_ascend(spans@)),
{
    let ghost b = encode_utf8(text@);
    proof {
        encode_utf8_valid_utf8(text@);
    }
    let mut floor: usize = 0;
    let mut k: usize = 0;
    while k < spans.len()
        invariant
            k <= spans.len(),
            b == encode_utf8(text@),
            valid_utf8(b),
            spans_fit(b, spans@.take(k as int)),
            spans_ascend(spans@.take(k as int)),
            forall|i: int| 0 <= i < k ==> (#[trigger] spans@[i]).1 <= floor,
            k == 0 ==> floor == 0,
            k > 0 ==> floor == spans@[k - 1].1,
        decreases spans.len() - k,
    {
        let sp = spans[k];
        proof {
            lemma_boundary(b, sp.0 as int);
            lemma_boundary(b, sp.1 as int);
        }
        let fits = sp.0 <= sp.1 && text.is_char_boundary(sp.0) && text.is_char_boundary(sp.1);
        if !fits || sp.0 < floor {
            proof {
                if !fits {
                    assert(!span_fits(b, spans@[k as int]));
                } else {
                    assert(spans@[k - 1].1 > spans@[k as int].0);
                }
            }
            return false;
        }
        proof {
            let next = spans@.take(k + 1);
            assert forall|i: int| 0 <= i < next.len() implies span_fits(b, #[trigger] next[i]) by {
                if i < k {
                    assert(next[i] == spans@.take(k as int)[i]);
                }
            }
            assert forall|i: int, j: int| 0 <= i < j < next.len() implies (#[trigger] next[i]).1 <= (
            #[trigger] next[j]).0 by {
                if j < k {
                    assert(next[i] == spans@.take(k as int)[i]);
                    assert(next[j] == spans@.take(k as int)[j]);
                } else {
                    assert(next[i] == spans@[i]);
                }
            }
        }
        floor = sp.1;
        k += 1;
    }
    proof {
        assert(spans@.take(k as int) =~= spans@);
    }
    true
}

} // verus!
