//! Hiding the newlines that stand inside tags.
//!
//! A newline in the attribute list of a tag is no line end of the text. So
//! that the paragraph splitter does not see it, it is turned into the
//! sentinel, a carriage return, which normalized text does not hold. At the
//! very end every sentinel is turned back into a newline.

use vstd::prelude::*;
use vstd::utf8::*;

use crate::engine::{group_spans, regex_group_spans, regex_replaced, replace_all};
use crate::grammar::{tag_pattern, Patterns, OTHER_NEWLINE};
use crate::spans::{lemma_present_fits, present, present_spans};
use crate::text::{
    bytes_of, covered, into_text, lemma_ascii_swap_valid, lemma_covered_step, span_fits,
    spans_inside, Span, NEWLINE, SENTINEL,
};

verus! {

/// The bytes with every newline that a span covers turned into the sentinel.
pub open spec fn shield(b: Seq<u8>, spans: Seq<Span>) -> Seq<u8> {
    Seq::new(
        b.len(),
        |i: int|
            if b[i] == NEWLINE && covered(spans, i) {
                SENTINEL
            } else {
                b[i]
            },
    )
}

/// The bytes with every sentinel turned into a newline.
pub open spec fn unshield(b: Seq<u8>) -> Seq<u8> {
    Seq::new(
        b.len(),
        |i: int|
            if b[i] == SENTINEL {
                NEWLINE
            } else {
                b[i]
            },
    )
}

/// The text with every newline that a span covers turned into the sentinel.
pub open spec fn shielded(text: Seq<char>, spans: Seq<Span>) -> Seq<char> {
    decode_utf8(shield(encode_utf8(text), spans))
}

/// The text with every sentinel turned into a newline.
pub open spec fn unshielded(text: Seq<char>) -> Seq<char> {
    decode_utf8(unshield(encode_utf8(text)))
}

/// Shielding round-trips. Hiding the newlines in any spans and then showing
/// all hidden newlines gives what showing alone gives; on bytes that hold no
/// sentinel of their own, that is the bytes themselves. While the newlines
/// are hidden, no span holds a newline, and nothing outside the spans has
/// changed.
pub proof fn lemma_shield_round_trip(b: Seq<u8>, spans: Seq<Span>)
    ensures
        unshield(shield(b, spans)) == unshield(b),
        (forall|i: int| 0 <= i < b.len() ==> b[i] != SENTINEL) ==> unshield(shield(b, spans)) == b,
        forall|i: int| 0 <= i < b.len() && covered(spans, i) ==> shield(b, spans)[i] != NEWLINE,
        forall|i: int| 0 <= i < b.len() && !covered(spans, i) ==> shield(b, spans)[i] == b[i],
{
    assert(unshield(shield(b, spans)) =~= unshield(b));
    if forall|i: int| 0 <= i < b.len() ==> b[i] != SENTINEL {
        assert(unshield(b) =~= b);
    }
}

/// Showing the hidden newlines leaves no sentinel, whatever the bytes were.
pub proof fn lemma_unshield_clears(b: Seq<u8>)
    ensures
        forall|i: int| 0 <= i < b.len() ==> unshield(b)[i] != SENTINEL,
        unshield(b).len() == b.len(),
{
}

/// Turns every newline that a span covers into the sentinel.
pub fn hide_newlines(text: &str, spans: &Vec<Span>) -> (r: String)
    requires
        spans_inside(encode_utf8(text@), spans@),
    ensures
        r@ == shielded(text@, spans@),
        encode_utf8(r@) == shield(encode_utf8(text@), spans@),
{
    let mut buf = bytes_of(text);
    let ghost orig = buf@;
    let mut k: usize = 0;
    while k < spans.len()
        invariant
            k <= spans.len(),
            spans_inside(orig, spans@),
            buf@ == shield(orig, spans@.take(k as int)),
        decreases spans.len() - k,
    {
        let sp = spans[k];
        assert(spans@[k as int].0 <= spans@[k as int].1 <= orig.len());
        let ghost done = spans@.take(k as int);
        let mut i: usize = sp.0;
        while i < sp.1
            invariant
                sp.0 <= i <= sp.1 <= orig.len(),
                buf@.len() == orig.len(),
                forall|j: int|
                    0 <= j < orig.len() ==> #[trigger] buf@[j] == if orig[j] == NEWLINE && (covered(
                        done,
                        j,
                    ) || sp.0 <= j < i) {
                        SENTINEL
                    } else {
                        orig[j]
                    },
            decreases sp.1 - i,
        {
            if buf[i] == NEWLINE {
                buf.set(i, SENTINEL);
            }
            i += 1;
        }
        proof {
            let next = spans@.take(k + 1);
            assert(next.drop_last() =~= done);
            assert(next.last() == sp);
            assert forall|j: int| 0 <= j < orig.len() implies buf@[j] == shield(orig, next)[j] by {
                lemma_covered_step(next, j);
            }
            assert(buf@ =~= shield(orig, next));
        }
        k += 1;
    }
    proof {
        assert(spans@.take(k as int) =~= spans@);
        lemma_ascii_swap_valid(orig, buf@);
    }
    into_text(buf)
}

/// Turns every sentinel into a newline. The result holds no carriage return.
pub fn show_newlines(text: &str) -> (r: String)
    ensures
        r@ == unshielded(text@),
        encode_utf8(r@) == unshield(encode_utf8(text@)),
        forall|i: int| 0 <= i < encode_utf8(r@).len() ==> encode_utf8(r@)[i] != SENTINEL,
{
    let mut buf = bytes_of(text);
    let ghost orig = buf@;
    let mut i: usize = 0;
    while i < buf.len()
        invariant
            i <= buf.len(),
            buf@.len() == orig.len(),
            forall|j: int|
                0 <= j < orig.len() ==> #[trigger] buf@[j] == if j < i && orig[j] == SENTINEL {
                    NEWLINE
                } else {
                    orig[j]
                },
        decreases buf.len() - i,
    {
        if buf[i] == SENTINEL {
            buf.set(i, NEWLINE);
        }
        i += 1;
    }
    proof {
        assert(buf@ =~= unshield(orig));
        lemma_ascii_swap_valid(orig, buf@);
    }
    into_text(buf)
}

/// The text with `\r\n` and `\r` replaced by `\n`, as the engine does it.
pub open spec fn normalized(text: Seq<char>) -> Seq<char> {
    regex_replaced(OTHER_NEWLINE@, text, "\n"@)
}

/// The spans of the attribute lists of the tags that the engine finds in the
/// text.
pub open spec fn attribute_spans(text: Seq<char>) -> Seq<Span> {
    present(regex_group_spans(tag_pattern(), text, 1))
}

/// The text with the newlines in the attribute lists of its tags hidden.
pub open spec fn tags_shielded(text: Seq<char>) -> Seq<char> {
    shielded(text, attribute_spans(text))
}

/// Makes `\n` the only line ending.
pub fn normalize_newlines(patterns: &Patterns, text: &str) -> (r: String)
    ensures
        r@ == normalized(text@),
{
    replace_all(patterns.other_newline(), text, "\n")
}

/// Hides the newlines in the attribute lists of the tags of the text.
pub fn shield_tags(patterns: &Patterns, text: &str) -> (r: String)
    ensures
        r@ == tags_shielded(text@),
{
    let found = group_spans(patterns.tag(), text, 1);
    let spans = present_spans(&found);
    proof {
        lemma_present_fits(text@, found@);
        assert(spans_inside(encode_utf8(text@), spans@)) by {
            assert forall|k: int| 0 <= k < spans@.len() implies (#[trigger] spans@[k]).0
                <= spans@[k].1 <= encode_utf8(text@).len() by {
                assert(span_fits(encode_utf8(text@), spans@[k]));
            }
        }
    }
    hide_newlines(text, &spans)
}

} // verus!
