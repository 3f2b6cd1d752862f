//! Putting protected content away and bringing it back.
//!
//! The inner content of a protected element must not be split into
//! paragraphs or given line breaks. Before the pipeline works on the text,
//! each such content is copied out and its place is filled with a filler of
//! the same length, so that no offset moves and nothing in the place can be
//! taken for markup. When the pipeline is done, the fillers are found again
//! and each is replaced by the content that was copied out of it.

use vstd::prelude::*;
use vstd::string::*;
use vstd::utf8::*;

use crate::engine::{group_spans, regex_group_spans};
use crate::grammar::{element_pattern, Kind, Patterns};
use crate::options::Options;
use crate::pre::{pre_contents, prepare_pre};
use crate::spans::{lemma_present_fits, present, present_spans};
use crate::splice::{put_back, restored, stitch};
use crate::text::{
    all_ascii, bytes_of, covered, encoded, into_text, lemma_ascii_valid, lemma_between_valid,
    lemma_boundary, lemma_covered_step, lemma_splice_valid, span_fits, spans_ascend, spans_fit,
    spans_inside, splice, texts, Span, FILLER,
};

verus! {

/// The bytes with every offset that a span covers set to the filler.
pub open spec fn fill(b: Seq<u8>, spans: Seq<Span>) -> Seq<u8> {
    Seq::new(
        b.len(),
        |i: int|
            if covered(spans, i) {
                FILLER
            } else {
                b[i]
            },
    )
}

/// The text with the content of every span replaced by filler.
pub open spec fn filled(text: Seq<char>, spans: Seq<Span>) -> Seq<char> {
    decode_utf8(fill(encode_utf8(text), spans))
}

/// The part of the text that a span covers.
pub open spec fn slice(text: Seq<char>, sp: Span) -> Seq<char> {
    decode_utf8(encode_utf8(text).subrange(sp.0 as int, sp.1 as int))
}

/// The parts of the text that the spans cover, span by span.
pub open spec fn captured(text: Seq<char>, spans: Seq<Span>) -> Seq<Seq<char>> {
    Seq::new(spans.len(), |k: int| slice(text, spans[k]))
}

/// Filling keeps text well-formed.
pub proof fn lemma_fill_valid(b: Seq<u8>, spans: Seq<Span>)
    requires
        valid_utf8(b),
        spans_fit(b, spans),
    ensures
        valid_utf8(fill(b, spans)),
    decreases spans.len(),
{
    if spans.len() == 0 {
        assert(fill(b, spans) =~= b);
    } else {
        let init = spans.drop_last();
        let last = spans.last();
        let s = last.0 as int;
        let e = last.1 as int;
        assert(spans_fit(b, init)) by {
            assert forall|i: int| 0 <= i < init.len() implies span_fits(b, #[trigger] init[i]) by {
                assert(init[i] == spans[i]);
            }
        }
        lemma_fill_valid(b, init);
        let before = fill(b, init);
        let zeros = Seq::new((e - s) as nat, |i: int| FILLER);
        assert(span_fits(b, spans[spans.len() - 1]));
        assert(all_ascii(zeros));
        lemma_ascii_valid(zeros);
        lemma_splice_valid(before, s, e, zeros);
        assert(fill(b, spans) =~= splice(before, s, e, zeros)) by {
            assert forall|i: int| 0 <= i < b.len() implies fill(b, spans)[i] == splice(
                before,
                s,
                e,
                zeros,
            )[i] by {
                lemma_covered_step(spans, i);
            }
        }
    }
}

/// Where the filler stands and where it does not: a filled offset holds the
/// filler, which is ASCII and none of `<`, `>` and the newline; every other
/// offset holds what it held; the length is the same.
pub proof fn lemma_fill_is_inert(b: Seq<u8>, spans: Seq<Span>)
    ensures
        fill(b, spans).len() == b.len(),
        forall|i: int| 0 <= i < b.len() && covered(spans, i) ==> fill(b, spans)[i] == FILLER,
        forall|i: int| 0 <= i < b.len() && !covered(spans, i) ==> fill(b, spans)[i] == b[i],
        FILLER < 0x80 && FILLER != 0x3c && FILLER != 0x3e && FILLER != 0x0a,
{
}

/// Filling moves nothing: a span that fits the bytes fits the filled bytes.
pub proof fn lemma_fill_keeps_offsets(b: Seq<u8>, spans: Seq<Span>, sp: Span)
    requires
        span_fits(b, sp),
    ensures
        span_fits(fill(b, spans), sp),
{
}

/// The bytes that the spans cover, span by span.
pub open spec fn cut_out(b: Seq<u8>, spans: Seq<Span>) -> Seq<Seq<u8>> {
    Seq::new(spans.len(), |k: int| b.subrange(spans[k].0 as int, spans[k].1 as int))
}

/// From span `k` on, stitching what was cut out back into the filled bytes
/// gives the bytes as they were.
pub proof fn lemma_stitch_undoes_fill(b: Seq<u8>, spans: Seq<Span>, k: int, from: int)
    requires
        spans_ascend(spans),
        spans_inside(b, spans),
        0 <= k <= spans.len(),
        0 <= from <= b.len(),
        forall|j: int| 0 <= j < k ==> (#[trigger] spans[j]).1 <= from,
        k < spans.len() ==> from <= spans[k].0,
    ensures
        stitch(fill(b, spans), spans, cut_out(b, spans), k, from) == b.subrange(
            from,
            b.len() as int,
        ),
    decreases spans.len() - k,
{
    let f = fill(b, spans);
    let upto = if k < spans.len() {
        spans[k].0 as int
    } else {
        b.len() as int
    };
    assert forall|i: int| from <= i < upto implies f[i] == b[i] by {
        if covered(spans, i) {
            let j = choose|j: int| 0 <= j < spans.len() && (#[trigger] spans[j]).0 <= i < spans[j].1;
            if j > k {
                assert(spans[k].1 <= spans[j].0);
            }
        }
    }
    assert(f.subrange(from, upto) =~= b.subrange(from, upto));
    if k < spans.len() {
        let end = spans[k].1 as int;
        assert forall|j: int| 0 <= j < k + 1 implies (#[trigger] spans[j]).1 <= end by {
            if j < k {
                assert(spans[j].1 <= spans[k].0);
            }
        }
        if k + 1 < spans.len() {
            assert(spans[k].1 <= spans[k + 1].0);
        }
        lemma_stitch_undoes_fill(b, spans, k + 1, end);
        assert(b.subrange(from, upto) + b.subrange(upto, end) + b.subrange(end, b.len() as int)
            =~= b.subrange(from, b.len() as int));
    }
}

/// Bringing back undoes putting away: when the spans that were filled are
/// found again, and each gets the content that was taken from it, the text
/// is as it was.
pub proof fn lemma_vault_round_trip(text: Seq<char>, spans: Seq<Span>)
    requires
        spans_fit(encode_utf8(text), spans),
        spans_ascend(spans),
    ensures
        restored(filled(text, spans), spans, captured(text, spans)) == text,
{
    let b = encode_utf8(text);
    encode_utf8_valid_utf8(text);
    lemma_fill_valid(b, spans);
    decode_utf8_encode_utf8(fill(b, spans));
    assert(spans_inside(b, spans)) by {
        assert forall|k: int| 0 <= k < spans.len() implies (#[trigger] spans[k]).0 <= spans[k].1
            <= b.len() by {
            assert(span_fits(b, spans[k]));
        }
    }
    assert(encoded(captured(text, spans)) =~= cut_out(b, spans)) by {
        assert forall|k: int| 0 <= k < spans.len() implies encoded(captured(text, spans))[k]
            == cut_out(b, spans)[k] by {
            assert(span_fits(b, spans[k]));
            lemma_between_valid(b, spans[k].0 as int, spans[k].1 as int);
            decode_utf8_encode_utf8(b.subrange(spans[k].0 as int, spans[k].1 as int));
        }
    }
    lemma_stitch_undoes_fill(b, spans, 0, 0);
    assert(b.subrange(0, b.len() as int) =~= b);
    encode_utf8_decode_utf8(text);
}

/// The part of the text that the span covers, copied out.
pub fn slice_text(text: &str, sp: Span) -> (r: String)
    requires
        span_fits(encode_utf8(text@), sp),
    ensures
        r@ == slice(text@, sp),
{
    let ghost b = encode_utf8(text@);
    proof {
        encode_utf8_valid_utf8(text@);
        lemma_boundary(b, sp.1 as int);
    }
    let (head, _) = text.split_at(sp.1);
    proof {
        encode_utf8_valid_utf8(head@);
        lemma_boundary(head.spec_bytes(), sp.0 as int);
    }
    let (_, mid) = head.split_at(sp.0);
    proof {
        assert(mid.spec_bytes() =~= b.subrange(sp.0 as int, sp.1 as int));
        encode_utf8_decode_utf8(mid@);
    }
    mid.to_owned()
}

/// Copies the content of each span out of the text and fills its place.
///
/// Returns the filled text, which is as long in bytes as the text was, and
/// the contents in the order of the spans.
pub fn put_away(text: &str, spans: &Vec<Span>) -> (r: (String, Vec<String>))
    requires
        spans_fit(encode_utf8(text@), spans@),
    ensures
        r.0@ == filled(text@, spans@),
        encode_utf8(r.0@) == fill(encode_utf8(text@), spans@),
        texts(r.1@) == captured(text@, spans@),
{
    let mut buf = bytes_of(text);
    let ghost orig = buf@;
    let mut contents: Vec<String> = Vec::new();
    let mut k: usize = 0;
    while k < spans.len()
        invariant
            k <= spans.len(),
            orig == encode_utf8(text@),
            spans_fit(orig, spans@),
            buf@ == fill(orig, spans@.take(k as int)),
            contents@.len() == k,
            forall|j: int| 0 <= j < k ==> (#[trigger] contents@[j])@ == slice(text@, spans@[j]),
        decreases spans.len() - k,
    {
        let sp = spans[k];
        assert(span_fits(orig, spans@[k as int]));
        contents.push(slice_text(text, sp));
        let ghost done = spans@.take(k as int);
        let mut i: usize = sp.0;
        while i < sp.1
            invariant
                sp.0 <= i <= sp.1 <= orig.len(),
                buf@.len() == orig.len(),
                forall|j: int|
                    0 <= j < orig.len() ==> #[trigger] buf@[j] == if covered(done, j) || sp.0 <= j
                        < i {
                        FILLER
                    } else {
                        orig[j]
                    },
            decreases sp.1 - i,
        {
            buf.set(i, FILLER);
            i += 1;
        }
        proof {
            let next = spans@.take(k + 1);
            assert(next.drop_last() =~= done);
            assert(next.last() == sp);
            assert forall|j: int| 0 <= j < orig.len() implies buf@[j] == fill(orig, next)[j] by {
                lemma_covered_step(next, j);
            }
            assert(buf@ =~= fill(orig, next));
        }
        k += 1;
    }
    proof {
        assert(spans@.take(k as int) =~= spans@);
        lemma_fill_valid(orig, spans@);
        assert(texts(contents@) =~= captured(text@, spans@));
    }
    (into_text(buf), contents)
}

/// What was put away of one kind: the contents in the order in which they
/// were found, and for each the span from which it was taken.
pub struct Shelf {
    pub contents: Vec<String>,
    pub origins: Vec<Span>,
}

/// What a shelf holds: the contents as texts, and the span from which each
/// was taken.
pub struct Kept {
    pub contents: Seq<Seq<char>>,
    pub origins: Seq<Span>,
}

impl View for Shelf {
    type V = Kept;

    open spec fn view(&self) -> Kept {
        Kept { contents: texts(self.contents@), origins: self.origins@ }
    }
}

/// The spans of the inner content of the elements of a kind, as the engine
/// finds them in the text.
pub open spec fn element_spans(kind: Kind, text: Seq<char>) -> Seq<Span> {
    present(regex_group_spans(element_pattern(kind.name()), text, 2))
}

/// The text with the inner content of every element of the kind filled.
pub open spec fn vault_text(kind: Kind, text: Seq<char>) -> Seq<char> {
    filled(text, element_spans(kind, text))
}

/// The inner contents of the elements of the kind, in the order in which
/// they are found.
pub open spec fn vault_contents(kind: Kind, text: Seq<char>) -> Seq<Seq<char>> {
    captured(text, element_spans(kind, text))
}

/// The text with the inner content of each element of the kind, as found
/// now, replaced by the content of the same index.
pub open spec fn restore(kind: Kind, text: Seq<char>, contents: Seq<Seq<char>>) -> Seq<char> {
    restored(text, element_spans(kind, text), contents)
}

/// Puts the inner content of every element of the kind away.
///
/// Returns the text with fillers in place of the contents, which is as long
/// in bytes as the text was, and what was put away.
pub fn vault_kind(patterns: &Patterns, kind: Kind, text: &str) -> (r: (String, Shelf))
    ensures
        r.0@ == vault_text(kind, text@),
        encode_utf8(r.0@) == fill(encode_utf8(text@), element_spans(kind, text@)),
        texts(r.1.contents@) == vault_contents(kind, text@),
        r.1.origins@ == element_spans(kind, text@),
        r.1@ == (Kept {
            contents: vault_contents(kind, text@),
            origins: element_spans(kind, text@),
        }),
{
    let found = group_spans(patterns.element(kind), text, 2);
    let spans = present_spans(&found);
    proof {
        lemma_present_fits(text@, found@);
    }
    let (filled_text, contents) = put_away(text, &spans);
    (filled_text, Shelf { contents, origins: spans })
}

/// Brings contents back into the elements of the kind: the elements are
/// found again, and the content of the element at each index is replaced by
/// the content of that index.
pub fn restore_kind(patterns: &Patterns, kind: Kind, text: &str, contents: &Vec<String>) -> (r:
    String)
    ensures
        r@ == restore(kind, text@, texts(contents@)),
        encode_utf8(r@) == stitch(
            encode_utf8(text@),
            element_spans(kind, text@),
            encoded(texts(contents@)),
            0,
            0,
        ),
{
    let found = group_spans(patterns.element(kind), text, 2);
    let spans = present_spans(&found);
    proof {
        lemma_present_fits(text@, found@);
    }
    put_back(text, &spans, contents)
}

/// What was put away of the five kinds.
pub struct Vault {
    pub pre: Shelf,
    pub textarea: Shelf,
    pub script: Shelf,
    pub style: Shelf,
    pub svg: Shelf,
}

/// What a vault holds, kind by kind.
pub struct Stored {
    pub pre: Kept,
    pub textarea: Kept,
    pub script: Kept,
    pub style: Kept,
    pub svg: Kept,
}

impl View for Vault {
    type V = Stored;

    open spec fn view(&self) -> Stored {
        Stored {
            pre: self.pre@,
            textarea: self.textarea@,
            script: self.script@,
            style: self.style@,
            svg: self.svg@,
        }
    }
}

/// The text as it is when the contents of `kind` are about to be put away:
/// those of the kinds before it have been put away already. The order is
/// `<pre>`, `<textarea>`, `<script>`, `<style>`, `<svg>`.
pub open spec fn without_earlier(text: Seq<char>, kind: Kind) -> Seq<char> {
    let one = vault_text(Kind::Pre, text);
    let two = vault_text(Kind::Textarea, one);
    let three = vault_text(Kind::Script, two);
    match kind {
        Kind::Pre => text,
        Kind::Textarea => one,
        Kind::Script => two,
        Kind::Style => three,
        Kind::Svg => vault_text(Kind::Style, three),
    }
}

/// The text after the contents of the five kinds have been put away, one
/// kind after the other.
pub open spec fn vaulted(text: Seq<char>) -> Seq<char> {
    vault_text(Kind::Svg, without_earlier(text, Kind::Svg))
}

/// The contents of `kind` that are put away from the text.
pub open spec fn put_aside(text: Seq<char>, kind: Kind) -> Seq<Seq<char>> {
    vault_contents(kind, without_earlier(text, kind))
}

/// Where the contents of `kind` are taken from: the spans of the elements
/// of the kind in the text as it is when the kind's turn has come.
pub open spec fn taken_from(text: Seq<char>, kind: Kind) -> Seq<Span> {
    element_spans(kind, without_earlier(text, kind))
}

/// What is put away of `kind` from the text, and from where.
pub open spec fn kept(text: Seq<char>, kind: Kind) -> Kept {
    Kept { contents: put_aside(text, kind), origins: taken_from(text, kind) }
}

/// All that is put away from the text.
pub open spec fn stored(text: Seq<char>) -> Stored {
    Stored {
        pre: kept(text, Kind::Pre),
        textarea: kept(text, Kind::Textarea),
        script: kept(text, Kind::Script),
        style: kept(text, Kind::Style),
        svg: kept(text, Kind::Svg),
    }
}

/// The text after the stored contents of `<textarea>`, `<script>`, `<style>`
/// and `<svg>` have been brought back, in this order. Each kind is restored
/// from its own contents, as they were put away: no option has a say here.
pub open spec fn preserved_back(text: Seq<char>, stored: Stored) -> Seq<char> {
    let a = restore(Kind::Textarea, text, stored.textarea.contents);
    let b = restore(Kind::Script, a, stored.script.contents);
    let c = restore(Kind::Style, b, stored.style.contents);
    restore(Kind::Svg, c, stored.svg.contents)
}

/// The text after all stored contents have been brought back: first those of
/// the four preserved kinds, then those of `<pre>` as the options ask.
pub open spec fn brought_back(text: Seq<char>, stored: Stored, options: Options) -> Seq<char> {
    restore(Kind::Pre, preserved_back(text, stored), pre_contents(stored.pre.contents, options))
}

/// Puts the contents of the five kinds away, one kind after the other. What
/// stands inside a content that is put away is filler for the kinds that
/// follow, so protected elements do not nest across kinds.
///
/// Returns the text with fillers in place of the contents, which is as long
/// in bytes as the text was, and what was put away: for each kind the
/// contents and the span from which each was taken.
pub fn vault_all(patterns: &Patterns, text: &str) -> (r: (String, Vault))
    ensures
        r.0@ == vaulted(text@),
        r.1@ == stored(text@),
        r.1.pre.origins@ == element_spans(Kind::Pre, without_earlier(text@, Kind::Pre)),
        r.1.textarea.origins@ == element_spans(
            Kind::Textarea,
            without_earlier(text@, Kind::Textarea),
        ),
        r.1.script.origins@ == element_spans(Kind::Script, without_earlier(text@, Kind::Script)),
        r.1.style.origins@ == element_spans(Kind::Style, without_earlier(text@, Kind::Style)),
        r.1.svg.origins@ == element_spans(Kind::Svg, without_earlier(text@, Kind::Svg)),
        encode_utf8(r.0@).len() == encode_utf8(text@).len(),
{
    let (text, pre) = vault_kind(patterns, Kind::Pre, text);
    let (text, textarea) = vault_kind(patterns, Kind::Textarea, text.as_str());
    let (text, script) = vault_kind(patterns, Kind::Script, text.as_str());
    let (text, style) = vault_kind(patterns, Kind::Style, text.as_str());
    let (text, svg) = vault_kind(patterns, Kind::Svg, text.as_str());
    (text, Vault { pre, textarea, script, style, svg })
}

/// Brings the contents of a vault back into the text.
pub fn restore_all(patterns: &Patterns, text: &str, vault: &Vault, options: &Options) -> (r:
    String)
    ensures
        r@ == brought_back(text@, vault@, *options),
{
    let text = restore_kind(patterns, Kind::Textarea, text, &vault.textarea.contents);
    let text = restore_kind(patterns, Kind::Script, text.as_str(), &vault.script.contents);
    let text = restore_kind(patterns, Kind::Style, text.as_str(), &vault.style.contents);
    let text = restore_kind(patterns, Kind::Svg, text.as_str(), &vault.svg.contents);
    let pre = prepare_pre(&vault.pre.contents, options);
    restore_kind(patterns, Kind::Pre, text.as_str(), &pre)
}

} // verus!
