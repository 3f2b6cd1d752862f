//! Replacing spans of a text.
//!
//! Two stages rewrite the text at spans that were found in it: contents that
//! were put away are brought back in place of their fillers, and runs of
//! whitespace give way to break markers. Both say which spans are meant and
//! what goes in; this module does the replacing, in one pass from the start
//! of the text to its end.

use vstd::prelude::*;
use vstd::string::*;
use vstd::utf8::*;

use crate::text::{
    encoded, into_text, lemma_between_valid, on_boundary, span_fits, spans_ascend, spans_fit,
    spans_inside, texts, Span,
};

verus! {

/// The bytes from `from` on, with span `k` and each later span replaced by
/// the content of the same index. Spans without a content, and contents
/// without a span, are left out.
pub open spec fn stitch(
    b: Seq<u8>,
    spans: Seq<Span>,
    contents: Seq<Seq<u8>>,
    k: int,
    from: int,
) -> Seq<u8>
    decreases spans.len() - k,
{
    if 0 <= k < spans.len() && k < contents.len() {
        b.subrange(from, spans[k].0 as int) + contents[k] + stitch(
            b,
            spans,
            contents,
            k + 1,
            spans[k].1 as int,
        )
    } else {
        b.subrange(from, b.len() as int)
    }
}

/// The text with each span replaced by the content of the same index.
pub open spec fn restored(text: Seq<char>, spans: Seq<Span>, contents: Seq<Seq<char>>) -> Seq<
    char,
> {
    decode_utf8(stitch(encode_utf8(text), spans, encoded(contents), 0, 0))
}

/// How far into what `stitch` gives from span `j` and offset `from` on the
/// content of span `k` begins.
pub open spec fn offset_from(
    spans: Seq<Span>,
    contents: Seq<Seq<u8>>,
    j: int,
    from: int,
    k: int,
) -> int
    decreases k - j,
{
    if j >= k {
        spans[k].0 - from
    } else {
        (spans[j].0 - from) + contents[j].len() + offset_from(
            spans,
            contents,
            j + 1,
            spans[j].1 as int,
            k,
        )
    }
}

/// Where in the stitched bytes the content of span `k` begins.
pub open spec fn landing(spans: Seq<Span>, contents: Seq<Seq<u8>>, k: int) -> int {
    offset_from(spans, contents, 0, 0, k)
}

/// The content of span `k` stands in what `stitch` gives from span `j` on,
/// whole and unchanged, at `offset_from`.
pub proof fn lemma_stitch_holds(
    b: Seq<u8>,
    spans: Seq<Span>,
    contents: Seq<Seq<u8>>,
    j: int,
    from: int,
    k: int,
)
    requires
        0 <= j <= k < spans.len(),
        k < contents.len(),
        0 <= from <= spans[j].0,
        spans_ascend(spans),
        spans_inside(b, spans),
    ensures
        0 <= offset_from(spans, contents, j, from, k),
        offset_from(spans, contents, j, from, k) + contents[k].len() <= stitch(
            b,
            spans,
            contents,
            j,
            from,
        ).len(),
        stitch(b, spans, contents, j, from).subrange(
            offset_from(spans, contents, j, from, k),
            offset_from(spans, contents, j, from, k) + contents[k].len(),
        ) == contents[k],
    decreases k - j,
{
    let gap = b.subrange(from, spans[j].0 as int);
    let rest = stitch(b, spans, contents, j + 1, spans[j].1 as int);
    assert(stitch(b, spans, contents, j, from) == gap + contents[j] + rest);
    if j < k {
        assert(spans[j].1 <= spans[j + 1].0);
        lemma_stitch_holds(b, spans, contents, j + 1, spans[j].1 as int, k);
        let inner = offset_from(spans, contents, j + 1, spans[j].1 as int, k);
        let shift = gap.len() as int + contents[j].len();
        assert((gap + contents[j] + rest).subrange(
            shift + inner,
            shift + inner + contents[k].len(),
        ) =~= rest.subrange(inner, inner + contents[k].len()));
    } else {
        assert((gap + contents[j] + rest).subrange(
            gap.len() as int,
            gap.len() as int + contents[k].len(),
        ) =~= contents[k]);
    }
}

/// Bringing back is verbatim: each content that has a span stands in the
/// restored bytes whole and unchanged, at `landing`, whatever the bytes
/// around the spans are.
pub proof fn lemma_restored_verbatim(
    b: Seq<u8>,
    spans: Seq<Span>,
    contents: Seq<Seq<u8>>,
    k: int,
)
    requires
        0 <= k < spans.len(),
        k < contents.len(),
        spans_ascend(spans),
        spans_inside(b, spans),
    ensures
        stitch(b, spans, contents, 0, 0).subrange(
            landing(spans, contents, k),
            landing(spans, contents, k) + contents[k].len(),
        ) == contents[k],
{
    lemma_stitch_holds(b, spans, contents, 0, 0, k);
}

/// Appends the bytes of `src` from `from` to `to`.
pub fn append_range(out: &mut Vec<u8>, src: &[u8], from: usize, to: usize)
    requires
        from <= to <= src@.len(),
    ensures
        final(out)@ == old(out)@ + src@.subrange(from as int, to as int),
{
    let mut i: usize = from;
    while i < to
        invariant
            from <= i <= to <= src@.len(),
            out@ == old(out)@ + src@.subrange(from as int, i as int),
        decreases to - i,
    {
        out.push(src[i]);
        proof {
            assert(src@.subrange(from as int, i + 1) =~= src@.subrange(from as int, i as int).push(
                src@[i as int],
            ));
        }
        i += 1;
    }
}

/// Replaces each span of the text by the content of the same index.
///
/// Spans without a content and contents without a span are left out; the
/// text between the spans stays as it is.
pub fn put_back(text: &str, spans: &Vec<Span>, contents: &Vec<String>) -> (r: String)
    requires
        spans_fit(encode_utf8(text@), spans@),
        spans_ascend(spans@),
    ensures
        r@ == restored(text@, spans@, texts(contents@)),
        encode_utf8(r@) == stitch(encode_utf8(text@), spans@, encoded(texts(contents@)), 0, 0),
{
    let bytes = text.as_bytes();
    let ghost b = encode_utf8(text@);
    let ghost cs = encoded(texts(contents@));
    proof {
        encode_utf8_valid_utf8(text@);
    }
    let mut out: Vec<u8> = Vec::new();
    let mut from: usize = 0;
    let mut k: usize = 0;
    while k < spans.len() && k < contents.len()
        invariant
            bytes@ == b,
            b == encode_utf8(text@),
            cs == encoded(texts(contents@)),
            valid_utf8(b),
            spans_fit(b, spans@),
            spans_ascend(spans@),
            k <= spans.len(),
            k <= contents.len(),
            on_boundary(b, from as int),
            forall|j: int| k <= j < spans.len() ==> from <= (#[trigger] spans@[j]).0,
            valid_utf8(out@),
            out@ + stitch(b, spans@, cs, k as int, from as int) == stitch(b, spans@, cs, 0, 0),
        decreases spans.len() - k,
    {
        let sp = spans[k];
        assert(span_fits(b, spans@[k as int]));
        let content = contents[k].as_str().as_bytes();
        let ghost before = out@;
        append_range(&mut out, bytes, from, sp.0);
        append_range(&mut out, content, 0, content.len());
        proof {
            let gap = b.subrange(from as int, sp.0 as int);
            let rest = stitch(b, spans@, cs, k + 1, sp.1 as int);
            assert(content@ == cs[k as int]);
            assert(content@.subrange(0, content@.len() as int) =~= content@);
            assert(out@ == before + gap + content@);
            assert(before + (gap + content@ + rest) =~= before + gap + content@ + rest);
            lemma_between_valid(b, from as int, sp.0 as int);
            encode_utf8_valid_utf8(contents@[k as int]@);
            valid_utf8_concat(before, gap);
            valid_utf8_concat(before + gap, content@);
            assert forall|j: int| k + 1 <= j < spans.len() implies sp.1 <= (
            #[trigger] spans@[j]).0 by {
                assert(spans@[k as int].1 <= spans@[j].0);
            }
        }
        from = sp.1;
        k += 1;
    }
    let ghost before = out@;
    append_range(&mut out, bytes, from, bytes.len());
    proof {
        lemma_between_valid(b, from as int, b.len() as int);
        valid_utf8_concat(before, b.subrange(from as int, b.len() as int));
    }
    into_text(out)
}

} // verus!
