//! From what the engine reports to spans that the stages can use.

use vstd::prelude::*;
use vstd::utf8::*;

use crate::engine::spans_well_placed;
use crate::text::{lemma_boundary, span_fits, spans_ascend, spans_fit, Span};

verus! {

/// The spans that are there, in their order.
pub open spec fn present(found: Seq<Option<Span>>) -> Seq<Span>
    decreases found.len(),
{
    if found.len() == 0 {
        Seq::<Span>::empty()
    } else {
        match found.last() {
            Some(sp) => present(found.drop_last()).push(sp),
            None => present(found.drop_last()),
        }
    }
}

/// The spans that are there, in their order.
pub fn present_spans(found: &Vec<Option<Span>>) -> (r: Vec<Span>)
    ensures
        r@ == present(found@),
{
    let mut out: Vec<Span> = Vec::new();
    let mut i: usize = 0;
    while i < found.len()
        invariant
            i <= found.len(),
            out@ == present(found@.take(i as int)),
        decreases found.len() - i,
    {
        proof {
            assert(found@.take(i + 1).drop_last() =~= found@.take(i as int));
        }
        match found[i] {
            Some(sp) => {
                out.push(sp);
            },
            None => {},
        }
        i += 1;
    }
    proof {
        assert(found@.take(i as int) =~= found@);
    }
    out
}

/// Each span that is there is one that was found.
pub proof fn lemma_present_found(found: Seq<Option<Span>>)
    ensures
        forall|a: int|
            0 <= a < present(found).len() ==> exists|i: int|
                0 <= i < found.len() && found[i] == Some(#[trigger] present(found)[a]),
    decreases found.len(),
{
    if found.len() > 0 {
        let init = found.drop_last();
        lemma_present_found(init);
        assert forall|a: int| 0 <= a < present(found).len() implies exists|i: int|
            0 <= i < found.len() && found[i] == Some(#[trigger] present(found)[a]) by {
            if a < present(init).len() {
                let i = choose|i: int|
                    0 <= i < init.len() && init[i] == Some(present(init)[a]);
                assert(found[i] == Some(present(found)[a]));
            } else {
                assert(found[found.len() - 1] == Some(present(found)[a]));
            }
        }
    }
}

/// What the engine promises of its offsets carries over to the spans that are
/// there: they fit the text, in ascending order.
pub proof fn lemma_present_fits(text: Seq<char>, found: Seq<Option<Span>>)
    requires
        spans_well_placed(text, found),
    ensures
        spans_fit(encode_utf8(text), present(found)),
        spans_ascend(present(found)),
    decreases found.len(),
{
    let b = encode_utf8(text);
    encode_utf8_valid_utf8(text);
    if found.len() > 0 {
        let init = found.drop_last();
        assert(spans_well_placed(text, init)) by {
            assert forall|i: int| 0 <= i < init.len() implies init[i] == found[i] by {}
        }
        lemma_present_fits(text, init);
        lemma_present_found(init);
        match found.last() {
            Some(sp) => {
                assert(found[found.len() - 1] == Some(sp));
                lemma_boundary(b, sp.0 as int);
                lemma_boundary(b, sp.1 as int);
                assert(span_fits(b, sp));
                let p = present(found);
                assert forall|a: int, c: int| 0 <= a < c < p.len() implies (#[trigger] p[a]).1 <= (
                #[trigger] p[c]).0 by {
                    if c == p.len() - 1 {
                        let i = choose|i: int|
                            0 <= i < init.len() && init[i] == Some(present(init)[a]);
                        assert(found[i] == Some(p[a]));
                    } else {
                        assert(p[a] == present(init)[a]);
                        assert(p[c] == present(init)[c]);
                    }
                }
            },
            None => {},
        }
    }
}

} // verus!
