//! Splitting into paragraphs.
//!
//! The text is cut at each blank line, that is at each pair of newlines, and
//! every piece, trimmed, becomes a paragraph of its own. A piece that trims
//! to nothing still becomes a paragraph, an empty one; the next stage removes
//! those.

use vstd::prelude::*;
use vstd::string::*;
use vstd::utf8::*;

use crate::text::{
    all_ascii, into_text, lemma_ascii_boundary, lemma_ascii_valid, lemma_boundary, NEWLINE,
};
use crate::trim::{trim, trimmed, white_space};
use crate::splice::append_range;

verus! {

/// `<p>`.
pub open spec fn p_open() -> Seq<u8> {
    seq![0x3cu8, 0x70u8, 0x3eu8]
}

/// `</p>` and a newline.
pub open spec fn p_close() -> Seq<u8> {
    seq![0x3cu8, 0x2fu8, 0x70u8, 0x3eu8, 0x0au8]
}

/// The offset of the first pair of newlines at or after `i`, or the length of
/// `b` where there is none.
pub open spec fn first_blank_from(b: Seq<u8>, i: nat) -> nat
    decreases b.len() - i,
{
    if i + 1 >= b.len() {
        b.len()
    } else if b[i as int] == NEWLINE && b[i as int + 1] == NEWLINE {
        i
    } else {
        first_blank_from(b, i + 1)
    }
}

/// The offset of the first pair of newlines, or the length of `b` where
/// there is none.
pub open spec fn first_blank(b: Seq<u8>) -> nat {
    first_blank_from(b, 0)
}

/// One piece as a paragraph: the piece, trimmed, between `<p>` and `</p>`
/// with a newline after it.
pub open spec fn paragraph(piece: Seq<u8>) -> Seq<u8> {
    p_open() + encode_utf8(trimmed(decode_utf8(piece), white_space())) + p_close()
}

/// The pieces between the blank lines of `b`, each as a paragraph, in a row.
pub open spec fn wrap(b: Seq<u8>) -> Seq<u8>
    decreases b.len(),
{
    let at = first_blank(b);
    if at + 2 > b.len() {
        paragraph(b)
    } else {
        paragraph(b.take(at as int)) + wrap(b.skip(at as int + 2))
    }
}

/// The text cut at its blank lines, each piece as a paragraph.
pub open spec fn wrapped(text: Seq<char>) -> Seq<char> {
    decode_utf8(wrap(encode_utf8(text)))
}

/// Where the search for a blank line ends: at a pair of newlines, or at the
/// end.
pub proof fn lemma_first_blank(b: Seq<u8>, i: nat)
    requires
        i <= b.len(),
    ensures
        i <= first_blank_from(b, i) <= b.len(),
        first_blank_from(b, i) < b.len() ==> {
            &&& first_blank_from(b, i) + 1 < b.len()
            &&& b[first_blank_from(b, i) as int] == NEWLINE
            &&& b[first_blank_from(b, i) as int + 1] == NEWLINE
        },
    decreases b.len() - i,
{
    if i + 1 < b.len() && !(b[i as int] == NEWLINE && b[i as int + 1] == NEWLINE) {
        lemma_first_blank(b, i + 1);
    }
}

/// The offset of the first pair of newlines, or the length where there is
/// none.
pub fn find_blank(b: &[u8]) -> (r: usize)
    ensures
        r == first_blank(b@),
{
    let mut i: usize = 0;
    while i < b.len() && b.len() - i >= 2
        invariant
            i <= b.len(),
            first_blank_from(b@, i as nat) == first_blank(b@),
        decreases b.len() - i,
    {
        if b[i] == NEWLINE && b[i + 1] == NEWLINE {
            return i;
        }
        i += 1;
    }
    b.len()
}

/// Appends one piece as a paragraph.
fn push_paragraph(out: &mut Vec<u8>, piece: &str)
    requires
        valid_utf8(old(out)@),
    ensures
        final(out)@ == old(out)@ + paragraph(encode_utf8(piece@)),
        valid_utf8(final(out)@),
{
    let inner = trim(piece);
    let bytes = inner.as_bytes();
    let ghost before = out@;
    out.push(0x3c);
    out.push(0x70);
    out.push(0x3e);
    append_range(out, bytes, 0, bytes.len());
    out.push(0x3c);
    out.push(0x2f);
    out.push(0x70);
    out.push(0x3e);
    out.push(NEWLINE);
    proof {
        encode_utf8_decode_utf8(piece@);
        encode_utf8_valid_utf8(inner@);
        assert(bytes@.subrange(0, bytes@.len() as int) =~= bytes@);
        assert(out@ =~= before + paragraph(encode_utf8(piece@)));
        assert(all_ascii(p_open()));
        assert(all_ascii(p_close()));
        lemma_ascii_valid(p_open());
        lemma_ascii_valid(p_close());
        valid_utf8_concat(p_open(), bytes@);
        valid_utf8_concat(p_open() + bytes@, p_close());
        valid_utf8_concat(before, paragraph(encode_utf8(piece@)));
    }
}

/// Cuts the text at its blank lines and makes each piece a paragraph.
pub fn wrap_paragraphs(text: &str) -> (r: String)
    ensures
        r@ == wrapped(text@),
        encode_utf8(r@) == wrap(encode_utf8(text@)),
{
    let mut out: Vec<u8> = Vec::new();
    let mut rest: &str = text;
    proof {
        assert(valid_utf8(out@)) by {
            reveal_with_fuel(valid_utf8, 1);
        }
        assert(out@ + wrap(encode_utf8(rest@)) =~= wrap(encode_utf8(text@)));
    }
    loop
        invariant_except_break
            valid_utf8(out@),
            out@ + wrap(encode_utf8(rest@)) == wrap(encode_utf8(text@)),
        ensures
            valid_utf8(out@),
            out@ == wrap(encode_utf8(text@)),
        decreases encode_utf8(rest@).len(),
    {
        let bytes = rest.as_bytes();
        let ghost b = encode_utf8(rest@);
        let ghost before = out@;
        let at = find_blank(bytes);
        proof {
            lemma_first_blank(b, 0);
            encode_utf8_valid_utf8(rest@);
        }
        if bytes.len() - at < 2 {
            push_paragraph(&mut out, rest);
            break ;
        }
        proof {
            lemma_ascii_boundary(b, at as int);
            lemma_boundary(b, at as int);
        }
        let (piece, tail) = rest.split_at(at);
        proof {
            let t = tail.spec_bytes();
            encode_utf8_valid_utf8(tail@);
            assert(t[0] == b[at as int]);
            assert(t[1] == b[at + 1]);
            lemma_ascii_boundary(t, 1);
            lemma_boundary(t, 2);
        }
        let (_, next) = tail.split_at(2);
        push_paragraph(&mut out, piece);
        proof {
            assert(piece.spec_bytes() =~= b.take(at as int));
            assert(next.spec_bytes() =~= b.skip(at + 2));
            assert(before + (paragraph(b.take(at as int)) + wrap(b.skip(at + 2))) =~= before
                + paragraph(b.take(at as int)) + wrap(b.skip(at + 2)));
        }
        rest = next;
    }
    into_text(out)
}

} // verus!
