//! What is done to the content of `<pre>` before it is brought back.
//!
//! On request, one newline right after the start tag and one right before
//! the end tag are dropped, and the content is escaped. A newline at the edge
//! is dropped only when it stands alone: next to another line end it is a
//! blank line that the author meant, and it stays.

use vstd::prelude::*;
use vstd::string::*;
use vstd::utf8::*;

use crate::escape::{encode_safe, escaped};
use crate::options::Options;
use crate::text::{lemma_ascii_boundary, lemma_boundary, texts, NEWLINE};

verus! {

/// The carriage return.
pub const RETURN: u8 = 0x0d;

/// A byte that ends a line.
pub open spec fn is_line_end(x: u8) -> bool {
    x == NEWLINE || x == RETURN
}

/// The length of the line end that `b` starts with: 2 for `\r\n`, 1 for `\n`
/// or `\r`, 0 where `b` starts with none.
pub open spec fn line_end_at_start(b: Seq<u8>) -> int {
    if b.len() >= 2 && b[0] == RETURN && b[1] == NEWLINE {
        2
    } else if b.len() >= 1 && is_line_end(b[0]) {
        1
    } else {
        0
    }
}

/// The length of the lone line end that `b` starts with: that of the line
/// end at its start where no further line end follows, 0 otherwise.
pub open spec fn lone_lead(b: Seq<u8>) -> int {
    let n = line_end_at_start(b);
    if b.len() == n || !is_line_end(b[n]) {
        n
    } else {
        0
    }
}

/// The length of the lone line end that `b` ends with. The end is read
/// backwards as the start is read forwards, so that here the line end of two
/// bytes is `\n\r`.
pub open spec fn lone_trail(b: Seq<u8>) -> int {
    lone_lead(b.reverse())
}

/// The bytes without a lone line end at the start and, of what is left,
/// without a lone line end at the end.
pub open spec fn trim_one(b: Seq<u8>) -> Seq<u8> {
    let rest = b.skip(lone_lead(b));
    rest.take(rest.len() - lone_trail(rest))
}

/// The text without a lone line end at either edge.
pub open spec fn trimmed_one(text: Seq<char>) -> Seq<char> {
    decode_utf8(trim_one(encode_utf8(text)))
}

/// The content of a `<pre>` element as it is brought back under the options.
pub open spec fn pre_content(content: Seq<char>, options: Options) -> Seq<char> {
    let kept = if options.remove_useless_newlines_in_pre {
        trimmed_one(content)
    } else {
        content
    };
    if options.esc_pre {
        escaped(kept)
    } else {
        kept
    }
}

/// The contents of `<pre>` elements as they are brought back.
pub open spec fn pre_contents(contents: Seq<Seq<char>>, options: Options) -> Seq<Seq<char>> {
    Seq::new(contents.len(), |k: int| pre_content(contents[k], options))
}

/// Whether the byte ends a line.
fn ends_line(x: u8) -> (r: bool)
    ensures
        r == is_line_end(x),
{
    x == NEWLINE || x == RETURN
}

/// The length of the lone line end at the start.
fn lead_len(b: &[u8]) -> (r: usize)
    ensures
        r == lone_lead(b@),
        r <= b@.len(),
{
    let len = b.len();
    let n: usize = if len >= 2 && b[0] == RETURN && b[1] == NEWLINE {
        2
    } else if len >= 1 && ends_line(b[0]) {
        1
    } else {
        0
    };
    if len == n || !ends_line(b[n]) {
        n
    } else {
        0
    }
}

/// The length of the lone line end at the end.
fn trail_len(b: &[u8]) -> (r: usize)
    ensures
        r == lone_trail(b@),
        r <= b@.len(),
{
    let len = b.len();
    proof {
        let mirror = b@.reverse();
        assert(mirror.len() == len);
        assert(forall|i: int| 0 <= i < len ==> mirror[i] == b@[len - 1 - i]);
    }
    let n: usize = if len >= 2 && b[len - 1] == RETURN && b[len - 2] == NEWLINE {
        2
    } else if len >= 1 && ends_line(b[len - 1]) {
        1
    } else {
        0
    };
    if len == n || !ends_line(b[len - 1 - n]) {
        n
    } else {
        0
    }
}

/// Drops a lone line end at the start of the text and a lone line end at the
/// end of what is left.
pub fn trim_newline_exactly_one(s: &str) -> (r: &str)
    ensures
        r@ == trimmed_one(s@),
        encode_utf8(r@) == trim_one(encode_utf8(s@)),
{
    let ghost b = encode_utf8(s@);
    let lead = lead_len(s.as_bytes());
    proof {
        encode_utf8_valid_utf8(s@);
        if lead >= 1 {
            lemma_ascii_boundary(b, 0);
        }
        if lead == 2 {
            lemma_ascii_boundary(b, 1);
        }
        lemma_boundary(b, lead as int);
    }
    let (_, rest) = s.split_at(lead);
    let ghost t = rest.spec_bytes();
    let tail = rest.as_bytes();
    let keep = tail.len() - trail_len(tail);
    let ghost trail = lone_trail(t);
    proof {
        assert(t =~= b.skip(lead as int));
        encode_utf8_valid_utf8(rest@);
        if trail >= 1 {
            lemma_ascii_boundary(t, t.len() - 1);
        }
        if trail == 2 {
            lemma_ascii_boundary(t, t.len() - 2);
        }
        lemma_boundary(t, keep as int);
    }
    let (kept, _) = rest.split_at(keep);
    proof {
        assert(kept.spec_bytes() =~= trim_one(b));
        encode_utf8_decode_utf8(kept@);
    }
    kept
}

/// Makes one content of a `<pre>` element ready to be brought back.
pub fn prepare_pre_content(content: &str, options: &Options) -> (r: String)
    ensures
        r@ == pre_content(content@, *options),
{
    let kept = if options.remove_useless_newlines_in_pre {
        trim_newline_exactly_one(content)
    } else {
        content
    };
    if options.esc_pre {
        encode_safe(kept)
    } else {
        kept.to_owned()
    }
}

/// Makes the contents of `<pre>` elements ready to be brought back.
pub fn prepare_pre(contents: &Vec<String>, options: &Options) -> (r: Vec<String>)
    ensures
        texts(r@) == pre_contents(texts(contents@), *options),
{
    let mut out: Vec<String> = Vec::new();
    let mut k: usize = 0;
    while k < contents.len()
        invariant
            k <= contents.len(),
            out@.len() == k,
            forall|j: int| 0 <= j < k ==> (#[trigger] out@[j])@ == pre_content(contents@[j]@, *options),
        decreases contents.len() - k,
    {
        out.push(prepare_pre_content(contents[k].as_str(), options));
        k += 1;
    }
    proof {
        assert(texts(out@) =~= pre_contents(texts(contents@), *options));
    }
    out
}

} // verus!
