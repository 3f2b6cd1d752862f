//! Turns newline-formatted text into HTML paragraphs.
//!
//! Double line-breaks become `<p>` blocks and, when asked for, the remaining
//! single line-breaks become `<br>` markers. Markup that is already in the
//! text is respected: block elements are not wrapped, and what stands inside
//! `<pre>`, `<textarea>`, `<script>`, `<style>` and `<svg>` is carried through
//! untouched.
//!
//! The transformation is a pipeline of stages, each a function of the text
//! that the stage before it produced. Pattern matching is left to the `regex`
//! crate; the contracts name what the engine finds and pin down everything
//! that is done with it.

pub mod breaks;
pub mod engine;
pub mod escape;
pub mod fixup;
pub mod grammar;
pub mod newline;
pub mod options;
pub mod paragraph;
pub mod pre;
pub mod spans;
pub mod splice;
pub mod text;
pub mod trim;
pub mod vault;

pub use grammar::{Kind, Patterns};
pub use options::Options;

use vstd::prelude::*;
use vstd::string::*;
use vstd::utf8::*;

use breaks::{add_breaks, with_breaks};
use fixup::{fix_structure, fixed};
use newline::{
    normalize_newlines, normalized, shield_tags, show_newlines, tags_shielded, unshielded,
};
use paragraph::{wrap_paragraphs, wrapped};
use text::SENTINEL;
use grammar::table_accepted;
use trim::{lemma_trimmed_idempotent, trim_in_place, trimmed, white_space};
use newline::{attribute_spans, lemma_shield_round_trip, shield, unshield};
use pre::pre_contents;
use splice::stitch;
use text::{covered, encoded, lemma_ascii_swap_valid, spans_ascend, spans_fit, Span};
use vault::{
    brought_back, captured, element_spans, fill, lemma_vault_round_trip, preserved_back, restore,
    restore_all, stored, vault_all, vault_contents, vault_text, vaulted,
};

verus! {

/// The text between putting away and bringing back: line endings are
/// normalized, newlines inside tags are hidden, the pieces between blank
/// lines become paragraphs, the nesting of the paragraphs is repaired and, on
/// request, line breaks are added.
pub open spec fn formatted(text: Seq<char>, options: Options) -> Seq<char> {
    let repaired = fixed(wrapped(tags_shielded(normalized(text))));
    if options.br {
        with_breaks(repaired)
    } else {
        repaired
    }
}

/// What becomes of a trimmed text that is not empty: its protected contents
/// are put away, it is formatted, the contents are brought back, and the
/// hidden newlines are shown again.
pub open spec fn transformed(source: Seq<char>, options: Options) -> Seq<char> {
    unshielded(brought_back(formatted(vaulted(source), options), stored(source), options))
}

/// What `auto_p` makes of a text: nothing of a text that is whitespace only,
/// and otherwise what becomes of the trimmed text.
pub open spec fn auto_p_spec(input: Seq<char>, options: Options) -> Seq<char> {
    let source = trimmed(input, white_space());
    if source.len() == 0 {
        Seq::<char>::empty()
    } else {
        transformed(source, options)
    }
}

/// Formats a text whose protected contents have been put away.
pub fn reformat(patterns: &Patterns, text: &str, options: &Options) -> (r: String)
    ensures
        r@ == formatted(text@, *options),
{
    let text = normalize_newlines(patterns, text);
    let text = shield_tags(patterns, text.as_str());
    let text = wrap_paragraphs(text.as_str());
    let text = fix_structure(patterns, text.as_str());
    if options.br {
        add_breaks(patterns, text.as_str())
    } else {
        text
    }
}

/// Runs the pipeline on a text that has been trimmed. The result holds no
/// carriage return.
pub fn transform(patterns: &Patterns, source: &str, options: &Options) -> (r: String)
    ensures
        r@ == transformed(source@, *options),
        forall|i: int| 0 <= i < encode_utf8(r@).len() ==> encode_utf8(r@)[i] != SENTINEL,
{
    let (text, vault) = vault_all(patterns, source);
    let text = reformat(patterns, text.as_str(), options);
    let text = restore_all(patterns, text.as_str(), &vault, options);
    show_newlines(text.as_str())
}

/// Replaces double line-breaks with paragraph elements and, on request, the
/// remaining line-breaks with `<br>` elements, using a pattern table that the
/// caller has built.
///
/// A text that is whitespace only gives the empty text. The result holds no
/// carriage return.
pub fn auto_p_with(patterns: &Patterns, input: &str, options: Options) -> (r: String)
    ensures
        r@ == auto_p_spec(input@, options),
        trimmed(input@, white_space()).len() == 0 ==> r@.len() == 0,
        forall|i: int| 0 <= i < encode_utf8(r@).len() ==> encode_utf8(r@)[i] != SENTINEL,
{
    let mut source = input.to_owned();
    trim_in_place(&mut source);
    if source.as_str().is_empty() {
        return source;
    }
    transform(patterns, source.as_str(), &options)
}

/// The engine finds no element of `kind` in the text, neither before nor
/// after the contents of `lone` have been put away.
pub open spec fn none_of(kind: Kind, lone: Kind, text: Seq<char>) -> bool {
    kind != lone ==> {
        &&& element_spans(kind, text).len() == 0
        &&& element_spans(kind, vault_text(lone, text)).len() == 0
    }
}

/// What the engine has to answer for a text to pass through the pipeline
/// untouched: of the protected kinds it finds elements of `lone` only, in
/// spans that fit the text; it finds them again, in the same spans, once they
/// hold filler; and its passes over the filled text leave that text as it
/// is.
pub open spec fn passes_untouched(text: Seq<char>, lone: Kind, options: Options) -> bool {
    let spans = element_spans(lone, text);
    let hidden = vault_text(lone, text);
    &&& spans_fit(encode_utf8(text), spans)
    &&& spans_ascend(spans)
    &&& element_spans(lone, hidden) == spans
    &&& none_of(Kind::Pre, lone, text)
    &&& none_of(Kind::Textarea, lone, text)
    &&& none_of(Kind::Script, lone, text)
    &&& none_of(Kind::Style, lone, text)
    &&& none_of(Kind::Svg, lone, text)
    &&& formatted(hidden, options) == hidden
}

/// The text holds no carriage return.
pub open spec fn no_sentinel(text: Seq<char>) -> bool {
    forall|i: int| 0 <= i < encode_utf8(text).len() ==> encode_utf8(text)[i] != SENTINEL
}

/// Protected content comes through the whole pipeline as it went in. Given
/// a text without a carriage return in which the engine answers as
/// `passes_untouched` describes, the pipeline gives the text back, byte for
/// byte: nothing that this library does on its own account splits, wraps or
/// breaks what is protected. For `<pre>` this is so when the options leave
/// its content alone; for the other kinds it is so whatever the options.
pub proof fn lemma_protected_comes_back(text: Seq<char>, lone: Kind, options: Options)
    ensures
        passes_untouched(text, lone, options) && no_sentinel(text) && (lone == Kind::Pre
            ==> !options.esc_pre && !options.remove_useless_newlines_in_pre) ==> transformed(
            text,
            options,
        ) == text,
{
    if passes_untouched(text, lone, options) && no_sentinel(text) && (lone == Kind::Pre
        ==> !options.esc_pre && !options.remove_useless_newlines_in_pre) {
        let spans = element_spans(lone, text);
        let hidden = vault_text(lone, text);
        let contents = captured(text, spans);
        lemma_vault_round_trip(text, spans);
        lemma_nothing_found(text);
        lemma_nothing_found(hidden);
        assert(restore(lone, hidden, contents) == text);
        assert(pre_contents(contents, options) =~= contents || lone != Kind::Pre);
        match lone {
            Kind::Pre => {
                assert(vaulted(text) == hidden);
                assert(stored(text).pre.contents == contents);
                assert(preserved_back(hidden, stored(text)) == hidden);
            },
            Kind::Textarea => {
                assert(vaulted(text) == hidden);
                assert(stored(text).textarea.contents == contents);
                assert(preserved_back(hidden, stored(text)) == text);
            },
            Kind::Script => {
                assert(vaulted(text) == hidden);
                assert(stored(text).script.contents == contents);
                assert(preserved_back(hidden, stored(text)) == text);
            },
            Kind::Style => {
                assert(vaulted(text) == hidden);
                assert(stored(text).style.contents == contents);
                assert(preserved_back(hidden, stored(text)) == text);
            },
            Kind::Svg => {
                assert(vaulted(text) == hidden);
                assert(stored(text).svg.contents == contents);
                assert(preserved_back(hidden, stored(text)) == text);
            },
        }
        assert(brought_back(hidden, stored(text), options) == text);
        lemma_shield_round_trip(encode_utf8(text), Seq::<Span>::empty());
        assert(unshield(encode_utf8(text)) =~= encode_utf8(text));
        encode_utf8_decode_utf8(text);
    }
}

/// The engine finds no element of any protected kind in the text.
pub open spec fn nothing_protected(text: Seq<char>) -> bool {
    &&& element_spans(Kind::Pre, text).len() == 0
    &&& element_spans(Kind::Textarea, text).len() == 0
    &&& element_spans(Kind::Script, text).len() == 0
    &&& element_spans(Kind::Style, text).len() == 0
    &&& element_spans(Kind::Svg, text).len() == 0
}

/// What the engine has to answer for a text to keep the newlines inside its
/// tags and gain nothing else: it finds nothing protected, neither in the
/// text nor once the newlines in its tags are hidden; the line endings are
/// normal already; and after the newlines in the tags have been hidden, its
/// passes leave the text as it is.
pub open spec fn keeps_its_shape(text: Seq<char>, options: Options) -> bool {
    let hidden = tags_shielded(text);
    &&& nothing_protected(text)
    &&& nothing_protected(hidden)
    &&& normalized(text) == text
    &&& fixed(wrapped(hidden)) == hidden
    &&& options.br ==> with_breaks(hidden) == hidden
}

/// Shielding round-trips through the whole pipeline. Given a text without a
/// carriage return in which the engine answers as `keeps_its_shape`
/// describes, the pipeline gives the text back, byte for byte: every
/// newline that was hidden inside a tag is a newline again, in its place.
pub proof fn lemma_shielded_comes_back(text: Seq<char>, options: Options)
    ensures
        keeps_its_shape(text, options) && no_sentinel(text) ==> transformed(text, options)
            == text,
{
    if keeps_its_shape(text, options) && no_sentinel(text) {
        let hidden = tags_shielded(text);
        let b = encode_utf8(text);
        let spans = attribute_spans(text);
        lemma_nothing_found(text);
        lemma_nothing_found(hidden);
        assert(vaulted(text) == text);
        assert(formatted(text, options) == hidden);
        assert(preserved_back(hidden, stored(text)) == hidden);
        assert(brought_back(hidden, stored(text), options) == hidden);
        encode_utf8_valid_utf8(text);
        lemma_ascii_swap_valid(b, shield(b, spans));
        decode_utf8_encode_utf8(shield(b, spans));
        lemma_shield_round_trip(b, spans);
        encode_utf8_decode_utf8(text);
    }
}

/// Where the engine finds no element of a kind, nothing is put away of that
/// kind and nothing is brought back.
pub proof fn lemma_nothing_found(text: Seq<char>)
    ensures
        forall|kind: Kind|
            (#[trigger] element_spans(kind, text)).len() == 0 ==> {
                &&& vault_text(kind, text) == text
                &&& vault_contents(kind, text) == Seq::<Seq<char>>::empty()
                &&& forall|contents: Seq<Seq<char>>|
                    #[trigger] restore(kind, text, contents) == text
            },
{
    let b = encode_utf8(text);
    encode_utf8_decode_utf8(text);
    assert forall|kind: Kind| (#[trigger] element_spans(kind, text)).len() == 0 implies {
        &&& vault_text(kind, text) == text
        &&& vault_contents(kind, text) == Seq::<Seq<char>>::empty()
        &&& forall|contents: Seq<Seq<char>>| #[trigger] restore(kind, text, contents) == text
    } by {
        let spans = element_spans(kind, text);
        assert(fill(b, spans) =~= b) by {
            assert forall|i: int| 0 <= i < b.len() implies !covered(spans, i) by {}
        }
        assert(captured(text, spans) =~= Seq::<Seq<char>>::empty());
        assert forall|contents: Seq<Seq<char>>| #[trigger]
            restore(kind, text, contents) == text by {
            assert(stitch(b, spans, encoded(contents), 0, 0) =~= b);
        }
    }
}

/// The result for a text is the result for its trimmed form.
pub proof fn lemma_auto_p_of_trimmed(input: Seq<char>, options: Options)
    ensures
        auto_p_spec(trimmed(input, white_space()), options) == auto_p_spec(input, options),
{
    lemma_trimmed_idempotent(input, white_space());
}

/// Replaces double line-breaks with paragraph elements and, on request, the
/// remaining line-breaks with `<br>` elements.
///
/// The text is trimmed first, and a text that is whitespace only gives the
/// empty text. For any other text the pattern table is built for the call.
/// When the engine accepts the patterns, the result is the transformed text,
/// which holds no carriage return. A table that cannot be built is a defect
/// of the build and not of the text: the trimmed text is then returned as it
/// is.
pub fn auto_p(input: &str, options: Options) -> (r: String)
    ensures
        table_accepted() ==> r@ == auto_p_spec(input@, options),
        !table_accepted() ==> r@ == trimmed(input@, white_space()),
        trimmed(input@, white_space()).len() == 0 ==> r@.len() == 0,
        table_accepted() ==> forall|i: int|
            0 <= i < encode_utf8(r@).len() ==> encode_utf8(r@)[i] != SENTINEL,
{
    let mut source = input.to_owned();
    trim_in_place(&mut source);
    if source.as_str().is_empty() {
        return source;
    }
    match Patterns::new() {
        Some(patterns) => transform(&patterns, source.as_str(), &options),
        None => source,
    }
}

} // verus!
