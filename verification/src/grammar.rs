//! Tag classification and the pattern table.
//!
//! Which tag names count as block elements, which elements have their content
//! protected, how the attribute list of a tag is bounded, and one compiled
//! pattern for each matching need of the pipeline. The table is built once
//! and only read afterwards.

use regex::Regex;
use vstd::prelude::*;
use vstd::string::*;

use crate::engine::{compile, regex_accepts, regex_plain, regex_source};

verus! {

/// The names of the block elements other than `p`, as a pattern alternation.
pub const BLOCK_TAG_NAMES_EXCEPT_P: &'static str =
    "table|thead|tfoot|caption|col|colgroup|tbody|tr|td|th|div|dl|dd|dt|ul|ol|li|pre|form|map|area|blockquote|address|math|h[1-6]|hr|fieldset|legend|section|article|aside|hgroup|header|footer|nav|figure|figcaption|details|menu|summary";

/// The names of the elements whose content passes through unmodified and
/// which are no block elements, as a pattern alternation.
pub const PRESERVED_TAG_NAMES: &'static str = "textarea|script|style|svg";

/// The attribute list of a tag: any number of attributes, each one whitespace,
/// a name, and optionally `=` with an empty, bare or quoted value; then
/// optional whitespace.
pub const ATTRIBUTES: &'static str =
    "(?:\\s+[^<>\\s=]+(?:=(?:|(?:[^'\"])|(?:[^'\"][^\\s<>]*[^'\"])|(?:\"[^\"]*\")|(?:'[^']*')))?)*\\s*";

/// `\r\n` or a lone `\r`.
pub const OTHER_NEWLINE: &'static str = "(?:\\r\\n|\\r)";

/// A paragraph with nothing in it.
pub const EMPTY_PARAGRAPH: &'static str = "<p></p>";

/// A line-break element in any of its spellings.
pub const BR_ELEMENT: &'static str = "(?i)<br\\s*/?>";

/// The kinds of element whose inner content is kept away from the pipeline,
/// in the order in which they are put away.
#[derive(Clone, Copy, Debug, PartialEq, Eq, Structural)]
pub enum Kind {
    Pre,
    Textarea,
    Script,
    Style,
    Svg,
}

impl Kind {
    /// The tag name of the kind.
    pub open spec fn name(self) -> Seq<char> {
        match self {
            Kind::Pre => "pre"@,
            Kind::Textarea => "textarea"@,
            Kind::Script => "script"@,
            Kind::Style => "style"@,
            Kind::Svg => "svg"@,
        }
    }

    /// The tag name of the kind.
    pub fn tag_name(self) -> (r: &'static str)
        ensures
            r@ == self.name(),
    {
        match self {
            Kind::Pre => "pre",
            Kind::Textarea => "textarea",
            Kind::Script => "script",
            Kind::Style => "style",
            Kind::Svg => "svg",
        }
    }
}

/// The names of all block elements.
pub open spec fn block_tag_names() -> Seq<char> {
    BLOCK_TAG_NAMES_EXCEPT_P@ + "|p"@
}

/// The names of all block elements and of the preserved elements.
pub open spec fn block_and_preserved_tag_names() -> Seq<char> {
    block_tag_names() + "|"@ + PRESERVED_TAG_NAMES@
}

/// A whole element of the given name: start tag, content as short as
/// possible, end tag. The content is capture group 2.
pub open spec fn element_pattern(name: Seq<char>) -> Seq<char> {
    "(?i)(<"@ + name + ATTRIBUTES@ + ">)([\\s\\S]*?)(</"@ + name + "\\s*>)"@
}

/// Any start or end tag. Its attribute list is capture group 1.
pub open spec fn tag_pattern() -> Seq<char> {
    "</?[^\\s<]+("@ + ATTRIBUTES@ + ")/?>"@
}

/// The start tag of a block element other than `p`, whitespace, text without
/// `<`, and `</p>`.
pub open spec fn missing_start_pattern() -> Seq<char> {
    "(?i)(<(?i:"@ + BLOCK_TAG_NAMES_EXCEPT_P@ + ")"@ + ATTRIBUTES@ + ">)(\\s*)([^<]+)</p>"@
}

/// `<p>`, text without `<`, whitespace, and the end tag of a block element
/// other than `p`.
pub open spec fn missing_end_pattern() -> Seq<char> {
    "(?i)<p>([^<]+)(\\s*)(</(?i:"@ + BLOCK_TAG_NAMES_EXCEPT_P@ + ")\\s*>)"@
}

/// `<p>` directly before a list item, up to the last `</p>`.
pub open spec fn list_item_pattern() -> Seq<char> {
    "(?i)<p>(<li"@ + ATTRIBUTES@ + ">[\\s\\S]*)</p>"@
}

/// `<p>` directly before a tag of a block or preserved element.
pub open spec fn after_p_start_pattern() -> Seq<char> {
    "(?i)<p>(</?(?i:"@ + block_and_preserved_tag_names() + ")"@ + ATTRIBUTES@ + ">)"@
}

/// `</p>` directly after a tag of a block or preserved element.
pub open spec fn before_p_end_pattern() -> Seq<char> {
    "(?i)(</?(?i:"@ + block_and_preserved_tag_names() + ")"@ + ATTRIBUTES@ + ">)</p>"@
}

/// A line break directly after a tag of a block element.
pub open spec fn br_after_block_pattern() -> Seq<char> {
    "(?i)(</?(?i:"@ + block_tag_names() + ")"@ + ATTRIBUTES@ + ">)<br>\\n"@
}

/// A line break directly before a tag of a block element.
pub open spec fn br_before_block_pattern() -> Seq<char> {
    "(?i)<br>\\n(</?(?i:"@ + block_tag_names() + ")"@ + ATTRIBUTES@ + ">)"@
}

/// The text of `block_tag_names`.
fn block_tag_names_text() -> (r: String)
    ensures
        r@ == block_tag_names(),
{
    let mut p = String::from_str(BLOCK_TAG_NAMES_EXCEPT_P);
    p.append("|p");
    p
}

/// The text of `block_and_preserved_tag_names`.
fn block_and_preserved_tag_names_text() -> (r: String)
    ensures
        r@ == block_and_preserved_tag_names(),
{
    let mut p = block_tag_names_text();
    p.append("|");
    p.append(PRESERVED_TAG_NAMES);
    p
}

/// The text of the pattern for a whole element of the kind.
pub fn element_pattern_text(kind: Kind) -> (r: String)
    ensures
        r@ == element_pattern(kind.name()),
{
    let name = kind.tag_name();
    let mut p = String::from_str("(?i)(<");
    p.append(name);
    p.append(ATTRIBUTES);
    p.append(">)([\\s\\S]*?)(</");
    p.append(name);
    p.append("\\s*>)");
    p
}

/// The text of the pattern for any tag.
pub fn tag_pattern_text() -> (r: String)
    ensures
        r@ == tag_pattern(),
{
    let mut p = String::from_str("</?[^\\s<]+(");
    p.append(ATTRIBUTES);
    p.append(")/?>");
    p
}

/// The text of the pattern for a paragraph end without a start.
pub fn missing_start_pattern_text() -> (r: String)
    ensures
        r@ == missing_start_pattern(),
{
    let mut p = String::from_str("(?i)(<(?i:");
    p.append(BLOCK_TAG_NAMES_EXCEPT_P);
    p.append(")");
    p.append(ATTRIBUTES);
    p.append(">)(\\s*)([^<]+)</p>");
    p
}

/// The text of the pattern for a paragraph start without an end.
pub fn missing_end_pattern_text() -> (r: String)
    ensures
        r@ == missing_end_pattern(),
{
    let mut p = String::from_str("(?i)<p>([^<]+)(\\s*)(</(?i:");
    p.append(BLOCK_TAG_NAMES_EXCEPT_P);
    p.append(")\\s*>)");
    p
}

/// The text of the pattern for list items wrapped in a paragraph.
pub fn list_item_pattern_text() -> (r: String)
    ensures
        r@ == list_item_pattern(),
{
    let mut p = String::from_str("(?i)<p>(<li");
    p.append(ATTRIBUTES);
    p.append(">[\\s\\S]*)</p>");
    p
}

/// The text of the pattern for `<p>` before a block or preserved tag.
pub fn after_p_start_pattern_text() -> (r: String)
    ensures
        r@ == after_p_start_pattern(),
{
    let names = block_and_preserved_tag_names_text();
    let mut p = String::from_str("(?i)<p>(</?(?i:");
    p.append(names.as_str());
    p.append(")");
    p.append(ATTRIBUTES);
    p.append(">)");
    p
}

/// The text of the pattern for `</p>` after a block or preserved tag.
pub fn before_p_end_pattern_text() -> (r: String)
    ensures
        r@ == before_p_end_pattern(),
{
    let names = block_and_preserved_tag_names_text();
    let mut p = String::from_str("(?i)(</?(?i:");
    p.append(names.as_str());
    p.append(")");
    p.append(ATTRIBUTES);
    p.append(">)</p>");
    p
}

/// The text of the pattern for a line break after a block tag.
pub fn br_after_block_pattern_text() -> (r: String)
    ensures
        r@ == br_after_block_pattern(),
{
    let names = block_tag_names_text();
    let mut p = String::from_str("(?i)(</?(?i:");
    p.append(names.as_str());
    p.append(")");
    p.append(ATTRIBUTES);
    p.append(">)<br>\\n");
    p
}

/// The text of the pattern for a line break before a block tag.
pub fn br_before_block_pattern_text() -> (r: String)
    ensures
        r@ == br_before_block_pattern(),
{
    let names = block_tag_names_text();
    let mut p = String::from_str("(?i)<br>\\n(</?(?i:");
    p.append(names.as_str());
    p.append(")");
    p.append(ATTRIBUTES);
    p.append(">)");
    p
}

/// What the engine made of the patterns of the table, entry by entry: the
/// compiled pattern, or `None` where the engine turned the pattern down.
pub(crate) struct Compiled {
    pub pre: Option<Regex>,
    pub textarea: Option<Regex>,
    pub script: Option<Regex>,
    pub style: Option<Regex>,
    pub svg: Option<Regex>,
    pub tag: Option<Regex>,
    pub other_newline: Option<Regex>,
    pub empty_paragraph: Option<Regex>,
    pub missing_start: Option<Regex>,
    pub missing_end: Option<Regex>,
    pub list_item: Option<Regex>,
    pub after_p_start: Option<Regex>,
    pub before_p_end: Option<Regex>,
    pub br_element: Option<Regex>,
    pub br_after_block: Option<Regex>,
    pub br_before_block: Option<Regex>,
}

/// The engine accepts each of the sixteen patterns of the table.
pub open spec fn table_accepted() -> bool {
    &&& regex_accepts(element_pattern(Kind::Pre.name()))
    &&& regex_accepts(element_pattern(Kind::Textarea.name()))
    &&& regex_accepts(element_pattern(Kind::Script.name()))
    &&& regex_accepts(element_pattern(Kind::Style.name()))
    &&& regex_accepts(element_pattern(Kind::Svg.name()))
    &&& regex_accepts(tag_pattern())
    &&& regex_accepts(OTHER_NEWLINE@)
    &&& regex_accepts(EMPTY_PARAGRAPH@)
    &&& regex_accepts(missing_start_pattern())
    &&& regex_accepts(missing_end_pattern())
    &&& regex_accepts(list_item_pattern())
    &&& regex_accepts(after_p_start_pattern())
    &&& regex_accepts(before_p_end_pattern())
    &&& regex_accepts(BR_ELEMENT@)
    &&& regex_accepts(br_after_block_pattern())
    &&& regex_accepts(br_before_block_pattern())
}

/// The entry is missing, or it is the plain expression of `pattern`.
pub(crate) open spec fn made_from(entry: Option<Regex>, pattern: Seq<char>) -> bool {
    entry matches Some(re) ==> regex_plain(re) && regex_source(re) == pattern
}

impl Compiled {
    /// No entry is missing.
    pub(crate) open spec fn complete(self) -> bool {
        &&& self.pre is Some
        &&& self.textarea is Some
        &&& self.script is Some
        &&& self.style is Some
        &&& self.svg is Some
        &&& self.tag is Some
        &&& self.other_newline is Some
        &&& self.empty_paragraph is Some
        &&& self.missing_start is Some
        &&& self.missing_end is Some
        &&& self.list_item is Some
        &&& self.after_p_start is Some
        &&& self.before_p_end is Some
        &&& self.br_element is Some
        &&& self.br_after_block is Some
        &&& self.br_before_block is Some
    }

    /// Each entry that is there was compiled from the pattern that it is
    /// named after.
    pub(crate) open spec fn faithful(self) -> bool {
        &&& made_from(self.pre, element_pattern(Kind::Pre.name()))
        &&& made_from(self.textarea, element_pattern(Kind::Textarea.name()))
        &&& made_from(self.script, element_pattern(Kind::Script.name()))
        &&& made_from(self.style, element_pattern(Kind::Style.name()))
        &&& made_from(self.svg, element_pattern(Kind::Svg.name()))
        &&& made_from(self.tag, tag_pattern())
        &&& made_from(self.other_newline, OTHER_NEWLINE@)
        &&& made_from(self.empty_paragraph, EMPTY_PARAGRAPH@)
        &&& made_from(self.missing_start, missing_start_pattern())
        &&& made_from(self.missing_end, missing_end_pattern())
        &&& made_from(self.list_item, list_item_pattern())
        &&& made_from(self.after_p_start, after_p_start_pattern())
        &&& made_from(self.before_p_end, before_p_end_pattern())
        &&& made_from(self.br_element, BR_ELEMENT@)
        &&& made_from(self.br_after_block, br_after_block_pattern())
        &&& made_from(self.br_before_block, br_before_block_pattern())
    }
}

/// The compiled patterns of the pipeline.
pub struct Patterns {
    pre: Regex,
    textarea: Regex,
    script: Regex,
    style: Regex,
    svg: Regex,
    tag: Regex,
    other_newline: Regex,
    empty_paragraph: Regex,
    missing_start: Regex,
    missing_end: Regex,
    list_item: Regex,
    after_p_start: Regex,
    before_p_end: Regex,
    br_element: Regex,
    br_after_block: Regex,
    br_before_block: Regex,
}

impl Patterns {
    /// The entries of the table.
    pub(crate) closed spec fn entries(self) -> Compiled {
        Compiled {
            pre: Some(self.pre),
            textarea: Some(self.textarea),
            script: Some(self.script),
            style: Some(self.style),
            svg: Some(self.svg),
            tag: Some(self.tag),
            other_newline: Some(self.other_newline),
            empty_paragraph: Some(self.empty_paragraph),
            missing_start: Some(self.missing_start),
            missing_end: Some(self.missing_end),
            list_item: Some(self.list_item),
            after_p_start: Some(self.after_p_start),
            before_p_end: Some(self.before_p_end),
            br_element: Some(self.br_element),
            br_after_block: Some(self.br_after_block),
            br_before_block: Some(self.br_before_block),
        }
    }

    /// Each entry of the table is the plain expression of the pattern it is
    /// named after. This holds of every table there is: a table is made by
    /// `Patterns::new` and in no other way.
    #[verifier::type_invariant]
    pub closed spec fn wf(self) -> bool {
        self.entries().faithful()
    }

    /// Makes the table of what the engine compiled. There is a table exactly
    /// when no entry is missing, and its entries are then the ones given.
    pub(crate) fn assemble(compiled: Compiled) -> (r: Option<Patterns>)
        requires
            compiled.faithful(),
        ensures
            r is Some <==> compiled.complete(),
            r matches Some(patterns) ==> patterns.entries() == compiled && patterns.wf(),
    {
        let pre = compiled.pre?;
        let textarea = compiled.textarea?;
        let script = compiled.script?;
        let style = compiled.style?;
        let svg = compiled.svg?;
        let tag = compiled.tag?;
        let other_newline = compiled.other_newline?;
        let empty_paragraph = compiled.empty_paragraph?;
        let missing_start = compiled.missing_start?;
        let missing_end = compiled.missing_end?;
        let list_item = compiled.list_item?;
        let after_p_start = compiled.after_p_start?;
        let before_p_end = compiled.before_p_end?;
        let br_element = compiled.br_element?;
        let br_after_block = compiled.br_after_block?;
        let br_before_block = compiled.br_before_block?;
        Some(
            Patterns {
                pre,
                textarea,
                script,
                style,
                svg,
                tag,
                other_newline,
                empty_paragraph,
                missing_start,
                missing_end,
                list_item,
                after_p_start,
                before_p_end,
                br_element,
                br_after_block,
                br_before_block,
            },
        )
    }

    /// Compiles the table: each pattern text is handed to the engine, and the
    /// table is assembled of what comes back. There is a table exactly when
    /// the engine accepts all sixteen patterns.
    pub fn new() -> (r: Option<Patterns>)
        ensures
            r is Some <==> table_accepted(),
            r matches Some(patterns) ==> patterns.wf(),
    {
        let compiled = Compiled {
            pre: compile_element(Kind::Pre),
            textarea: compile_element(Kind::Textarea),
            script: compile_element(Kind::Script),
            style: compile_element(Kind::Style),
            svg: compile_element(Kind::Svg),
            tag: compile(tag_pattern_text().as_str()),
            other_newline: compile(OTHER_NEWLINE),
            empty_paragraph: compile(EMPTY_PARAGRAPH),
            missing_start: compile(missing_start_pattern_text().as_str()),
            missing_end: compile(missing_end_pattern_text().as_str()),
            list_item: compile(list_item_pattern_text().as_str()),
            after_p_start: compile(after_p_start_pattern_text().as_str()),
            before_p_end: compile(before_p_end_pattern_text().as_str()),
            br_element: compile(BR_ELEMENT),
            br_after_block: compile(br_after_block_pattern_text().as_str()),
            br_before_block: compile(br_before_block_pattern_text().as_str()),
        };
        Patterns::assemble(compiled)
    }

    /// The pattern for a whole element of the kind.
    pub fn element(&self, kind: Kind) -> (r: &Regex)
        ensures
            regex_plain(*r),
            regex_source(*r) == element_pattern(kind.name()),
    {
        proof {
            use_type_invariant(self);
        }
        match kind {
            Kind::Pre => &self.pre,
            Kind::Textarea => &self.textarea,
            Kind::Script => &self.script,
            Kind::Style => &self.style,
            Kind::Svg => &self.svg,
        }
    }

    /// The pattern for any tag.
    pub fn tag(&self) -> (r: &Regex)
        ensures
            regex_plain(*r),
            regex_source(*r) == tag_pattern(),
    {
        proof {
            use_type_invariant(self);
        }
        &self.tag
    }

    /// The pattern for line endings other than `\n`.
    pub fn other_newline(&self) -> (r: &Regex)
        ensures
            regex_plain(*r),
            regex_source(*r) == OTHER_NEWLINE@,
    {
        proof {
            use_type_invariant(self);
        }
        &self.other_newline
    }

    /// The pattern for an empty paragraph.
    pub fn empty_paragraph(&self) -> (r: &Regex)
        ensures
            regex_plain(*r),
            regex_source(*r) == EMPTY_PARAGRAPH@,
    {
        proof {
            use_type_invariant(self);
        }
        &self.empty_paragraph
    }

    /// The pattern for text in a block element that ends a paragraph without
    /// having started one.
    pub fn missing_start(&self) -> (r: &Regex)
        ensures
            regex_plain(*r),
            regex_source(*r) == missing_start_pattern(),
    {
        proof {
            use_type_invariant(self);
        }
        &self.missing_start
    }

    /// The pattern for a paragraph that a block element's end tag cuts short.
    pub fn missing_end(&self) -> (r: &Regex)
        ensures
            regex_plain(*r),
            regex_source(*r) == missing_end_pattern(),
    {
        proof {
            use_type_invariant(self);
        }
        &self.missing_end
    }

    /// The pattern for list items wrapped in a paragraph.
    pub fn list_item(&self) -> (r: &Regex)
        ensures
            regex_plain(*r),
            regex_source(*r) == list_item_pattern(),
    {
        proof {
            use_type_invariant(self);
        }
        &self.list_item
    }

    /// The pattern for `<p>` before a block or preserved tag.
    pub fn after_p_start(&self) -> (r: &Regex)
        ensures
            regex_plain(*r),
            regex_source(*r) == after_p_start_pattern(),
    {
        proof {
            use_type_invariant(self);
        }
        &self.after_p_start
    }

    /// The pattern for `</p>` after a block or preserved tag.
    pub fn before_p_end(&self) -> (r: &Regex)
        ensures
            regex_plain(*r),
            regex_source(*r) == before_p_end_pattern(),
    {
        proof {
            use_type_invariant(self);
        }
        &self.before_p_end
    }

    /// The pattern for a line-break element.
    pub fn br_element(&self) -> (r: &Regex)
        ensures
            regex_plain(*r),
            regex_source(*r) == BR_ELEMENT@,
    {
        proof {
            use_type_invariant(self);
        }
        &self.br_element
    }

    /// The pattern for a line break after a block tag.
    pub fn br_after_block(&self) -> (r: &Regex)
        ensures
            regex_plain(*r),
            regex_source(*r) == br_after_block_pattern(),
    {
        proof {
            use_type_invariant(self);
        }
        &self.br_after_block
    }

    /// The pattern for a line break before a block tag.
    pub fn br_before_block(&self) -> (r: &Regex)
        ensures
            regex_plain(*r),
            regex_source(*r) == br_before_block_pattern(),
    {
        proof {
            use_type_invariant(self);
        }
        &self.br_before_block
    }
}

/// Hands the pattern for a whole element of the kind to the engine, and
/// returns what comes back: the compiled pattern exactly when the engine
/// accepts it.
fn compile_element(kind: Kind) -> (r: Option<Regex>)
    ensures
        r is Some <==> regex_accepts(element_pattern(kind.name())),
        r matches Some(re) ==> regex_plain(re) && regex_source(re) == element_pattern(
            kind.name(),
        ),
{
    compile(element_pattern_text(kind).as_str())
}

} // verus!
