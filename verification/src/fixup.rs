//! Repairing the nesting of paragraphs.
//!
//! The splitter wraps whatever stands between blank lines, blind to markup,
//! so a paragraph may start or end in the wrong place next to a block
//! element. A fixed sequence of find-and-replace passes puts that right. The
//! order matters: each pass counts on what the passes before it have done.

use vstd::prelude::*;
use vstd::string::*;

use crate::engine::{regex_replaced, replace_all};
use crate::grammar::{
    after_p_start_pattern, before_p_end_pattern, list_item_pattern, missing_end_pattern,
    missing_start_pattern, Patterns, EMPTY_PARAGRAPH,
};
use crate::trim::{only, trim_matches_in_place, trimmed};

verus! {

/// The text after the repair passes, in their order: empty paragraphs are
/// deleted; newlines at either end are trimmed; text that follows the start
/// tag of a block element and ends a paragraph is given a paragraph of its
/// own; a paragraph that the end tag of a block element cuts short is closed
/// before the tag; list items lose the paragraph around them; `<p>` before,
/// and `</p>` after, a tag of a block or preserved element is deleted.
pub open spec fn fixed(text: Seq<char>) -> Seq<char> {
    let without_empty = regex_replaced(EMPTY_PARAGRAPH@, text, ""@);
    let trimmed_text = trimmed(without_empty, only('\n'));
    let started = regex_replaced(missing_start_pattern(), trimmed_text, "$1$2<p>$3</p>"@);
    let ended = regex_replaced(missing_end_pattern(), started, "<p>$1</p>$2$3"@);
    let unwrapped = regex_replaced(list_item_pattern(), ended, "$1"@);
    let opened = regex_replaced(after_p_start_pattern(), unwrapped, "$1"@);
    regex_replaced(before_p_end_pattern(), opened, "$1"@)
}

/// Runs the repair passes over the text.
pub fn fix_structure(patterns: &Patterns, text: &str) -> (r: String)
    ensures
        r@ == fixed(text@),
{
    let mut text = replace_all(patterns.empty_paragraph(), text, "");
    trim_matches_in_place(&mut text, '\n');
    let text = replace_all(patterns.missing_start(), text.as_str(), "$1$2<p>$3</p>");
    let text = replace_all(patterns.missing_end(), text.as_str(), "<p>$1</p>$2$3");
    let text = replace_all(patterns.list_item(), text.as_str(), "$1");
    let text = replace_all(patterns.after_p_start(), text.as_str(), "$1");
    replace_all(patterns.before_p_end(), text.as_str(), "$1")
}

} // verus!
