//! The switches of the transformation.

use vstd::prelude::*;

verus! {

/// Options for [`auto_p`](crate::auto_p). All of them are off by default and
/// every combination is meaningful.
#[derive(Debug, Clone)]
pub struct Options {
    /// Whether to convert remaining line-breaks to `<br>` elements.
    pub br: bool,
    /// Whether to escape the inner HTML of `<pre>` elements.
    pub esc_pre: bool,
    /// Whether to remove one newline after `<pre>` and one before `</pre>`.
    pub remove_useless_newlines_in_pre: bool,
}

impl Options {
    /// Options with every switch off.
    pub fn new() -> (r: Self)
        ensures
            !r.br,
            !r.esc_pre,
            !r.remove_useless_newlines_in_pre,
    {
        Options { br: false, esc_pre: false, remove_useless_newlines_in_pre: false }
    }

    /// Sets whether remaining line-breaks become `<br>` elements.
    pub fn br(self, br: bool) -> (r: Self)
        ensures
            r == (Options { br, ..self }),
    {
        Options { br, ..self }
    }

    /// Sets whether the inner HTML of `<pre>` elements is escaped.
    pub fn esc_pre(self, esc_pre: bool) -> (r: Self)
        ensures
            r == (Options { esc_pre, ..self }),
    {
        Options { esc_pre, ..self }
    }

    /// Sets whether the newline next to the tags of a `<pre>` element is removed.
    pub fn remove_useless_newlines_in_pre(self, remove_useless_newlines_in_pre: bool) -> (r: Self)
        ensures
            r == (Options { remove_useless_newlines_in_pre, ..self }),
    {
        Options { remove_useless_newlines_in_pre, ..self }
    }
}

impl Default for Options {
    fn default() -> (r: Self)
        ensures
            !r.br,
            !r.esc_pre,
            !r.remove_useless_newlines_in_pre,
    {
        Options::new()
    }
}

} // verus!
