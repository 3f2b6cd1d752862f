use html_auto_p::{auto_p, auto_p_with, Options, Patterns};

#[test]
fn a_single_line_becomes_one_paragraph() {
    assert_eq!("<p>Hello world!</p>", auto_p("Hello world!", Options::new()));
}

#[test]
fn a_newline_gets_a_break_when_asked() {
    assert_eq!("<p>Line 1<br>\nLine 2</p>", auto_p("Line 1\nLine 2", Options::new().br(true)));
}

#[test]
fn a_newline_stays_bare_without_the_option() {
    assert_eq!("<p>Line 1\nLine 2</p>", auto_p("Line 1\nLine 2", Options::new()));
}

#[test]
fn an_existing_break_is_not_doubled() {
    assert_eq!(
        "<p>Line 1<br>\nLine 2</p>",
        auto_p("Line 1<br>\nLine 2", Options::new().br(true))
    );
}

#[test]
fn other_spellings_of_a_break_are_normalized() {
    assert_eq!(
        "<p>a<br>\nb<br>\nc<br>\nd</p>",
        auto_p("a<BR>\nb<br/>\nc<br  />\nd", Options::new().br(true))
    );
}

#[test]
fn a_blank_line_separates_paragraphs() {
    assert_eq!(
        "<p>Paragraph 1</p>\n<p>Paragraph 2</p>",
        auto_p("Paragraph 1\n\nParagraph 2", Options::new())
    );
}

#[test]
fn three_newlines_separate_like_two() {
    assert_eq!(
        "<p>Paragraph 1</p>\n<p>Paragraph 2</p>",
        auto_p("Paragraph 1\n\n\nParagraph 2", Options::new())
    );
}

#[test]
fn an_empty_piece_between_blank_lines_leaves_no_paragraph() {
    assert_eq!(
        "<p>Paragraph 1</p>\n\n<p>Paragraph 2</p>",
        auto_p("Paragraph 1\n\n\n\nParagraph 2", Options::new())
    );
}

#[test]
fn pre_content_is_left_alone() {
    assert_eq!(
        "<pre>Line 1<br>\nLine 2</pre>",
        auto_p("<pre>Line 1<br>\nLine 2</pre>", Options::new().br(true))
    );
}

#[test]
fn pre_content_is_escaped_when_asked() {
    assert_eq!(
        "<pre>Line 1&lt;br&gt;\nLine 2</pre>",
        auto_p("<pre>Line 1<br>\nLine 2</pre>", Options::new().br(true).esc_pre(true))
    );
}

#[test]
fn lone_newlines_at_the_edges_of_pre_are_removed_when_asked() {
    assert_eq!(
        "<pre>Line 1\nLine 2</pre>",
        auto_p(
            "<pre>\nLine 1\nLine 2\n</pre>",
            Options::new().remove_useless_newlines_in_pre(true)
        )
    );
}

#[test]
fn blank_lines_at_the_edges_of_pre_stay() {
    assert_eq!(
        "<pre>\n\n1\n\n</pre>",
        auto_p("<pre>\n\n1\n\n</pre>", Options::new().remove_useless_newlines_in_pre(true))
    );
}

#[test]
fn trimming_and_escaping_of_pre_combine() {
    assert_eq!(
        "<pre>&lt;b&gt;1 &amp; 2&lt;&#x2F;b&gt;</pre>",
        auto_p(
            "<pre>\n<b>1 & 2</b>\n</pre>",
            Options::new().esc_pre(true).remove_useless_newlines_in_pre(true)
        )
    );
}

#[test]
fn the_input_is_trimmed_first() {
    assert_eq!("<p>x</p>", auto_p("  \n\t x \n\n ", Options::new()));
}

#[test]
fn whitespace_of_any_script_gives_the_empty_text() {
    for options in [
        Options::new(),
        Options::new().br(true),
        Options::new().esc_pre(true).remove_useless_newlines_in_pre(true),
    ] {
        assert_eq!("", auto_p("", options.clone()));
        assert_eq!("", auto_p(" \t\r\n\u{b}\u{c}", options.clone()));
        assert_eq!("", auto_p("\u{85}\u{a0}\u{1680}\u{2000}\u{200a}", options.clone()));
        assert_eq!("", auto_p("\u{2028}\u{2029}\u{202f}\u{205f}\u{3000}", options));
    }
}

#[test]
fn a_zero_width_space_is_no_whitespace() {
    assert_eq!("<p>\u{200b}</p>", auto_p("\u{200b}", Options::new()));
}

#[test]
fn text_beyond_ascii_passes_through() {
    assert_eq!(
        "<p>Grüße<br>\n日本語</p>\n<p>😀</p>",
        auto_p("Grüße\n日本語\n\n😀", Options::new().br(true))
    );
}

#[test]
fn windows_and_old_mac_line_endings_are_understood() {
    assert_eq!("<p>a</p>\n<p>b<br>\nc</p>", auto_p("a\r\n\r\nb\rc", Options::new().br(true)));
}

#[test]
fn a_table_built_once_serves_many_calls() {
    let patterns = Patterns::new().unwrap();
    assert_eq!("<p>one</p>", auto_p_with(&patterns, "one", Options::new()));
    assert_eq!("<p>two<br>\n2</p>", auto_p_with(&patterns, "two\n2", Options::new().br(true)));
    assert_eq!("", auto_p_with(&patterns, " \n ", Options::new()));
}

#[test]
fn both_entry_points_agree() {
    let patterns = Patterns::new().unwrap();
    for text in ["a\n\nb", "<div>\nx\ny\n</div>", "<pre>\n1\n</pre>\n\ntail", " "] {
        let options = Options::new().br(true).remove_useless_newlines_in_pre(true);
        assert_eq!(auto_p(text, options.clone()), auto_p_with(&patterns, text, options));
    }
}

#[test]
fn a_newline_inside_a_tag_survives() {
    assert_eq!(
        "<p><a title=\"one\n\ntwo\">link</a></p>",
        auto_p("<a title=\"one\n\ntwo\">link</a>", Options::new().br(true))
    );
    assert_eq!(
        "<p><a\nhref='x'\n>link</a> and<br>\nmore</p>",
        auto_p("<a\nhref='x'\n>link</a> and\nmore", Options::new().br(true))
    );
}

#[test]
fn protected_contents_are_never_formatted() {
    for options in [Options::new(), Options::new().br(true), Options::new().esc_pre(true)] {
        assert_eq!(
            "<textarea>a\n\nb\nc</textarea>",
            auto_p("<textarea>a\n\nb\nc</textarea>", options.clone())
        );
        assert_eq!(
            "<style>p {\n\n  color: red;\n}</style>",
            auto_p("<style>p {\n\n  color: red;\n}</style>", options.clone())
        );
        assert_eq!(
            "<svg>\n\n<path d=\"M0 0\"/>\n</svg>",
            auto_p("<svg>\n\n<path d=\"M0 0\"/>\n</svg>", options.clone())
        );
        assert_eq!(
            "<script>if (a < b) {\n\n}</script>",
            auto_p("<script>if (a < b) {\n\n}</script>", options)
        );
    }
}

#[test]
fn each_kind_is_restored_from_its_own_contents() {
    assert_eq!(
        "<textarea>a</textarea>\n<svg>b</svg>\n<style>c</style>\n<script>d</script>",
        auto_p(
            "<textarea>a</textarea>\n\n<svg>b</svg>\n\n<style>c</style>\n\n<script>d</script>",
            Options::new()
        )
    );
}

#[test]
fn what_is_nested_in_a_protected_element_is_part_of_its_content() {
    assert_eq!(
        "<pre><script>a\n\nb</script></pre>",
        auto_p("<pre><script>a\n\nb</script></pre>", Options::new().br(true))
    );
}

#[test]
fn tag_names_match_in_any_case() {
    assert_eq!(
        "<PRE>a\n\nb</PRE>\n<DIV>\nx\n</DIV>",
        auto_p("<PRE>a\n\nb</PRE>\n\n<DIV>\nx\n</DIV>", Options::new().br(true))
    );
}

#[test]
fn list_items_are_not_wrapped() {
    assert_eq!(
        "<ul>\n<li>a</li>\n<li>b</li>\n</ul>",
        auto_p("<ul>\n<li>a</li>\n<li>b</li>\n</ul>", Options::new().br(true))
    );
}

#[test]
fn the_result_for_a_text_is_that_for_its_trimmed_form() {
    let texts = [
        "  Hello world!\n",
        "\n\n a\n\nb \t",
        "\u{3000}<pre>\n x \n</pre>\u{a0}",
        " \n ",
        "plain",
    ];
    for text in texts {
        for options in [Options::new(), Options::new().br(true).esc_pre(true)] {
            assert_eq!(auto_p(text.trim(), options.clone()), auto_p(text, options));
        }
    }
}

#[test]
fn the_engine_accepts_the_patterns_of_the_table() {
    assert!(Patterns::new().is_some());
    assert_eq!("<p>x</p>", auto_p("  x  ", Options::new()));
}
