use html_auto_p::breaks::{add_breaks, insert_breaks};
use html_auto_p::fixup::fix_structure;
use html_auto_p::grammar::{Kind, Patterns};
use html_auto_p::newline::{hide_newlines, normalize_newlines, shield_tags, show_newlines};
use html_auto_p::paragraph::{find_blank, wrap_paragraphs};
use html_auto_p::pre::{prepare_pre, prepare_pre_content, trim_newline_exactly_one};
use html_auto_p::spans::present_spans;
use html_auto_p::text::{bytes_of, into_text, spans_usable};
use html_auto_p::splice::{append_range, put_back};
use html_auto_p::vault::{
    put_away, restore_all, restore_kind, slice_text, vault_all, vault_kind,
};
use html_auto_p::{reformat, transform, Options};

fn strings(items: &[&str]) -> Vec<String> {
    items.iter().map(|s| s.to_string()).collect()
}

#[test]
fn bytes_and_text_convert_both_ways() {
    assert_eq!(vec![0xc3u8, 0xa9, 0x21], bytes_of("é!"));
    assert_eq!("é!", into_text(vec![0xc3, 0xa9, 0x21]));
    assert_eq!("", into_text(Vec::new()));
}

#[test]
fn usable_spans_fit_and_ascend() {
    assert!(spans_usable("abcd", &vec![]));
    assert!(spans_usable("abcd", &vec![(0, 2), (2, 3), (4, 4)]));
    assert!(!spans_usable("abcd", &vec![(0, 2), (1, 3)]));
    assert!(!spans_usable("abcd", &vec![(2, 3), (0, 1)]));
    assert!(!spans_usable("abcd", &vec![(3, 2)]));
    assert!(!spans_usable("abcd", &vec![(0, 5)]));
    assert!(spans_usable("é", &vec![(0, 2)]));
    assert!(!spans_usable("é", &vec![(0, 1)]));
    assert!(!spans_usable("é", &vec![(1, 2)]));
}

#[test]
fn absent_spans_are_left_out() {
    assert_eq!(
        vec![(1usize, 2usize), (3, 4)],
        present_spans(&vec![Some((1, 2)), None, Some((3, 4)), None])
    );
    assert_eq!(Vec::<(usize, usize)>::new(), present_spans(&vec![None]));
}

#[test]
fn a_slice_is_what_the_span_covers() {
    assert_eq!("ü", slice_text("é<b>ü</b>", (5, 7)));
    assert_eq!("", slice_text("abc", (1, 1)));
    assert_eq!("abc", slice_text("abc", (0, 3)));
}

#[test]
fn a_range_of_bytes_is_appended() {
    let mut out = vec![1u8];
    append_range(&mut out, &[10, 11, 12, 13], 1, 3);
    assert_eq!(vec![1u8, 11, 12], out);
    append_range(&mut out, &[10, 11], 2, 2);
    assert_eq!(vec![1u8, 11, 12], out);
}

#[test]
fn putting_away_fills_with_zeros_of_the_same_length() {
    let (text, contents) = put_away("a<pre>xy</pre>b", &vec![(6, 8)]);
    assert_eq!("a<pre>00</pre>b", text);
    assert_eq!(strings(&["xy"]), contents);

    let (text, contents) = put_away("é<b>ü</b><i>\n\n</i>", &vec![(5, 7), (14, 16)]);
    assert_eq!("é<b>00</b><i>00</i>", text);
    assert_eq!(strings(&["ü", "\n\n"]), contents);
    assert_eq!("é<b>ü</b><i>\n\n</i>".len(), text.len());

    let (text, contents) = put_away("abc", &vec![]);
    assert_eq!("abc", text);
    assert!(contents.is_empty());
}

#[test]
fn putting_back_replaces_span_by_content() {
    assert_eq!(
        "a<pre>hello</pre>b",
        put_back("a<pre>00</pre>b", &vec![(6, 8)], &strings(&["hello"]))
    );
    assert_eq!("xAyBBBz", put_back("x00y00z", &vec![(1, 3), (4, 6)], &strings(&["A", "BBB"])));
    assert_eq!("xyéz", put_back("x000yz", &vec![(1, 4), (5, 5)], &strings(&["", "é"])));
}

#[test]
fn spans_and_contents_pair_up_by_index() {
    assert_eq!("xAy00z", put_back("x00y00z", &vec![(1, 3), (4, 6)], &strings(&["A"])));
    assert_eq!("xAy00z", put_back("x00y00z", &vec![(1, 3)], &strings(&["A", "B"])));
    assert_eq!("x00y00z", put_back("x00y00z", &vec![], &strings(&["A"])));
}

#[test]
fn a_kind_is_put_away_and_brought_back() {
    let patterns = Patterns::new().unwrap();
    let source = "<pre>a\n\nb</pre> <PRE class=\"x\">c</PRE><pre></pre>";
    let (text, shelf) = vault_kind(&patterns, Kind::Pre, source);
    assert_eq!("<pre>0000</pre> <PRE class=\"x\">0</PRE><pre></pre>", text);
    assert_eq!(strings(&["a\n\nb", "c", ""]), shelf.contents);
    assert_eq!(vec![(5usize, 9usize), (31, 32), (43, 43)], shelf.origins);
    assert_eq!(source, restore_kind(&patterns, Kind::Pre, &text, &shelf.contents));
}

#[test]
fn only_the_kind_asked_for_is_put_away() {
    let patterns = Patterns::new().unwrap();
    let source = "<pre>p</pre><textarea>t</textarea><script>s</script><style>c</style><svg>v</svg>";
    let expect = [
        (Kind::Pre, "<pre>0</pre><textarea>t</textarea><script>s</script><style>c</style><svg>v</svg>", "p"),
        (Kind::Textarea, "<pre>p</pre><textarea>0</textarea><script>s</script><style>c</style><svg>v</svg>", "t"),
        (Kind::Script, "<pre>p</pre><textarea>t</textarea><script>0</script><style>c</style><svg>v</svg>", "s"),
        (Kind::Style, "<pre>p</pre><textarea>t</textarea><script>s</script><style>0</style><svg>v</svg>", "c"),
        (Kind::Svg, "<pre>p</pre><textarea>t</textarea><script>s</script><style>c</style><svg>0</svg>", "v"),
    ];
    for (kind, filled, content) in expect {
        let (text, shelf) = vault_kind(&patterns, kind, source);
        assert_eq!(filled, text);
        assert_eq!(strings(&[content]), shelf.contents);
    }
}

#[test]
fn an_element_stops_at_its_first_end_tag() {
    let patterns = Patterns::new().unwrap();
    let (text, shelf) = vault_kind(&patterns, Kind::Pre, "<pre>a</pre>b</pre><pre>c");
    assert_eq!("<pre>0</pre>b</pre><pre>c", text);
    assert_eq!(strings(&["a"]), shelf.contents);
}

#[test]
fn newlines_in_spans_are_hidden_and_shown() {
    assert_eq!("<a\rb>\n", hide_newlines("<a\nb>\n", &vec![(2, 4)]));
    assert_eq!("\n\r\ré\n", hide_newlines("\n\n\né\n", &vec![(1, 2), (2, 3)]));
    assert_eq!("a\n", hide_newlines("a\n", &vec![]));
    assert_eq!("a\nb\n\n", show_newlines("a\rb\r\n"));
    assert_eq!("<a\nb>\n", show_newlines(&hide_newlines("<a\nb>\n", &vec![(0, 5)])));
}

#[test]
fn line_endings_are_normalized() {
    let patterns = Patterns::new().unwrap();
    assert_eq!("a\nb\nc\nd\n\n", normalize_newlines(&patterns, "a\r\nb\rc\nd\r\r"));
    assert_eq!("a\nb\n\nc", normalize_newlines(&patterns, "a\nb\n\nc"));
    assert_eq!("", normalize_newlines(&patterns, ""));
}

#[test]
fn newlines_in_attribute_lists_are_hidden() {
    let patterns = Patterns::new().unwrap();
    assert_eq!(
        "<div title=\"a\r\rb\"\r>x\n\ny</div\r>",
        shield_tags(&patterns, "<div title=\"a\n\nb\"\n>x\n\ny</div\n>")
    );
    assert_eq!("a < b\n\nc > d", shield_tags(&patterns, "a < b\n\nc > d"));
}

#[test]
fn the_first_blank_line_is_found() {
    assert_eq!(2, find_blank(b"ab\n\ncd\n\n"));
    assert_eq!(0, find_blank(b"\n\n"));
    assert_eq!(0, find_blank(b"\n\n\n"));
    assert_eq!(1, find_blank(b"a\n\n\n"));
    assert_eq!(3, find_blank(b"a\nb"));
    assert_eq!(1, find_blank(b"\n"));
    assert_eq!(0, find_blank(b""));
}

#[test]
fn pieces_between_blank_lines_become_paragraphs() {
    assert_eq!("<p>a</p>\n<p>b</p>\n", wrap_paragraphs("a\n\nb"));
    assert_eq!("<p>a\nb</p>\n", wrap_paragraphs(" a\nb\t"));
    assert_eq!("<p>a</p>\n<p>b</p>\n", wrap_paragraphs("a\n\n\nb"));
    assert_eq!("<p>a</p>\n<p></p>\n<p>b</p>\n", wrap_paragraphs("a\n\n\n\nb"));
    assert_eq!("<p>a</p>\n<p></p>\n", wrap_paragraphs("a\n\n"));
    assert_eq!("<p></p>\n", wrap_paragraphs(""));
    assert_eq!("<p>é</p>\n<p>ü</p>\n", wrap_paragraphs("\u{3000}é\u{a0}\n\n\u{2028}ü \r"));
    assert_eq!("<p>\u{200b}a</p>\n", wrap_paragraphs("\u{200b}a"));
}

#[test]
fn the_repairs_run_in_their_order() {
    let patterns = Patterns::new().unwrap();
    assert_eq!("<p>x</p>", fix_structure(&patterns, "<p></p>\n<p>x</p>\n"));
    assert_eq!("<li>a</li>", fix_structure(&patterns, "<p><li>a</li></p>"));
    assert_eq!("<div>a</div>", fix_structure(&patterns, "<p><div>a</div></p>"));
    assert_eq!("<div><p>a</p>", fix_structure(&patterns, "<p><div>a</p>"));
    assert_eq!("<div>\n <p>a</p>", fix_structure(&patterns, "<p><div>\n a</p>"));
    assert_eq!("<p>a</p></div>", fix_structure(&patterns, "<p>a</div></p>"));
    assert_eq!("<p>a \n</p></DIV>", fix_structure(&patterns, "<p>a \n</DIV></p>"));
    assert_eq!("<script>0</script>", fix_structure(&patterns, "<p><script>0</script></p>"));
    assert_eq!("<p><span>a</span></p>", fix_structure(&patterns, "<p><span>a</span></p>"));
}

#[test]
fn breaks_go_before_newlines() {
    assert_eq!("a<br>\nb", insert_breaks("a\nb"));
    assert_eq!("a<br>\n  b", insert_breaks("a  \n\n  b"));
    assert_eq!("a<br>\nb", insert_breaks("a<br>\nb"));
    assert_eq!("a<br> \t\nb", insert_breaks("a<br> \t\nb"));
    assert_eq!("a<BR><br>\nb", insert_breaks("a<BR>\nb"));
    assert_eq!("a<br>\nb<br>\nc<br>\n", insert_breaks("a\nb\r\nc\n"));
    assert_eq!("é<br>\nü", insert_breaks("é\nü"));
    assert_eq!("ab", insert_breaks("ab"));
    assert_eq!("", insert_breaks(""));
}

#[test]
fn the_first_byte_is_never_taken_for_a_break() {
    assert_eq!(" <br>\n", insert_breaks(" \n"));
    assert_eq!(" <br>\nb", insert_breaks("  \t\nb"));
    assert_eq!("\n<br>\n", insert_breaks("\n\n"));
    assert_eq!("<br>\nabc", insert_breaks("\nabc"));
    assert_eq!("<br>\n", insert_breaks("\n"));
}

#[test]
fn breaks_next_to_block_tags_are_taken_out() {
    let patterns = Patterns::new().unwrap();
    assert_eq!("<p>a<br>\nb<br>\nc</p>", add_breaks(&patterns, "<p>a\nb<BR />\nc</p>"));
    assert_eq!("<div>\nx\n</div>", add_breaks(&patterns, "<div>\nx\n</div>"));
    assert_eq!("<span><br>\nx<br>\n</span>", add_breaks(&patterns, "<span>\nx\n</span>"));
}

#[test]
fn one_lone_line_end_is_trimmed_at_each_edge() {
    assert_eq!("abc", trim_newline_exactly_one("\nabc\n"));
    assert_eq!("abc", trim_newline_exactly_one("abc"));
    assert_eq!("", trim_newline_exactly_one(""));
    assert_eq!("", trim_newline_exactly_one("\n"));
    assert_eq!("", trim_newline_exactly_one("\r"));
    assert_eq!("", trim_newline_exactly_one("\r\n"));
    assert_eq!("\n\n", trim_newline_exactly_one("\n\n"));
    assert_eq!("\n\nabc\n\n", trim_newline_exactly_one("\n\nabc\n\n"));
    assert_eq!("\n\nabc", trim_newline_exactly_one("\n\nabc\n"));
    assert_eq!(" \nabc\n ", trim_newline_exactly_one(" \nabc\n "));
    assert_eq!("é", trim_newline_exactly_one("\né\n"));
    assert_eq!("a\nb", trim_newline_exactly_one("\na\nb\n"));
}

#[test]
fn carriage_returns_count_as_line_ends() {
    assert_eq!("abc", trim_newline_exactly_one("\rabc\r"));
    assert_eq!("abc\r\n", trim_newline_exactly_one("\r\nabc\r\n"));
    assert_eq!("abc", trim_newline_exactly_one("\r\nabc\n\r"));
    assert_eq!("\r\n\nabc", trim_newline_exactly_one("\r\n\nabc"));
    assert_eq!("\r\rabc", trim_newline_exactly_one("\r\rabc"));
    assert_eq!("\n\rabc", trim_newline_exactly_one("\n\rabc"));
    assert_eq!("abc\n\n\r", trim_newline_exactly_one("abc\n\n\r"));
    assert_eq!("", trim_newline_exactly_one("\n\r"));
}

#[test]
fn pre_content_is_made_ready_as_the_options_ask() {
    let source = "\n<b>&\"'/</b>\n";
    assert_eq!(source, prepare_pre_content(source, &Options::new()));
    assert_eq!(
        "<b>&\"'/</b>",
        prepare_pre_content(source, &Options::new().remove_useless_newlines_in_pre(true))
    );
    assert_eq!(
        "\n&lt;b&gt;&amp;&quot;&#x27;&#x2F;&lt;&#x2F;b&gt;\n",
        prepare_pre_content(source, &Options::new().esc_pre(true))
    );
    assert_eq!(
        "&lt;b&gt;&amp;&quot;&#x27;&#x2F;&lt;&#x2F;b&gt;",
        prepare_pre_content(
            source,
            &Options::new().esc_pre(true).remove_useless_newlines_in_pre(true)
        )
    );
    assert_eq!(source, prepare_pre_content(source, &Options::new().br(true)));
    assert_eq!(
        strings(&["a", "&lt;"]),
        prepare_pre(
            &strings(&["\na", "<\n"]),
            &Options::new().esc_pre(true).remove_useless_newlines_in_pre(true)
        )
    );
}

#[test]
fn the_five_kinds_are_put_away_in_their_order() {
    let patterns = Patterns::new().unwrap();
    let source = "<style>s</style><pre><svg>a</svg></pre><svg>b</svg><textarea><pre>c</pre></textarea><script>dd</script>";
    let (text, vault) = vault_all(&patterns, source);
    assert_eq!(
        "<style>0</style><pre>000000000000</pre><svg>0</svg><textarea>000000000000</textarea><script>00</script>",
        text
    );
    assert_eq!(source.len(), text.len());
    assert_eq!(strings(&["<svg>a</svg>", "c"]), vault.pre.contents);
    assert_eq!(strings(&["<pre>0</pre>"]), vault.textarea.contents);
    assert_eq!(strings(&["dd"]), vault.script.contents);
    assert_eq!(strings(&["s"]), vault.style.contents);
    assert_eq!(strings(&["b"]), vault.svg.contents);
    assert_eq!(vec![(21usize, 33usize), (66, 67)], vault.pre.origins);
    assert_eq!(vec![(61usize, 73usize)], vault.textarea.origins);
    assert_eq!(source, restore_all(&patterns, &text, &vault, &Options::new()));
}

#[test]
fn only_pre_is_brought_back_as_the_options_ask() {
    let patterns = Patterns::new().unwrap();
    let source = "<pre>\n<</pre><textarea>\n<</textarea><script>\n<</script><style>\n<</style><svg>\n<</svg>";
    let (text, vault) = vault_all(&patterns, source);
    let options = Options::new().br(true).esc_pre(true).remove_useless_newlines_in_pre(true);
    assert_eq!(
        "<pre>&lt;</pre><textarea>\n<</textarea><script>\n<</script><style>\n<</style><svg>\n<</svg>",
        restore_all(&patterns, &text, &vault, &options)
    );
}

#[test]
fn formatting_runs_the_middle_stages() {
    let patterns = Patterns::new().unwrap();
    assert_eq!(
        "<p>a\nb</p>\n<p>c</p>",
        reformat(&patterns, "a\r\nb\r\n\r\nc", &Options::new())
    );
    assert_eq!(
        "<p>a<br>\nb</p>\n<p>c</p>",
        reformat(&patterns, "a\r\nb\r\n\r\nc", &Options::new().br(true))
    );
    assert_eq!(
        "<div\rid=x>\n<p>a</p>\n</div>",
        reformat(&patterns, "<div\nid=x>\n\na\n\n</div>", &Options::new().br(true))
    );
}

#[test]
fn the_pipeline_leaves_no_carriage_return() {
    let patterns = Patterns::new().unwrap();
    let out = transform(&patterns, "<pre>a\r\nb\rc</pre>", &Options::new());
    assert_eq!("<pre>a\n\nb\nc</pre>", out);
    assert!(!out.contains('\r'));
}

#[test]
fn every_newline_ends_up_behind_a_break() {
    let inputs = [
        "a\nb",
        "a \n \n\t\nb\n",
        "a<br>\nb<br> \n\nc",
        "x\r\ny\n\n\nz",
        "é\n\nü\n",
        "<p>one\ntwo</p>\n<p>three</p>",
    ];
    for input in inputs {
        let out = insert_breaks(input);
        for (at, _) in out.match_indices('\n') {
            let before = out[..at].trim_end_matches([' ', '\t', '\n', '\r', '\u{c}']);
            assert!(before.ends_with("<br>"), "{:?} -> {:?}", input, out);
        }
        let kept: String = out.replace("<br>", "").split_ascii_whitespace().collect();
        let had: String = input.replace("<br>", "").split_ascii_whitespace().collect();
        assert_eq!(had, kept);
    }
}

#[test]
fn filling_keeps_every_offset() {
    let source = "é<pre>日本\n\n</pre>ü<pre></pre>";
    let spans = vec![(7, 15), (24, 24)];
    assert!(spans_usable(source, &spans));
    let (text, contents) = put_away(source, &spans);
    assert_eq!("é<pre>00000000</pre>ü<pre></pre>", text);
    assert_eq!(source.len(), text.len());
    assert!(spans_usable(&text, &spans));
    assert!(!text[7..15].contains(['<', '>', '\n']));
    assert_eq!(source, put_back(&text, &spans, &contents));
}

#[test]
fn what_is_brought_back_stands_where_it_lands() {
    let contents = strings(&["<b>\n\n</b>", "", "日本"]);
    let spans = vec![(1, 3), (4, 4), (5, 9)];
    let out = put_back("a00b|0000c", &spans, &contents);
    assert_eq!("a<b>\n\n</b>b|日本c", out);
    let mut landing = 0usize;
    let mut from = 0usize;
    for (span, content) in spans.iter().zip(contents.iter()) {
        landing += span.0 - from;
        assert_eq!(content.as_str(), &out[landing..landing + content.len()]);
        landing += content.len();
        from = span.1;
    }
}

#[test]
fn the_spans_of_a_kind_are_usable_on_its_text() {
    let patterns = Patterns::new().unwrap();
    let sources = [
        "",
        "<pre></pre>",
        "é<pre>日本</pre><pre\nclass='ü'>😀\n\n</pre >ß<PRE>x",
        "<pre><pre>a</pre></pre><pre>b</pre>",
    ];
    for source in sources {
        let (text, shelf) = vault_kind(&patterns, Kind::Pre, source);
        assert!(spans_usable(source, &shelf.origins));
        assert!(spans_usable(&text, &shelf.origins));
        assert_eq!(shelf.origins.len(), shelf.contents.len());
        for (span, content) in shelf.origins.iter().zip(shelf.contents.iter()) {
            assert_eq!(&source[span.0..span.1], content.as_str());
        }
    }
}

#[test]
fn protected_content_passes_untouched_where_the_engine_answers_so() {
    let patterns = Patterns::new().unwrap();
    let kinds = [Kind::Pre, Kind::Textarea, Kind::Script, Kind::Style, Kind::Svg];
    for lone in kinds {
        let name = lone.tag_name();
        let source = format!("<{0}>a < b\n\nc\nd</{0}>", name);
        let (hidden, shelf) = vault_kind(&patterns, lone, &source);
        assert_eq!(1, shelf.origins.len());
        assert!(spans_usable(&source, &shelf.origins));
        assert_eq!(shelf.origins, vault_kind(&patterns, lone, &hidden).1.origins);
        for kind in kinds {
            if kind != lone {
                assert!(vault_kind(&patterns, kind, &source).1.origins.is_empty());
                assert!(vault_kind(&patterns, kind, &hidden).1.origins.is_empty());
            }
        }
        for options in [Options::new(), Options::new().br(true)] {
            assert_eq!(hidden, reformat(&patterns, &hidden, &options));
            assert_eq!(source, transform(&patterns, &source, &options));
        }
    }
}

#[test]
fn a_tag_keeps_its_newlines_where_the_engine_answers_so() {
    let patterns = Patterns::new().unwrap();
    let source = "<section data=\"Hello, world!\n\nHi\nthere\" ></section>";
    let kinds = [Kind::Pre, Kind::Textarea, Kind::Script, Kind::Style, Kind::Svg];
    let hidden = shield_tags(&patterns, source);
    assert_eq!("<section data=\"Hello, world!\r\rHi\rthere\" ></section>", hidden);
    for kind in kinds {
        assert!(vault_kind(&patterns, kind, source).1.origins.is_empty());
        assert!(vault_kind(&patterns, kind, &hidden).1.origins.is_empty());
    }
    assert_eq!(source, normalize_newlines(&patterns, source));
    assert_eq!(hidden, fix_structure(&patterns, &wrap_paragraphs(&hidden)));
    assert_eq!(hidden, add_breaks(&patterns, &hidden));
    for options in [Options::new(), Options::new().br(true).esc_pre(true)] {
        assert_eq!(source, transform(&patterns, source, &options));
    }
}
