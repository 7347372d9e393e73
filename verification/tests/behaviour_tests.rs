use post_parser::comment_parser::{Attribute, CommentParser, ParsingRule};
use post_parser::html_parser::node::Node;
use post_parser::html_parser::parser::HtmlParser;
use post_parser::parsing_error::ParsingError;
use post_parser::post::{ParsedSpannableText, PostParserContext, PostRaw};
use post_parser::post_parser::PostParser;
use post_parser::rules::anchor::link_raw_to_post_link;
use post_parser::rules::rule_handler::RuleHandler;
use post_parser::rules::spoiler::SpoilerHandler;
use post_parser::spannable::{PostLink, Spannable, SpannableData};
use post_parser::text_part::TextPart;
use post_parser::util::color_decoder::color_hex_of_lowercase;
use post_parser::util::style_tag_value_decoder::decode_style_spans;
use post_parser::util::theme_json_extractor::{
    detect_and_extract_theme_json, is_probably_theme_json, text_contains_valid_json,
    try_extract_theme_name,
};
use std::collections::HashSet;

fn posts(items: &[u64]) -> HashSet<u64> {
    items.iter().copied().collect()
}

fn render(
    thread_no: u64,
    post_no: u64,
    my_replies: &[u64],
    thread_posts: &[u64],
    comment: &str,
) -> ParsedSpannableText {
    let context = PostParserContext::new(posts(my_replies), posts(thread_posts));
    let parser = PostParser::new(&context);
    let post = PostRaw::new("4chan", "g", thread_no, post_no, 0, comment);
    parser.parse_post(&post).post_comment_parsed
}

fn link(start: usize, len: usize, post_link: PostLink) -> Spannable {
    Spannable { start, len, spannable_data: SpannableData::Link(post_link) }
}

#[test]
fn table_cells_are_parted_by_spaces_and_rows_by_new_lines() {
    let parsed = render(1, 2, &[], &[], "<table><tr><td>A</td><td>B</td></tr></table>");
    assert_eq!("A B \n", parsed.parsed_text.as_str());
    assert_eq!(
        vec![Spannable { start: 0, len: 5, spannable_data: SpannableData::Monospace }],
        *parsed.spannables
    );
}

#[test]
fn empty_cells_get_no_separator() {
    let parsed = render(1, 2, &[], &[], "<table><tr><td> </td><td>B</td></tr></table>");
    assert_eq!(" B \n", parsed.parsed_text.as_str());
}

#[test]
fn cell_that_rendered_nothing_gets_no_separator() {
    let parsed = render(1, 2, &[], &[], "<table><tr><td>A</td><td><i></i></td></tr></table>");
    assert_eq!("A \n", parsed.parsed_text.as_str());
    assert_eq!(
        vec![Spannable { start: 0, len: 3, spannable_data: SpannableData::Monospace }],
        *parsed.spannables
    );
}

#[test]
fn element_that_rendered_nothing_gets_no_annotation() {
    let parsed = render(1, 2, &[], &[], "x<s><i></i></s>");
    assert_eq!("x", parsed.parsed_text.as_str());
    assert!(parsed.spannables.is_empty());
    let parsed = render(1, 2, &[], &[], "x<span class=\"quote\" style=\"color:red\"><i></i></span><b><u></u></b>");
    assert_eq!("x", parsed.parsed_text.as_str());
    assert!(parsed.spannables.is_empty());
}

#[test]
fn annotation_covers_what_its_element_rendered() {
    let parsed = render(1, 2, &[], &[], "ab<span class=\"quote\">cd</span>");
    assert_eq!("abcd", parsed.parsed_text.as_str());
    assert_eq!(
        vec![Spannable { start: 2, len: 2, spannable_data: SpannableData::GreenText }],
        *parsed.spannables
    );
    let parsed = render(1, 2, &[], &[5], "\u{65E5}\u{672C}<b>x<s><a href=\"#p5\">&gt;&gt;5</a>y</s></b>z");
    assert_eq!("\u{65E5}\u{672C}x>>5yz", parsed.parsed_text.as_str());
    assert_eq!(
        vec![
            link(3, 3, PostLink::Quote { post_no: 5 }),
            Spannable { start: 3, len: 4, spannable_data: SpannableData::Spoiler },
            Spannable { start: 2, len: 5, spannable_data: SpannableData::BoldText },
        ],
        *parsed.spannables
    );
}

#[test]
fn word_break_tags_leave_the_word_whole() {
    let parsed = render(1, 2, &[], &[], "foo<wbr>bar");
    assert_eq!("foobar", parsed.parsed_text.as_str());
    assert!(parsed.spannables.is_empty());
    assert_eq!("foobar", parsed.original_text);
}

#[test]
fn entities_are_decoded_once() {
    let parsed = render(1, 2, &[], &[], "&amp;gt; &lt;b&gt; &#039;x&#039; &quot;y&quot;");
    assert_eq!("&gt; <b> 'x' \"y\"", parsed.parsed_text.as_str());
}

#[test]
fn text_without_entities_is_kept() {
    let parsed = render(1, 2, &[], &[], "plain text; nothing to decode");
    assert_eq!("plain text; nothing to decode", parsed.parsed_text.as_str());
}

#[test]
fn quote_of_a_known_post_is_a_quote() {
    let parsed = render(1, 2, &[], &[777], "<a href=\"#p777\">&gt;&gt;777</a>");
    assert_eq!(">>777", parsed.parsed_text.as_str());
    assert_eq!(vec![link(0, 5, PostLink::Quote { post_no: 777 })], *parsed.spannables);
}

#[test]
fn quote_of_an_unknown_post_is_dead() {
    let parsed = render(1, 2, &[], &[], "<a href=\"#p777\">&gt;&gt;777</a>");
    assert_eq!(">>777 (DEAD)", parsed.parsed_text.as_str());
    assert_eq!(vec![link(0, 12, PostLink::Dead { post_no: 777 })], *parsed.spannables);
}

#[test]
fn marks_of_a_quote_come_in_a_fixed_order() {
    let parsed = render(777, 888, &[777, 888], &[777], "<a href=\"#p777\">&gt;&gt;777</a>");
    assert_eq!(">>777 (OP) (Me)", parsed.parsed_text.as_str());
    assert_eq!(vec![link(0, 15, PostLink::Quote { post_no: 777 })], *parsed.spannables);

    let parsed = render(777, 888, &[777], &[], "<a href=\"#p777\">&gt;&gt;777</a>");
    assert_eq!(">>777 (OP) (You) (DEAD)", parsed.parsed_text.as_str());
    assert_eq!(vec![link(0, 23, PostLink::Dead { post_no: 777 })], *parsed.spannables);
}

#[test]
fn context_of_a_thread_knows_its_original_post() {
    let context = PostParserContext::for_thread(777, posts(&[]), posts(&[777]));
    assert!(context.is_quoting_original_post(777));
    assert!(!context.is_quoting_original_post(778));
    assert_eq!(Some(777), context.thread_id());
    let without = PostParserContext::new(posts(&[]), posts(&[777]));
    assert!(!without.is_quoting_original_post(777));
    assert_eq!(None, without.thread_id());

    let comment = "<a href=\"#p777\">&gt;&gt;777</a> <a href=\"#p1\">&gt;&gt;1</a>";
    let post = PostRaw::new("4chan", "g", 1, 2, 0, comment);
    let parsed = PostParser::new(&context).parse_post(&post).post_comment_parsed;
    assert_eq!(">>777 (OP) >>1 (DEAD)", parsed.parsed_text.as_str());
    let parsed = PostParser::new(&without).parse_post(&post).post_comment_parsed;
    assert_eq!(">>777 >>1 (OP) (DEAD)", parsed.parsed_text.as_str());
}

#[test]
fn address_behind_wide_characters_is_counted_in_characters() {
    let parsed = render(1, 2, &[], &[], "\u{65E5}\u{672C}\u{8A9E} https://example.com/a ok");
    assert_eq!(
        vec![link(4, 21, PostLink::UrlLink { link: String::from("https://example.com/a") })],
        *parsed.spannables
    );
}

#[test]
fn address_in_a_later_text_starts_behind_the_earlier_text() {
    let parsed = render(1, 2, &[], &[], "\u{25CF}a<br>\u{25CF} http://2.com");
    assert_eq!("\u{25CF}a\n\u{25CF} http://2.com", parsed.parsed_text.as_str());
    assert_eq!(
        vec![link(5, 12, PostLink::UrlLink { link: String::from("http://2.com") })],
        *parsed.spannables
    );
}

#[test]
fn void_elements_have_no_children() {
    let parser = HtmlParser::new();
    for html in ["<br>tail", "<br class=\"x\">tail", "<wbr>tail", "<img src=\"a.png\" alt=\"b\">tail", "<hr>tail"] {
        let nodes = parser.parse(html).unwrap();
        assert_eq!(2, nodes.len());
        match &nodes[0] {
            Node::Element(element) => {
                assert!(element.is_void_element);
                assert!(element.children.is_empty());
            },
            Node::Text(text) => panic!("a text: {}", text),
        }
        match &nodes[1] {
            Node::Text(text) => assert_eq!("tail", text),
            Node::Element(element) => panic!("an element: {}", element.tag_name),
        }
    }
}

#[test]
fn other_elements_hold_what_follows_up_to_a_closing_tag() {
    let parser = HtmlParser::new();
    let nodes = parser.parse("<b>one<i>two</u>three</b>four").unwrap();
    assert_eq!(2, nodes.len());
    match &nodes[0] {
        Node::Element(element) => {
            assert_eq!("b", element.tag_name);
            assert!(!element.is_void_element);
            assert_eq!(3, element.children.len());
            assert_eq!("onetwothree", element.collect_text());
        },
        Node::Text(text) => panic!("a text: {}", text),
    }
}

#[test]
fn closing_tag_without_an_element_ends_the_tree() {
    let parser = HtmlParser::new();
    let nodes = parser.parse("a</b>c").unwrap();
    assert_eq!("a\n", parser.debug_concat_into_string(&nodes));
}

#[test]
fn tags_that_do_not_end_fail_the_parse() {
    let parser = HtmlParser::new();
    assert!(parser.parse("text<").is_err());
    assert!(parser.parse("text<b").is_err());
    assert!(parser.parse("<b>text</b").is_err());
    assert!(parser.parse("<>").is_err());
    assert!(parser.parse("<a=b>").is_err());
    assert!(parser.parse("").unwrap().is_empty());
    assert_eq!("a tag has no end", parser.parse("<b").err().unwrap().to_string());
}

#[test]
fn comment_that_cannot_be_parsed_renders_to_a_notice() {
    let parsed = render(1, 2, &[], &[], "text<b");
    assert_eq!("Failed to parse comment_raw html", parsed.parsed_text.as_str());
    assert!(parsed.spannables.is_empty());
    assert_eq!("text<b", parsed.original_text);
}

#[test]
fn empty_comment_renders_to_nothing() {
    let parsed = render(1, 2, &[], &[], "");
    assert_eq!("", parsed.parsed_text.as_str());
    assert_eq!("", parsed.original_text);
    assert!(parsed.spannables.is_empty());
    let parsed = render(1, 2, &[], &[], "<wbr>");
    assert_eq!("", parsed.parsed_text.as_str());
}

#[test]
fn unknown_tags_render_their_children() {
    let parsed = render(1, 2, &[], &[], "a<i>b<u>c</u></i>d");
    assert_eq!("abcd", parsed.parsed_text.as_str());
    assert!(parsed.spannables.is_empty());
}

#[test]
fn quote_without_a_number_is_left_out() {
    let parsed = render(1, 2, &[], &[], "<a href=\"#pabc\">x</a>y");
    assert_eq!("y", parsed.parsed_text.as_str());
    assert!(parsed.spannables.is_empty());
    let parsed = render(1, 2, &[], &[], "<a href=\"#p99999999999999999999999\">x</a>y");
    assert_eq!("y", parsed.parsed_text.as_str());
    let parsed = render(1, 2, &[], &[], "<span class=\"deadlink\">&gt;&gt;abc</span>y");
    assert_eq!("y", parsed.parsed_text.as_str());
    assert!(parsed.spannables.is_empty());
}

#[test]
fn anchor_without_target_is_left_out() {
    let parsed = render(1, 2, &[], &[], "<a class=\"x\">shown?</a>y");
    assert_eq!("y", parsed.parsed_text.as_str());
}

#[test]
fn targets_are_classified() {
    let context = PostParserContext::new(posts(&[]), posts(&[5]));
    let of = |href: &str| link_raw_to_post_link(&context, href).unwrap();
    assert_eq!(PostLink::Quote { post_no: 5 }, of("#p5"));
    assert_eq!(PostLink::Dead { post_no: 6 }, of("#p6"));
    assert_eq!(PostLink::BoardLink { board_code: String::from("jp") }, of("//boards.4channel.org/jp/"));
    assert_eq!(
        PostLink::SearchLink { board_code: String::from("g"), search_query: String::from("fglt") },
        of("//boards.4channel.org/g/catalog#s=fglt")
    );
    assert_eq!(
        PostLink::ThreadLink { board_code: String::from("vg"), thread_no: 12, post_no: 34 },
        of("/vg/thread/12#p34")
    );
    assert_eq!(
        PostLink::ThreadLink { board_code: String::from("wsg"), thread_no: 12, post_no: 34 },
        of("//boards.4channel.org/wsg/thread/12#p34")
    );
    assert_eq!(
        PostLink::UrlLink { link: String::from("/vg/thread/99999999999999999999999#p34") },
        of("/vg/thread/99999999999999999999999#p34")
    );
    assert_eq!(
        PostLink::UrlLink { link: String::from("https://example.com") },
        of("https://example.com")
    );
    assert_eq!(PostLink::UrlLink { link: String::from("") }, of(""));
    let error: ParsingError = link_raw_to_post_link(&context, "#p").err().unwrap();
    assert_eq!("a quote of a post names no number", error.to_string());
    assert!(link_raw_to_post_link(&context, "#p+5").is_err());
}

#[test]
fn later_attribute_of_a_name_replaces_the_earlier() {
    let parser = HtmlParser::new();
    let nodes = parser.parse("<a href=\"x\" class=\"c\" href=\"y\" empty=\"\" bare>t</a>").unwrap();
    assert_eq!("<a, class=c, href=y>\nt\n", parser.debug_concat_into_string(&nodes));
    match &nodes[0] {
        Node::Element(element) => {
            assert_eq!(Some(&String::from("y")), element.get_attr_value("href"));
            assert_eq!(None, element.get_attr_value("bare"));
            assert!(element.has_class("C"));
            assert!(!element.has_class("d"));
        },
        Node::Text(text) => panic!("a text: {}", text),
    }
}

#[test]
fn tag_parts_are_split_outside_quotes() {
    let parser = HtmlParser::new();
    let parts = parser.split_into_parts_by_separator(&String::from("a href=\"b c\"  d "), ' ');
    assert_eq!(vec!["a", "href=\"b c\"", "", "d"], parts);
    assert!(parser.split_into_parts_by_separator(&String::from(""), ' ').is_empty());
}

#[test]
fn rules_apply_by_tag_and_demands() {
    let parser = HtmlParser::new();
    let nodes = parser.parse("<pre class=\"prettyprint\">x</pre><pre>y</pre><s id=\"1\">z</s>").unwrap();
    let elements: Vec<_> = nodes
        .iter()
        .map(|node| match node {
            Node::Element(element) => element,
            Node::Text(text) => panic!("a text: {}", text),
        })
        .collect();
    let spoiler = || RuleHandler::Spoiler(SpoilerHandler::new());
    let any_value = ParsingRule::new("pre", vec![Attribute::with_name_and_value("*", "prettyprint")], spoiler());
    assert!(any_value.high_priority());
    assert!(any_value.applies(elements[0]));
    assert!(!any_value.applies(elements[1]));
    assert!(!any_value.applies(elements[2]));
    let every_tag = ParsingRule::new("*", vec![], spoiler());
    assert!(!every_tag.high_priority());
    assert!(every_tag.applies(elements[0]) && every_tag.applies(elements[2]));
    let named = ParsingRule::new("*", vec![Attribute::with_name("id")], spoiler());
    assert!(named.applies(elements[2]));
    assert!(!named.applies(elements[0]));
    let any_attribute = ParsingRule::new("*", vec![Attribute::with_name("*")], spoiler());
    assert!(any_attribute.applies(elements[0]));
    assert!(!any_attribute.applies(elements[1]));
    let class = ParsingRule::new("pre", vec![Attribute::with_class("prettyprint")], spoiler());
    assert!(class.applies(elements[0]));

    let context = PostParserContext::new(posts(&[]), posts(&[]));
    let mut engine = CommentParser::new(&context);
    assert!(engine.get_matching_rules(elements[0]).is_empty());
    engine.add_default_matching_rules();
    assert_eq!(vec![2], engine.get_matching_rules(elements[0]));
    assert!(engine.get_matching_rules(elements[1]).is_empty());
    assert_eq!(vec![6], engine.get_matching_rules(elements[2]));
}

#[test]
fn replacements_are_registered_once() {
    let context = PostParserContext::new(posts(&[]), posts(&[]));
    let mut engine = CommentParser::new(&context);
    assert!(engine.add_replacement_rule("<wbr>", ""));
    assert!(!engine.add_replacement_rule("<wbr>", "-"));
    assert!(engine.add_replacement_rule("aa", "b"));
    assert!(!engine.add_replacement_rule("aa", "c"));
    assert_eq!(2, engine.replacement_pairs().len());
    let mut parser = PostParser::new(&context);
    assert!(parser.comment_parser.add_replacement_rule("aa", "b"));
    let post = PostRaw::new("4chan", "g", 1, 2, 0, "aaa<wbr>a aaaa");
    assert_eq!("bb bb", parser.pre_process_comment(&post));
}

#[test]
fn empty_pattern_stands_before_each_character_and_at_the_end() {
    let context = PostParserContext::new(posts(&[]), posts(&[]));
    let mut parser = PostParser::new(&context);
    assert!(parser.comment_parser.add_replacement_rule("", "-"));
    assert!(!parser.comment_parser.add_replacement_rule("", "+"));
    let post = PostRaw::new("4chan", "g", 1, 2, 0, "a<wbr>\u{65E5}c");
    assert_eq!("-a-\u{65E5}-c-", parser.pre_process_comment(&post));
    assert_eq!("a\u{65E5}c".replace("", "-"), parser.pre_process_comment(&post));
    let empty = PostRaw::new("4chan", "g", 1, 2, 0, "");
    assert_eq!("", parser.pre_process_comment(&empty));
}

#[test]
fn styles_decode_in_order() {
    assert_eq!(
        vec![
            SpannableData::FontSize { size: String::from("22px") },
            SpannableData::TextForegroundColorRaw { color_hex: String::from("#FF0000") },
        ],
        decode_style_spans(" font-size : 22px ;font-weight:bold; color:\tRed ;margin:0;color:nocolor;a:b:c;")
    );
    assert!(decode_style_spans("").is_empty());
    assert_eq!(Some(String::from("#F0F8FF")), color_hex_of_lowercase("aliceblue"));
    assert_eq!(None, color_hex_of_lowercase("AliceBlue"));
}

#[test]
fn styled_element_gets_one_annotation_for_each_property() {
    let parsed = render(1, 2, &[], &[], "<span style=\"font-size:10px;color:#123\">ab</span>");
    assert_eq!(
        vec![
            Spannable { start: 0, len: 2, spannable_data: SpannableData::FontSize { size: String::from("10px") } },
            Spannable {
                start: 0,
                len: 2,
                spannable_data: SpannableData::TextForegroundColorRaw { color_hex: String::from("#123") },
            },
        ],
        *parsed.spannables
    );
}

#[test]
fn theme_descriptions_are_detected() {
    let theme = "{\"name\": \"Night\",\n\"is_light_theme\": false, \"light_nav_bar\": 1, \"light_status_bar\": 1, \"accent_color\": 1, \"primary_color\": 1, \"back_color\": 1}";
    assert!(is_probably_theme_json(theme));
    assert!(!is_probably_theme_json("{\"name\": \"Night\"}"));
    assert_eq!("Night", try_extract_theme_name(theme));
    assert_eq!("Unknown theme name", try_extract_theme_name("{\"names\": 1}"));
    assert!(text_contains_valid_json("a{b}c"));
    assert!(!text_contains_valid_json("}{"));
    assert!(!text_contains_valid_json("{"));
    assert!(!text_contains_valid_json("no braces"));

    let text = format!("\u{25CF}{{}} {} {{\"name\"}}", theme);
    let mut spannables = vec![Spannable { start: 0, len: 1, spannable_data: SpannableData::Spoiler }];
    detect_and_extract_theme_json(&text, &mut spannables);
    assert_eq!(
        vec![
            Spannable { start: 0, len: 1, spannable_data: SpannableData::Spoiler },
            Spannable {
                start: 4,
                len: theme.len(),
                spannable_data: SpannableData::ThemeJson { theme_name: String::from("Night"), is_light_theme: false },
            },
        ],
        spannables
    );
}

#[test]
fn text_parts_count_characters_and_bytes() {
    let part = TextPart::new(String::from("\u{65E5}\u{672C}a"));
    assert_eq!(3, part.characters_count());
    assert_eq!(7, part.bytes_count());
    assert_eq!("\u{65E5}\u{672C}a", part.text());
}

#[test]
fn annotation_without_characters_is_not_valid() {
    assert!(!Spannable { start: 3, len: 0, spannable_data: SpannableData::Spoiler }.is_valid());
    assert!(Spannable { start: 0, len: 1, spannable_data: SpannableData::Spoiler }.is_valid());
    let parsed = render(1, 2, &[], &[], "<s><b></b></s><span class=\"quote\"></span><pre class=\"prettyprint\"><i></i></pre>");
    assert_eq!("", parsed.parsed_text.as_str());
    assert!(parsed.spannables.is_empty());
}

#[test]
fn posts_keep_their_identity() {
    let post = PostRaw::new("4chan", "g", 10, 11, 1, "text");
    assert_eq!("4chan", post.site_name());
    assert_eq!("g", post.board_code());
    assert_eq!((10, 11, 1), (post.thread_no(), post.post_no(), post.post_sub_no()));
    assert!(post.is_quoting_original_post(10));
    assert!(!post.is_quoting_original_post(11));
    let context = PostParserContext::new(posts(&[11, 12]), posts(&[10]));
    assert!(context.is_internal_thread_post(10) && !context.is_internal_thread_post(11));
    assert!(context.is_reply_to_my_post(12) && !context.is_reply_to_my_post(10));
    assert!(context.is_my_reply_to_my_own_post(11, 12));
    assert!(!context.is_my_reply_to_my_own_post(10, 12));
    let parsed = PostParser::new(&context).parse_post(&post);
    assert_eq!("4chan", parsed.site_name);
    assert_eq!("g", parsed.board_code);
    assert_eq!((10, 11, 1), (parsed.thread_no, parsed.post_no, parsed.post_sub_no));
    assert_eq!("text", parsed.post_comment_parsed.parsed_text.as_str());
}

#[test]
fn values_are_shown_as_text() {
    assert_eq!("Quote(post_no: 0)", PostLink::Quote { post_no: 0 }.to_string());
    assert_eq!(
        "Dead(post_no: 18446744073709551615)",
        PostLink::Dead { post_no: u64::MAX }.to_string()
    );
    assert_eq!(
        "ThreadLink(board_code: g, thread_no: 120, post_no: 907)",
        PostLink::ThreadLink { board_code: String::from("g"), thread_no: 120, post_no: 907 }.to_string()
    );
    assert_eq!(
        "SearchLink(board_code: g, search_query: q)",
        PostLink::SearchLink { board_code: String::from("g"), search_query: String::from("q") }.to_string()
    );
    assert_eq!("BoardLink(board_code: g)", PostLink::BoardLink { board_code: String::from("g") }.to_string());
    assert_eq!(
        "Spannable(start: 10, len: 3, spannable_data: PostLink(post_link: UrlLink(link: http://a.bc)))",
        link(10, 3, PostLink::UrlLink { link: String::from("http://a.bc") }).to_string()
    );
    assert_eq!("Spoiler()", SpannableData::Spoiler.to_string());
    assert_eq!(
        "ThemeJson(theme_name: Night, is_light_theme: false)",
        SpannableData::ThemeJson { theme_name: String::from("Night"), is_light_theme: false }.to_string()
    );
    assert_eq!(
        "TextForegroundColorId(color_id: ChanThemeColorId::AccentColor)",
        SpannableData::TextForegroundColorId { color_id: post_parser::spannable::ChanThemeColorId::AccentColor }
            .to_string()
    );
    let parsed = render(1, 2, &[], &[], "<b>a</b><s>b</s>");
    assert_eq!(
        "ParsedSpannableText(comment_text: ab, spannable: Spannable(start: 0, len: 1, spannable_data: BoldText()), spannable: Spannable(start: 1, len: 1, spannable_data: Spoiler()))",
        parsed.to_string()
    );
    let nodes = HtmlParser::new().parse("<a href=\"x\">t</a>u").unwrap();
    assert_eq!(
        "Element(element=Element(name=a, attributes=1, children=1, is_void_element=false))",
        nodes[0].to_string()
    );
    assert_eq!("Text(text=u)", nodes[1].to_string());
}

#[test]
fn nodes_are_collected_parents_first() {
    let nodes = HtmlParser::new().parse("a<b>c<i>d</i></b><br>e").unwrap();
    let mut found: Vec<&Node> = Vec::new();
    post_parser::html_parser::element::collect_nodes(&nodes, &mut found);
    let shown: Vec<String> = found
        .iter()
        .map(|node| match node {
            Node::Text(text) => text.clone(),
            Node::Element(element) => format!("<{}>", element.tag_name),
        })
        .collect();
    assert_eq!(vec!["a", "<b>", "c", "<i>", "d", "<br>", "e"], shown);
}
