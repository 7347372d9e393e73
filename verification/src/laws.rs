//! What holds of every tree that the tokenizer builds and of every rendering.

use crate::comment_parser::{
    is_high_priority, matching_rules, post_phase, pre_phase, pre_processed, RuleView,
};
use crate::entities::decoded_entities;
use crate::html_parser::attributes::lookup;
use crate::html_parser::element::{has_class_view, ElementView};
use crate::html_parser::node::NodeView;
use crate::html_parser::parser::{is_void_name, nodes_from, parsed, tag_of, with_text as text_added};
use crate::pattern::capture_spans;
use crate::post_parser::{
    link_scan, link_span, parsed_comment, rendered_node, rendered_nodes, with_link,
    with_replacements, LINK_PATTERN,
};
use crate::rules::anchor::{
    href_handled, post_link_of, quote_text, single_post_quote, CROSS_THREAD_POSTFIX, HREF,
};
use crate::rules::line_break::NEW_LINE;
use crate::rules::rule_handler::{
    text_mark, with_span, with_text, wrapped, Rendered, RuleHandler, Viewer,
};
use crate::rules::span::{deadlink_handled, DEADLINK_CLASS, QUOTE_CLASS, QUOTE_MARKER};
use crate::rules::style::{with_spans, STYLE_ATTR};
use crate::rules::table_data::{has_visible, CELL_SEPARATOR};
use crate::spannable::{PostLinkView, SpannableDataView, SpannableView};
use crate::text::{
    all_digits, bytes_between, decimal_digits, decimal_number, decimal_value, digit_of,
    first_index, has_prefix, lemma_boundary_in_prefix, lemma_first_index, sliceable,
};
use crate::text_part::{
    chars_between, joined, lemma_joined_split, lemma_whole_text_push, total_chars, whole_text,
};
use crate::util::style_tag_value_decoder::decoded_style;
use crate::util::theme_json_extractor::{json_parts, json_parts_from, theme_spans_of};
use vstd::prelude::*;
use vstd::utf8::{decode_utf8, encode_utf8, valid_utf8};

verus! {

/// Whether a node and all nodes below it treat void elements as such: an
/// element is void exactly if its name is that of a void element, and a void
/// element has no children.
pub open spec fn node_respects_void(node: NodeView) -> bool
    decreases node,
{
    match node {
        NodeView::Text(_) => true,
        NodeView::Element(element) => {
            &&& element.is_void_element == is_void_name(element.tag_name)
            &&& element.is_void_element ==> element.children.len() == 0
            &&& nodes_respect_void(element.children)
        },
    }
}

/// Whether all of the nodes and all nodes below them treat void elements as
/// such.
pub open spec fn nodes_respect_void(nodes: Seq<NodeView>) -> bool
    decreases nodes,
{
    nodes.len() == 0 || (nodes_respect_void(nodes.drop_last()) && node_respects_void(nodes.last()))
}

/// Nodes that treat void elements as such still do with one more such node.
proof fn lemma_push_respects_void(nodes: Seq<NodeView>, node: NodeView)
    requires
        nodes_respect_void(nodes),
        node_respects_void(node),
    ensures
        nodes_respect_void(nodes.push(node)),
{
    assert(nodes.push(node).drop_last() == nodes);
    assert(nodes.push(node).last() == node);
}

/// Nodes that treat void elements as such still do with one more text.
proof fn lemma_text_respects_void(nodes: Seq<NodeView>, html: Seq<char>, from: int, to: int)
    requires
        nodes_respect_void(nodes),
    ensures
        nodes_respect_void(text_added(nodes, html, from, to)),
{
    if 0 <= from < to <= html.len() {
        lemma_push_respects_void(nodes, NodeView::Text(html.subrange(from, to)));
    }
}

/// Reading on keeps void elements without children.
proof fn lemma_nodes_from_respects_void(
    html: Seq<char>,
    text_from: int,
    at: int,
    nodes: Seq<NodeView>,
)
    requires
        0 <= at <= html.len(),
        nodes_respect_void(nodes),
    ensures
        match nodes_from(html, text_from, at, nodes) {
            Some((read, _)) => nodes_respect_void(read),
            None => true,
        },
    decreases html.len() - at,
{
    lemma_text_respects_void(nodes, html, text_from, html.len() as int);
    if at < html.len() {
        if html[at] != '<' {
            lemma_nodes_from_respects_void(html, text_from, at + 1, nodes);
        } else {
            let flushed = text_added(nodes, html, text_from, at);
            lemma_text_respects_void(nodes, html, text_from, at);
            lemma_first_index(html.skip(at + 1), '>');
            match first_index(html.skip(at + 1), '>') {
                None => {},
                Some(k) => {
                    let end = at + 1 + k;
                    if !(k > 0 && html[at + 1] == '/') {
                        match tag_of(html.subrange(at + 1, end)) {
                            None => {},
                            Some(element) => {
                                if element.is_void_element {
                                    let next = flushed.push(NodeView::Element(element));
                                    lemma_push_respects_void(flushed, NodeView::Element(element));
                                    lemma_nodes_from_respects_void(html, end + 1, end + 1, next);
                                } else {
                                    lemma_nodes_from_respects_void(
                                        html,
                                        end + 1,
                                        end + 1,
                                        Seq::empty(),
                                    );
                                    crate::html_parser::parser::lemma_nodes_from_bounds(
                                        html,
                                        end + 1,
                                        end + 1,
                                        Seq::empty(),
                                    );
                                    match nodes_from(html, end + 1, end + 1, Seq::empty()) {
                                        None => {},
                                        Some((children, after)) => {
                                            let parent = NodeView::Element(
                                                ElementView {
                                                    tag_name: element.tag_name,
                                                    attributes: element.attributes,
                                                    children,
                                                    is_void_element: false,
                                                },
                                            );
                                            let next = flushed.push(parent);
                                            lemma_push_respects_void(flushed, parent);
                                            lemma_nodes_from_respects_void(
                                                html,
                                                after,
                                                after,
                                                next,
                                            );
                                        },
                                    }
                                }
                            },
                        }
                    }
                },
            }
        }
    }
}

/// In every tree that the tokenizer builds, an element whose name is that of
/// a void element has no children, whatever else its tag holds and whatever
/// follows it; and no other element is void.
pub proof fn lemma_void_elements_have_no_children(html: Seq<char>)
    ensures
        match parsed(html) {
            Some(nodes) => nodes_respect_void(nodes),
            None => true,
        },
{
    lemma_nodes_from_respects_void(html, 0, 0, Seq::empty());
}

/// Whether each of the annotations covers at least one character and ends
/// within the first `limit` characters.
pub open spec fn spans_within(spans: Seq<SpannableView>, limit: nat) -> bool {
    forall|i: int|
        0 <= i < spans.len() ==> (#[trigger] spans[i]).len > 0 && spans[i].start + spans[i].len
            <= limit
}

/// Whether each annotation of the output covers at least one character and
/// lies within the text emitted so far.
pub open spec fn in_bounds(out: Rendered) -> bool {
    spans_within(out.spans, total_chars(out.texts))
}

/// Annotations that lie within the text still do when more text is there:
/// the text only grows.
proof fn lemma_with_text_in_bounds(out: Rendered, text: Seq<char>)
    requires
        spans_within(out.spans, total_chars(out.texts) + text.len()),
    ensures
        in_bounds(with_text(out, text)),
{
    lemma_whole_text_push(out.texts, text);
}

/// An annotation that ends within the limit keeps the annotations within
/// it.
proof fn lemma_with_span_within(
    out: Rendered,
    start: nat,
    len: nat,
    data: SpannableDataView,
    limit: nat,
)
    requires
        spans_within(out.spans, limit),
        start + len <= limit,
    ensures
        spans_within(with_span(out, start, len, data).spans, limit),
        with_span(out, start, len, data).texts == out.texts,
{
}

/// An annotation from the end of the text on, over a text that is emitted
/// next, lies within the text.
proof fn lemma_span_and_text_in_bounds(out: Rendered, text: Seq<char>, data: SpannableDataView)
    requires
        in_bounds(out),
    ensures
        in_bounds(with_text(with_span(out, total_chars(out.texts), text.len(), data), text)),
{
    let limit = total_chars(out.texts) + text.len();
    lemma_with_span_within(out, total_chars(out.texts), text.len(), data, limit);
    lemma_with_text_in_bounds(with_span(out, total_chars(out.texts), text.len(), data), text);
}

/// An annotation over all the text from a mark on lies within the text.
proof fn lemma_wrapped_in_bounds(out: Rendered, mark: int, data: SpannableDataView)
    requires
        in_bounds(out),
    ensures
        in_bounds(wrapped(out, mark, data)),
        wrapped(out, mark, data).texts == out.texts,
{
    if 0 <= mark < out.texts.len() {
        lemma_joined_split(out.texts, 0, mark, out.texts.len() as int);
        lemma_with_span_within(
            out,
            chars_between(out.texts, 0, mark),
            chars_between(out.texts, mark, out.texts.len() as int),
            data,
            total_chars(out.texts),
        );
    }
}

/// Annotations over one range that ends within the limit keep the
/// annotations within it.
proof fn lemma_with_spans_within(
    out: Rendered,
    start: nat,
    len: nat,
    data: Seq<SpannableDataView>,
    limit: nat,
)
    requires
        spans_within(out.spans, limit),
        start + len <= limit,
    ensures
        spans_within(with_spans(out, start, len, data).spans, limit),
        with_spans(out, start, len, data).texts == out.texts,
    decreases data.len(),
{
    if data.len() > 0 {
        lemma_with_span_within(out, start, len, data[0], limit);
        lemma_with_spans_within(
            with_span(out, start, len, data[0]),
            start,
            len,
            data.drop_first(),
            limit,
        );
    }
}

/// A quote that is rendered at the end of the text lies within the text.
proof fn lemma_single_post_quote_in_bounds(
    viewer: Viewer,
    out: Rendered,
    link: PostLinkView,
    text: Seq<char>,
)
    requires
        in_bounds(out),
    ensures
        in_bounds(single_post_quote(viewer, out, link, text, total_chars(out.texts))),
{
    lemma_span_and_text_in_bounds(
        out,
        quote_text(viewer, link, text),
        SpannableDataView::Link(link),
    );
}

/// What an anchor renders lies within the text.
proof fn lemma_href_handled_in_bounds(
    viewer: Viewer,
    element: ElementView,
    out: Rendered,
    text: Seq<char>,
)
    requires
        in_bounds(out),
    ensures
        in_bounds(href_handled(viewer, element, out, text)),
{
    match lookup(element.attributes, HREF@) {
        None => {},
        Some(href) => match post_link_of(viewer.thread_posts, href) {
            None => {},
            Some(link) => {
                let unescaped = decoded_entities(text);
                match link {
                    PostLinkView::Quote { .. } | PostLinkView::Dead { .. } => {
                        lemma_single_post_quote_in_bounds(viewer, out, link, unescaped);
                    },
                    PostLinkView::ThreadLink { .. } => {
                        lemma_span_and_text_in_bounds(
                            out,
                            unescaped + CROSS_THREAD_POSTFIX@,
                            SpannableDataView::Link(link),
                        );
                    },
                    _ => {
                        lemma_span_and_text_in_bounds(
                            out,
                            unescaped,
                            SpannableDataView::Link(link),
                        );
                    },
                }
            },
        },
    }
}

/// What a `deadlink` renders lies within the text.
proof fn lemma_deadlink_handled_in_bounds(viewer: Viewer, element: ElementView, out: Rendered)
    requires
        in_bounds(out),
    ensures
        in_bounds(deadlink_handled(viewer, element, out)),
{
    if element.children.len() == 1 {
        match element.children[0] {
            NodeView::Element(_) => {},
            NodeView::Text(raw) => {
                let text = decoded_entities(raw);
                if has_prefix(text, QUOTE_MARKER@) {
                    match decimal_value(text.skip(QUOTE_MARKER@.len() as int)) {
                        Some(post_no) => {
                            lemma_single_post_quote_in_bounds(
                                viewer,
                                out,
                                if viewer.thread_posts.contains(post_no) {
                                    PostLinkView::Quote { post_no }
                                } else {
                                    PostLinkView::Dead { post_no }
                                },
                                text,
                            );
                        },
                        None => {},
                    }
                }
            },
        }
    }
}

/// What a handler renders before the children lies within the text.
proof fn lemma_pre_handled_in_bounds(
    handler: RuleHandler,
    viewer: Viewer,
    element: ElementView,
    out: Rendered,
)
    requires
        in_bounds(out),
    ensures
        in_bounds(handler.pre_handled(viewer, element, out).1),
{
    match handler {
        RuleHandler::Anchor(_) => {
            if element.children.len() == 1 {
                match element.children[0] {
                    NodeView::Text(text) => {
                        lemma_href_handled_in_bounds(viewer, element, out, text);
                    },
                    NodeView::Element(_) => {},
                }
            }
        },
        RuleHandler::LineBreak(_) => {
            lemma_with_text_in_bounds(out, NEW_LINE@);
        },
        RuleHandler::Span(_) => {
            if has_class_view(element, DEADLINK_CLASS@) {
                lemma_deadlink_handled_in_bounds(viewer, element, out);
            }
        },
        _ => {},
    }
}

/// What a handler renders after the children lies within the text.
proof fn lemma_post_handled_in_bounds(
    handler: RuleHandler,
    element: ElementView,
    mark: int,
    out: Rendered,
)
    requires
        in_bounds(out),
    ensures
        in_bounds(handler.post_handled(element, mark, out)),
{
    match handler {
        RuleHandler::Span(_) => {
            if has_class_view(element, QUOTE_CLASS@) {
                lemma_wrapped_in_bounds(out, mark, SpannableDataView::GreenText);
            }
        },
        RuleHandler::Spoiler(_) => {
            lemma_wrapped_in_bounds(out, mark, SpannableDataView::Spoiler);
        },
        RuleHandler::Bold(_) => {
            lemma_wrapped_in_bounds(out, mark, SpannableDataView::BoldText);
        },
        RuleHandler::Pre(_) => {
            lemma_wrapped_in_bounds(out, mark, SpannableDataView::Monospace);
        },
        RuleHandler::Table(_) => {
            lemma_wrapped_in_bounds(out, mark, SpannableDataView::Monospace);
        },
        RuleHandler::TableRow(_) => {
            lemma_with_text_in_bounds(out, NEW_LINE@);
        },
        RuleHandler::TableData(_) => {
            if has_visible(joined(out.texts, mark, out.texts.len() as int)) {
                lemma_with_text_in_bounds(out, CELL_SEPARATOR@);
            }
        },
        RuleHandler::Style(_) => {
            if 0 <= mark < out.texts.len() {
                match lookup(element.attributes, STYLE_ATTR@) {
                    Some(style) => {
                        lemma_joined_split(out.texts, 0, mark, out.texts.len() as int);
                        lemma_with_spans_within(
                            out,
                            chars_between(out.texts, 0, mark),
                            chars_between(out.texts, mark, out.texts.len() as int),
                            decoded_style(style),
                            total_chars(out.texts),
                        );
                    },
                    None => {},
                }
            }
        },
        _ => {},
    }
}

/// What the handlers of one priority render before the children lies within
/// the text.
proof fn lemma_pre_phase_in_bounds(
    rules: Seq<RuleView>,
    matching: Seq<int>,
    high: bool,
    viewer: Viewer,
    element: ElementView,
    k: int,
    out: Rendered,
)
    requires
        in_bounds(out),
    ensures
        in_bounds(pre_phase(rules, matching, high, viewer, element, k, out).1),
    decreases matching.len() - k,
{
    if 0 <= k < matching.len() {
        if 0 <= matching[k] < rules.len() && is_high_priority(rules[matching[k]]) == high {
            let handler = rules[matching[k]].handler;
            lemma_pre_handled_in_bounds(handler, viewer, element, out);
            let step = handler.pre_handled(viewer, element, out);
            if !step.0 {
                lemma_pre_phase_in_bounds(rules, matching, high, viewer, element, k + 1, step.1);
            }
        } else {
            lemma_pre_phase_in_bounds(rules, matching, high, viewer, element, k + 1, out);
        }
    }
}

/// What the handlers of one priority render after the children lies within
/// the text.
proof fn lemma_post_phase_in_bounds(
    rules: Seq<RuleView>,
    matching: Seq<int>,
    high: bool,
    element: ElementView,
    mark: int,
    k: int,
    out: Rendered,
)
    requires
        in_bounds(out),
    ensures
        in_bounds(post_phase(rules, matching, high, element, mark, k, out)),
    decreases matching.len() - k,
{
    if 0 <= k < matching.len() {
        if 0 <= matching[k] < rules.len() && is_high_priority(rules[matching[k]]) == high {
            let handler = rules[matching[k]].handler;
            lemma_post_handled_in_bounds(handler, element, mark, out);
            lemma_post_phase_in_bounds(
                rules,
                matching,
                high,
                element,
                mark,
                k + 1,
                handler.post_handled(element, mark, out),
            );
        } else {
            lemma_post_phase_in_bounds(rules, matching, high, element, mark, k + 1, out);
        }
    }
}

/// The characters before an address and those of the address are not more
/// than the text has.
proof fn lemma_link_span_within(text: Seq<char>, base: nat, from: int, to: int)
    ensures
        match link_span(text, base, from, to) {
            Some(span) => span.len > 0 ==> span.start + span.len <= base + text.len(),
            None => true,
        },
{
    broadcast use vstd::utf8::group_utf8_lib;

    if from < to && sliceable(text, 0, from) && sliceable(text, from, to) {
        let bytes = encode_utf8(text);
        assert(valid_utf8(bytes));
        assert(decode_utf8(bytes) == text);
        let head = bytes.subrange(0, to);
        lemma_boundary_in_prefix(bytes, from, to);
        vstd::utf8::decode_utf8_split(bytes, to);
        vstd::utf8::decode_utf8_split(head, from);
        assert(head.subrange(0, from) == bytes.subrange(0, from));
        assert(head.subrange(from, head.len() as int) == bytes.subrange(from, to));
        assert(decode_utf8(head).len() == bytes_between(text, 0, from).len() + bytes_between(
            text,
            from,
            to,
        ).len());
        assert(text.len() == decode_utf8(head).len() + decode_utf8(
            bytes.subrange(to, bytes.len() as int),
        ).len());
    }
}

/// The annotations of the addresses in a text end within the text.
proof fn lemma_link_scan_within(text: Seq<char>, base: nat, offset: int, spans: Seq<SpannableView>)
    requires
        spans_within(spans, base + text.len()),
    ensures
        spans_within(link_scan(text, base, offset, spans), base + text.len()),
    decreases
            (if 0 <= offset <= encode_utf8(text).len() {
                encode_utf8(text).len() - offset + 1
            } else {
                0
            }),
{
    if 0 <= offset <= encode_utf8(text).len() {
        match capture_spans(LINK_PATTERN@, text, offset) {
            None => {},
            Some(groups) => {
                if groups.len() > 0 {
                    match groups[0] {
                        None => {},
                        Some((from, to)) => {
                            lemma_link_span_within(text, base, from as int, to as int);
                            lemma_link_scan_within(
                                text,
                                base,
                                if to > offset {
                                    to as int
                                } else {
                                    offset + 1
                                },
                                with_link(spans, link_span(text, base, from as int, to as int)),
                            );
                        },
                    }
                }
            },
        }
    }
}

/// What rendering a node adds lies within the text.
proof fn lemma_rendered_node_in_bounds(
    rules: Seq<RuleView>,
    viewer: Viewer,
    node: NodeView,
    out: Rendered,
)
    requires
        in_bounds(out),
    ensures
        in_bounds(rendered_node(rules, viewer, node, out)),
    decreases node,
{
    match node {
        NodeView::Text(raw) => {
            let text = decoded_entities(raw);
            lemma_link_scan_within(text, total_chars(out.texts), 0, out.spans);
            lemma_whole_text_push(out.texts, text);
        },
        NodeView::Element(element) => {
            let matching = matching_rules(rules, element);
            lemma_pre_phase_in_bounds(rules, matching, true, viewer, element, 0, out);
            let high = pre_phase(rules, matching, true, viewer, element, 0, out);
            if !high.0 {
                lemma_pre_phase_in_bounds(rules, matching, false, viewer, element, 0, high.1);
            }
            let before = pre_processed(rules, viewer, element, out);
            if !(before.0 || element.children.len() == 0) {
                lemma_rendered_nodes_in_bounds(rules, viewer, element.children, before.1);
                let inner = rendered_nodes(rules, viewer, element.children, before.1);
                let mark = text_mark(out.texts);
                lemma_post_phase_in_bounds(rules, matching, true, element, mark, 0, inner);
                lemma_post_phase_in_bounds(
                    rules,
                    matching,
                    false,
                    element,
                    mark,
                    0,
                    post_phase(rules, matching, true, element, mark, 0, inner),
                );
            }
        },
    }
}

/// What rendering nodes adds lies within the text.
proof fn lemma_rendered_nodes_in_bounds(
    rules: Seq<RuleView>,
    viewer: Viewer,
    nodes: Seq<NodeView>,
    out: Rendered,
)
    requires
        in_bounds(out),
    ensures
        in_bounds(rendered_nodes(rules, viewer, nodes, out)),
    decreases nodes,
{
    if nodes.len() > 0 {
        lemma_rendered_nodes_in_bounds(rules, viewer, nodes.drop_last(), out);
        lemma_rendered_node_in_bounds(
            rules,
            viewer,
            nodes.last(),
            rendered_nodes(rules, viewer, nodes.drop_last(), out),
        );
    }
}

/// The annotations of theme descriptions lie within the text.
proof fn lemma_theme_spans_within(text: Seq<char>, parts: Seq<(int, int)>)
    ensures
        spans_within(theme_spans_of(text, parts), text.len()),
    decreases parts.len(),
{
    if parts.len() > 0 {
        lemma_theme_spans_within(text, parts.drop_last());
    }
}

/// Every annotation of a rendered comment covers at least one character and
/// lies within the rendered text: its start and its length, added, are at
/// most the number of characters of the text. This holds whatever rules and
/// replacements are registered.
pub proof fn lemma_spans_in_bounds(
    rules: Seq<RuleView>,
    replacements: Seq<(Seq<char>, Seq<char>)>,
    viewer: Viewer,
    com: Seq<char>,
)
    ensures
        spans_within(
            parsed_comment(rules, replacements, viewer, com).spans,
            parsed_comment(rules, replacements, viewer, com).parsed_text.len(),
        ),
{
    let raw = with_replacements(com, replacements);
    if !(com.len() == 0 || raw.len() == 0) {
        match parsed(raw) {
            None => {},
            Some(nodes) => {
                let start = Rendered { texts: Seq::empty(), spans: Seq::empty() };
                lemma_rendered_nodes_in_bounds(rules, viewer, nodes, start);
                let out = rendered_nodes(rules, viewer, nodes, start);
                lemma_theme_spans_within(whole_text(out.texts), json_parts(whole_text(out.texts)));
            },
        }
    }
}

/// The pieces of text that rendering the comment `com` emits, in the order
/// in which it emits them: none for a comment that is empty or cannot be
/// parsed.
pub open spec fn emitted_texts(
    rules: Seq<RuleView>,
    replacements: Seq<(Seq<char>, Seq<char>)>,
    viewer: Viewer,
    com: Seq<char>,
) -> Seq<Seq<char>> {
    let raw = with_replacements(com, replacements);
    if com.len() == 0 || raw.len() == 0 {
        Seq::empty()
    } else {
        match parsed(raw) {
            Some(nodes) => rendered_nodes(
                rules,
                viewer,
                nodes,
                Rendered { texts: Seq::empty(), spans: Seq::empty() },
            ).texts,
            None => Seq::empty(),
        }
    }
}

/// Whether the comment `com` can be parsed once the replacements are made.
pub open spec fn can_be_parsed(replacements: Seq<(Seq<char>, Seq<char>)>, com: Seq<char>) -> bool {
    com.len() == 0 || with_replacements(com, replacements).len() == 0 || parsed(
        with_replacements(com, replacements),
    ) is Some
}

/// The text of a rendered comment is its pieces of text, joined in the
/// order in which they were emitted. A comment that cannot be parsed is no
/// case of this: its text is a notice, and no piece is emitted.
pub proof fn lemma_text_is_the_pieces_joined(
    rules: Seq<RuleView>,
    replacements: Seq<(Seq<char>, Seq<char>)>,
    viewer: Viewer,
    com: Seq<char>,
)
    requires
        can_be_parsed(replacements, com),
    ensures
        parsed_comment(rules, replacements, viewer, com).parsed_text == whole_text(
            emitted_texts(rules, replacements, viewer, com),
        ),
{
    assert(whole_text(Seq::<Seq<char>>::empty()) == Seq::<char>::empty());
}

/// Whether `part` bounds a block of `text`: it lies within the text, begins
/// with an opening brace and ends with a closing one.
pub open spec fn is_block(text: Seq<char>, part: (int, int)) -> bool {
    &&& 0 <= part.0 < part.1 <= text.len()
    &&& text[part.0] == '{'
    &&& text[part.1 - 1] == '}'
}

/// Whether `parts` bound blocks of `text` that follow one another without
/// overlap and end at or before `limit`.
pub open spec fn are_blocks(text: Seq<char>, parts: Seq<(int, int)>, limit: int) -> bool {
    &&& forall|k: int| 0 <= k < parts.len() ==> is_block(text, #[trigger] parts[k])
    &&& forall|k: int| 0 <= k < parts.len() ==> (#[trigger] parts[k]).1 <= limit
    &&& forall|j: int, k: int|
        0 <= j < k < parts.len() ==> (#[trigger] parts[j]).1 <= (#[trigger] parts[k]).0
}

/// Collecting on keeps the blocks in order and within the text.
proof fn lemma_json_parts_from_are_blocks(
    text: Seq<char>,
    i: int,
    depth: int,
    open: int,
    found: Seq<(int, int)>,
)
    requires
        0 <= i <= text.len(),
        depth >= 0,
        depth > 0 ==> 0 <= open < i && text[open] == '{',
        are_blocks(
            text,
            found,
            if depth > 0 {
                open
            } else {
                i
            },
        ),
    ensures
        are_blocks(text, json_parts_from(text, i, depth, open, found), text.len() as int),
    decreases text.len() - i,
{
    if i < text.len() {
        if text[i] == '{' {
            lemma_json_parts_from_are_blocks(
                text,
                i + 1,
                depth + 1,
                if depth == 0 {
                    i
                } else {
                    open
                },
                found,
            );
        } else if text[i] == '}' {
            if depth == 1 {
                let more = found.push((open, i + 1));
                assert forall|k: int| 0 <= k < more.len() implies is_block(
                    text,
                    #[trigger] more[k],
                ) && more[k].1 <= i + 1 by {
                    if k < found.len() {
                        assert(more[k] == found[k]);
                    }
                }
                assert forall|j: int, k: int| 0 <= j < k < more.len() implies (#[trigger] more[j]).1
                    <= (#[trigger] more[k]).0 by {
                    assert(more[j] == found[j]);
                    if k < found.len() {
                        assert(more[k] == found[k]);
                    }
                }
                lemma_json_parts_from_are_blocks(text, i + 1, 0, open, more);
            } else if depth > 1 {
                lemma_json_parts_from_are_blocks(text, i + 1, depth - 1, open, found);
            }
        } else {
            lemma_json_parts_from_are_blocks(text, i + 1, depth, open, found);
        }
    }
}

/// The blocks that are found in a text lie within it, one behind the other
/// without overlap, and each begins with an opening brace and ends with a
/// closing one.
pub proof fn lemma_json_parts_are_blocks(text: Seq<char>)
    ensures
        are_blocks(text, json_parts(text), text.len() as int),
{
    lemma_json_parts_from_are_blocks(text, 0, 0, 0, Seq::empty());
}

/// The digits that show a number read back as that number.
pub proof fn lemma_decimal_digits_read_back(n: nat)
    ensures
        decimal_digits(n).len() > 0,
        all_digits(decimal_digits(n)),
        decimal_number(decimal_digits(n)) == n,
        n <= u64::MAX ==> decimal_value(decimal_digits(n)) == Some(n as u64),
    decreases n,
{
    if n < 10 {
        let digits = decimal_digits(n);
        assert(digits.drop_last() == Seq::<char>::empty());
        assert(decimal_number(digits.drop_last()) == 0);
        assert(digits.last() == digit_of(n));
    } else {
        lemma_decimal_digits_read_back(n / 10);
        let digits = decimal_digits(n);
        assert(digits.drop_last() == decimal_digits(n / 10));
        assert(digits.last() == digit_of(n % 10));
        assert forall|i: int| 0 <= i < digits.len() implies '0' <= #[trigger] digits[i] <= '9' by {
            if i < digits.len() - 1 {
                assert(digits[i] == decimal_digits(n / 10)[i]);
            }
        }
    }
}

} // verus!
