//! Rendering only adds to the output: what was emitted stays where it is. So
//! an annotation that a handler lays over what its element added covers
//! exactly that.

use crate::comment_parser::{
    is_high_priority, matching_rules, post_phase, pre_phase, pre_processed, RuleView,
};
use crate::entities::decoded_entities;
use crate::html_parser::attributes::lookup;
use crate::html_parser::element::{has_class_view, ElementView};
use crate::html_parser::node::NodeView;
use crate::pattern::capture_spans;
use crate::post_parser::{link_scan, link_span, rendered_node, rendered_nodes, with_link, LINK_PATTERN};
use crate::rules::anchor::{
    href_handled, post_link_of, quote_text, single_post_quote, CROSS_THREAD_POSTFIX, HREF,
};
use crate::rules::line_break::NEW_LINE;
use crate::rules::rule_handler::{
    span_is_kept, text_mark, with_span, with_text, wrapped, Rendered, RuleHandler, Viewer,
};
use crate::rules::span::{
    deadlink_handled, span_post_handled, SpanHandler, DEADLINK_CLASS, QUOTE_CLASS, QUOTE_MARKER,
};
use crate::rules::style::{with_spans, STYLE_ATTR};
use crate::rules::table_data::{has_visible, CELL_SEPARATOR};
use crate::spannable::{PostLinkView, SpannableDataView, SpannableView};
use crate::text::{decimal_value, has_prefix};
use crate::text_part::{
    chars_between, joined, lemma_joined_agrees, lemma_joined_split, total_chars,
};
use crate::util::style_tag_value_decoder::decoded_style;
use vstd::prelude::*;
use vstd::utf8::encode_utf8;

verus! {

/// Whether `longer` begins with all of `shorter`.
pub open spec fn begins_with<T>(longer: Seq<T>, shorter: Seq<T>) -> bool {
    shorter.len() <= longer.len() && longer.take(shorter.len() as int) == shorter
}

/// Whether `after` holds all the pieces of text and all the annotations of
/// `before`, in their places, and perhaps more behind them.
pub open spec fn extends(after: Rendered, before: Rendered) -> bool {
    begins_with(after.texts, before.texts) && begins_with(after.spans, before.spans)
}

/// What begins with a sequence that begins with a third begins with the
/// third.
proof fn lemma_begins_with_chain<T>(a: Seq<T>, b: Seq<T>, c: Seq<T>)
    requires
        begins_with(a, b),
        begins_with(b, c),
    ensures
        begins_with(a, c),
{
    assert(a.take(c.len() as int) =~= a.take(b.len() as int).take(c.len() as int));
}

/// An output extends itself.
proof fn lemma_extends_itself(out: Rendered)
    ensures
        extends(out, out),
{
    assert(out.texts.take(out.texts.len() as int) == out.texts);
    assert(out.spans.take(out.spans.len() as int) == out.spans);
}

/// What extends an output that extends a third extends the third.
proof fn lemma_extends_chain(a: Rendered, b: Rendered, c: Rendered)
    requires
        extends(a, b),
        extends(b, c),
    ensures
        extends(a, c),
{
    lemma_begins_with_chain(a.texts, b.texts, c.texts);
    lemma_begins_with_chain(a.spans, b.spans, c.spans);
}

/// One more piece of text extends the output.
proof fn lemma_with_text_extends(out: Rendered, text: Seq<char>)
    ensures
        extends(with_text(out, text), out),
{
    assert(out.texts.push(text).take(out.texts.len() as int) == out.texts);
    assert(out.spans.take(out.spans.len() as int) == out.spans);
}

/// One more annotation extends the output.
proof fn lemma_with_span_extends(out: Rendered, start: nat, len: nat, data: SpannableDataView)
    ensures
        extends(with_span(out, start, len, data), out),
{
    assert(out.texts.take(out.texts.len() as int) == out.texts);
    assert(out.spans.take(out.spans.len() as int) == out.spans);
    if span_is_kept(start, len) {
        assert(out.spans.push(SpannableView { start, len, data }).take(out.spans.len() as int)
            == out.spans);
    }
}

/// An annotation and then a piece of text extend the output.
proof fn lemma_span_and_text_extend(
    out: Rendered,
    start: nat,
    len: nat,
    data: SpannableDataView,
    text: Seq<char>,
)
    ensures
        extends(with_text(with_span(out, start, len, data), text), out),
{
    lemma_with_span_extends(out, start, len, data);
    lemma_with_text_extends(with_span(out, start, len, data), text);
    lemma_extends_chain(
        with_text(with_span(out, start, len, data), text),
        with_span(out, start, len, data),
        out,
    );
}

/// An annotation over the text from a mark on extends the output.
proof fn lemma_wrapped_extends(out: Rendered, mark: int, data: SpannableDataView)
    ensures
        extends(wrapped(out, mark, data), out),
{
    lemma_extends_itself(out);
    if 0 <= mark < out.texts.len() {
        lemma_with_span_extends(
            out,
            chars_between(out.texts, 0, mark),
            chars_between(out.texts, mark, out.texts.len() as int),
            data,
        );
    }
}

/// Annotations over one range extend the output.
proof fn lemma_with_spans_extends(
    out: Rendered,
    start: nat,
    len: nat,
    data: Seq<SpannableDataView>,
)
    ensures
        extends(with_spans(out, start, len, data), out),
    decreases data.len(),
{
    if data.len() > 0 {
        let next = with_span(out, start, len, data[0]);
        lemma_with_span_extends(out, start, len, data[0]);
        lemma_with_spans_extends(next, start, len, data.drop_first());
        lemma_extends_chain(with_spans(next, start, len, data.drop_first()), next, out);
    } else {
        lemma_extends_itself(out);
    }
}

/// A rendered quote extends the output.
proof fn lemma_single_post_quote_extends(
    viewer: Viewer,
    out: Rendered,
    link: PostLinkView,
    text: Seq<char>,
    span_start: nat,
)
    ensures
        extends(single_post_quote(viewer, out, link, text, span_start), out),
{
    let shown = quote_text(viewer, link, text);
    lemma_span_and_text_extend(out, span_start, shown.len(), SpannableDataView::Link(link), shown);
}

/// What an anchor renders extends the output.
proof fn lemma_href_handled_extends(
    viewer: Viewer,
    element: ElementView,
    out: Rendered,
    text: Seq<char>,
)
    ensures
        extends(href_handled(viewer, element, out, text), out),
{
    lemma_extends_itself(out);
    match lookup(element.attributes, HREF@) {
        None => {},
        Some(href) => match post_link_of(viewer.thread_posts, href) {
            None => {},
            Some(link) => {
                let unescaped = decoded_entities(text);
                let total = total_chars(out.texts);
                match link {
                    PostLinkView::Quote { .. } | PostLinkView::Dead { .. } => {
                        lemma_single_post_quote_extends(viewer, out, link, unescaped, total);
                    },
                    PostLinkView::ThreadLink { .. } => {
                        lemma_span_and_text_extend(
                            out,
                            total,
                            (unescaped + CROSS_THREAD_POSTFIX@).len(),
                            SpannableDataView::Link(link),
                            unescaped + CROSS_THREAD_POSTFIX@,
                        );
                    },
                    _ => {
                        lemma_span_and_text_extend(
                            out,
                            total,
                            unescaped.len(),
                            SpannableDataView::Link(link),
                            unescaped,
                        );
                    },
                }
            },
        },
    }
}

/// What a `deadlink` renders extends the output.
proof fn lemma_deadlink_handled_extends(viewer: Viewer, element: ElementView, out: Rendered)
    ensures
        extends(deadlink_handled(viewer, element, out), out),
{
    lemma_extends_itself(out);
    if element.children.len() == 1 {
        match element.children[0] {
            NodeView::Element(_) => {},
            NodeView::Text(raw) => {
                let text = decoded_entities(raw);
                if has_prefix(text, QUOTE_MARKER@) {
                    match decimal_value(text.skip(QUOTE_MARKER@.len() as int)) {
                        Some(post_no) => {
                            lemma_single_post_quote_extends(
                                viewer,
                                out,
                                if viewer.thread_posts.contains(post_no) {
                                    PostLinkView::Quote { post_no }
                                } else {
                                    PostLinkView::Dead { post_no }
                                },
                                text,
                                total_chars(out.texts),
                            );
                        },
                        None => {},
                    }
                }
            },
        }
    }
}

/// What a handler renders before the children extends the output.
proof fn lemma_pre_handled_extends(
    handler: RuleHandler,
    viewer: Viewer,
    element: ElementView,
    out: Rendered,
)
    ensures
        extends(handler.pre_handled(viewer, element, out).1, out),
{
    lemma_extends_itself(out);
    match handler {
        RuleHandler::Anchor(_) => {
            if element.children.len() == 1 {
                match element.children[0] {
                    NodeView::Text(text) => {
                        lemma_href_handled_extends(viewer, element, out, text);
                    },
                    NodeView::Element(_) => {},
                }
            }
        },
        RuleHandler::LineBreak(_) => {
            lemma_with_text_extends(out, NEW_LINE@);
        },
        RuleHandler::Span(_) => {
            if has_class_view(element, DEADLINK_CLASS@) {
                lemma_deadlink_handled_extends(viewer, element, out);
            }
        },
        _ => {},
    }
}

/// What a handler renders after the children extends the output.
proof fn lemma_post_handled_extends(
    handler: RuleHandler,
    element: ElementView,
    mark: int,
    out: Rendered,
)
    ensures
        extends(handler.post_handled(element, mark, out), out),
{
    lemma_extends_itself(out);
    match handler {
        RuleHandler::Span(_) => {
            if has_class_view(element, QUOTE_CLASS@) {
                lemma_wrapped_extends(out, mark, SpannableDataView::GreenText);
            }
        },
        RuleHandler::Spoiler(_) => {
            lemma_wrapped_extends(out, mark, SpannableDataView::Spoiler);
        },
        RuleHandler::Bold(_) => {
            lemma_wrapped_extends(out, mark, SpannableDataView::BoldText);
        },
        RuleHandler::Pre(_) => {
            lemma_wrapped_extends(out, mark, SpannableDataView::Monospace);
        },
        RuleHandler::Table(_) => {
            lemma_wrapped_extends(out, mark, SpannableDataView::Monospace);
        },
        RuleHandler::TableRow(_) => {
            lemma_with_text_extends(out, NEW_LINE@);
        },
        RuleHandler::TableData(_) => {
            if has_visible(joined(out.texts, mark, out.texts.len() as int)) {
                lemma_with_text_extends(out, CELL_SEPARATOR@);
            }
        },
        RuleHandler::Style(_) => {
            if 0 <= mark < out.texts.len() {
                match lookup(element.attributes, STYLE_ATTR@) {
                    Some(style) => {
                        lemma_with_spans_extends(
                            out,
                            chars_between(out.texts, 0, mark),
                            chars_between(out.texts, mark, out.texts.len() as int),
                            decoded_style(style),
                        );
                    },
                    None => {},
                }
            }
        },
        _ => {},
    }
}

/// What the handlers of one priority render before the children extends the
/// output.
proof fn lemma_pre_phase_extends(
    rules: Seq<RuleView>,
    matching: Seq<int>,
    high: bool,
    viewer: Viewer,
    element: ElementView,
    k: int,
    out: Rendered,
)
    ensures
        extends(pre_phase(rules, matching, high, viewer, element, k, out).1, out),
    decreases matching.len() - k,
{
    lemma_extends_itself(out);
    if 0 <= k < matching.len() {
        if 0 <= matching[k] < rules.len() && is_high_priority(rules[matching[k]]) == high {
            let handler = rules[matching[k]].handler;
            lemma_pre_handled_extends(handler, viewer, element, out);
            let step = handler.pre_handled(viewer, element, out);
            if !step.0 {
                lemma_pre_phase_extends(rules, matching, high, viewer, element, k + 1, step.1);
                lemma_extends_chain(
                    pre_phase(rules, matching, high, viewer, element, k + 1, step.1).1,
                    step.1,
                    out,
                );
            }
        } else {
            lemma_pre_phase_extends(rules, matching, high, viewer, element, k + 1, out);
        }
    }
}

/// What the handlers render before the children extends the output.
proof fn lemma_pre_processed_extends(
    rules: Seq<RuleView>,
    viewer: Viewer,
    element: ElementView,
    out: Rendered,
)
    ensures
        extends(pre_processed(rules, viewer, element, out).1, out),
{
    let matching = matching_rules(rules, element);
    lemma_pre_phase_extends(rules, matching, true, viewer, element, 0, out);
    let high = pre_phase(rules, matching, true, viewer, element, 0, out);
    if !high.0 {
        lemma_pre_phase_extends(rules, matching, false, viewer, element, 0, high.1);
        lemma_extends_chain(
            pre_phase(rules, matching, false, viewer, element, 0, high.1).1,
            high.1,
            out,
        );
    }
}

/// What the handlers of one priority render after the children extends the
/// output.
proof fn lemma_post_phase_extends(
    rules: Seq<RuleView>,
    matching: Seq<int>,
    high: bool,
    element: ElementView,
    mark: int,
    k: int,
    out: Rendered,
)
    ensures
        extends(post_phase(rules, matching, high, element, mark, k, out), out),
    decreases matching.len() - k,
{
    lemma_extends_itself(out);
    if 0 <= k < matching.len() {
        if 0 <= matching[k] < rules.len() && is_high_priority(rules[matching[k]]) == high {
            let handler = rules[matching[k]].handler;
            let next = handler.post_handled(element, mark, out);
            lemma_post_handled_extends(handler, element, mark, out);
            lemma_post_phase_extends(rules, matching, high, element, mark, k + 1, next);
            lemma_extends_chain(
                post_phase(rules, matching, high, element, mark, k + 1, next),
                next,
                out,
            );
        } else {
            lemma_post_phase_extends(rules, matching, high, element, mark, k + 1, out);
        }
    }
}

/// The annotations of the addresses in a text come behind those that are
/// there.
proof fn lemma_link_scan_extends(text: Seq<char>, base: nat, offset: int, spans: Seq<SpannableView>)
    ensures
        begins_with(link_scan(text, base, offset, spans), spans),
    decreases
            (if 0 <= offset <= encode_utf8(text).len() {
                encode_utf8(text).len() - offset + 1
            } else {
                0
            }),
{
    assert(spans.take(spans.len() as int) == spans);
    if 0 <= offset <= encode_utf8(text).len() {
        match capture_spans(LINK_PATTERN@, text, offset) {
            None => {},
            Some(groups) => {
                if groups.len() > 0 {
                    match groups[0] {
                        None => {},
                        Some((from, to)) => {
                            let more = with_link(
                                spans,
                                link_span(text, base, from as int, to as int),
                            );
                            assert(more.take(spans.len() as int) == spans);
                            let next = if to > offset {
                                to as int
                            } else {
                                offset + 1
                            };
                            lemma_link_scan_extends(text, base, next, more);
                            lemma_begins_with_chain(
                                link_scan(text, base, next, more),
                                more,
                                spans,
                            );
                        },
                    }
                }
            },
        }
    }
}

/// Rendering a node extends the output.
pub proof fn lemma_rendered_node_extends(
    rules: Seq<RuleView>,
    viewer: Viewer,
    node: NodeView,
    out: Rendered,
)
    ensures
        extends(rendered_node(rules, viewer, node, out), out),
    decreases node,
{
    match node {
        NodeView::Text(raw) => {
            let text = decoded_entities(raw);
            lemma_link_scan_extends(text, total_chars(out.texts), 0, out.spans);
            assert(out.texts.push(text).take(out.texts.len() as int) == out.texts);
        },
        NodeView::Element(element) => {
            lemma_pre_processed_extends(rules, viewer, element, out);
            let before = pre_processed(rules, viewer, element, out);
            if !(before.0 || element.children.len() == 0) {
                let matching = matching_rules(rules, element);
                let mark = text_mark(out.texts);
                lemma_rendered_nodes_extends(rules, viewer, element.children, before.1);
                let inner = rendered_nodes(rules, viewer, element.children, before.1);
                lemma_extends_chain(inner, before.1, out);
                let high = post_phase(rules, matching, true, element, mark, 0, inner);
                lemma_post_phase_extends(rules, matching, true, element, mark, 0, inner);
                lemma_extends_chain(high, inner, out);
                lemma_post_phase_extends(rules, matching, false, element, mark, 0, high);
                lemma_extends_chain(
                    post_phase(rules, matching, false, element, mark, 0, high),
                    high,
                    out,
                );
            }
        },
    }
}

/// Rendering nodes extends the output: every piece of text and every
/// annotation that was there stays in its place.
pub proof fn lemma_rendered_nodes_extends(
    rules: Seq<RuleView>,
    viewer: Viewer,
    nodes: Seq<NodeView>,
    out: Rendered,
)
    ensures
        extends(rendered_nodes(rules, viewer, nodes, out), out),
    decreases nodes,
{
    if nodes.len() > 0 {
        let before = rendered_nodes(rules, viewer, nodes.drop_last(), out);
        lemma_rendered_nodes_extends(rules, viewer, nodes.drop_last(), out);
        lemma_rendered_node_extends(rules, viewer, nodes.last(), before);
        lemma_extends_chain(rendered_node(rules, viewer, nodes.last(), before), before, out);
    } else {
        lemma_extends_itself(out);
    }
}

/// In an output that extends another, the characters before the other's
/// last piece are the other's, and the rest is what was added.
pub proof fn lemma_added_characters(after: Rendered, before: Rendered)
    requires
        extends(after, before),
    ensures
        chars_between(after.texts, 0, before.texts.len() as int) == total_chars(before.texts),
        chars_between(after.texts, before.texts.len() as int, after.texts.len() as int)
            == total_chars(after.texts) - total_chars(before.texts),
{
    let mark = before.texts.len() as int;
    assert forall|i: int| 0 <= i < mark implies after.texts[i] == before.texts[i] by {
        assert(after.texts.take(mark)[i] == before.texts[i]);
    }
    lemma_joined_agrees(after.texts, before.texts, 0, mark);
    lemma_joined_split(after.texts, 0, mark, after.texts.len() as int);
}

/// The handler of `<span>` lays greentext over exactly what is emitted from
/// the mark on: if that is at least one character, and the numbers fit the
/// machine's word, one annotation is added behind those that are there. It
/// starts where the characters before the mark end and covers the rest.
pub proof fn lemma_greentext_covers_from_the_mark(element: ElementView, out: Rendered, mark: int)
    requires
        has_class_view(element, QUOTE_CLASS@),
        0 <= mark <= out.texts.len(),
        chars_between(out.texts, mark, out.texts.len() as int) > 0,
        total_chars(out.texts) <= usize::MAX,
    ensures
        span_post_handled(element, out, mark) == (Rendered {
            texts: out.texts,
            spans: out.spans.push(
                SpannableView {
                    start: chars_between(out.texts, 0, mark),
                    len: chars_between(out.texts, mark, out.texts.len() as int),
                    data: SpannableDataView::GreenText,
                },
            ),
        }),
{
    lemma_joined_split(out.texts, 0, mark, out.texts.len() as int);
}

/// Greentext wraps exactly what its element rendered. Let an element of the
/// class `quote` be entered when `out` is the output, and let `inner` be the
/// output when its children are rendered. If they rendered at least one
/// character, the handler of `<span>` then adds exactly one annotation: from
/// the number of characters of `out` on, over the characters that were
/// added. Whatever the children emitted, annotations too, stays in place
/// before it, so that annotations over equal ranges stack. This holds where
/// the number of characters fits the machine's word.
pub proof fn lemma_greentext_wraps_its_subtree(
    rules: Seq<RuleView>,
    viewer: Viewer,
    element: ElementView,
    out: Rendered,
)
    requires
        has_class_view(element, QUOTE_CLASS@),
        total_chars(
            rendered_nodes(
                rules,
                viewer,
                element.children,
                pre_processed(rules, viewer, element, out).1,
            ).texts,
        ) > total_chars(out.texts),
        total_chars(
            rendered_nodes(
                rules,
                viewer,
                element.children,
                pre_processed(rules, viewer, element, out).1,
            ).texts,
        ) <= usize::MAX,
    ensures
        ({
            let inner = rendered_nodes(
                rules,
                viewer,
                element.children,
                pre_processed(rules, viewer, element, out).1,
            );
            &&& extends(inner, out)
            &&& RuleHandler::Span(SpanHandler {  }).post_handled(
                element,
                text_mark(out.texts),
                inner,
            ) == (Rendered {
                texts: inner.texts,
                spans: inner.spans.push(
                    SpannableView {
                        start: total_chars(out.texts),
                        len: (total_chars(inner.texts) - total_chars(out.texts)) as nat,
                        data: SpannableDataView::GreenText,
                    },
                ),
            })
        }),
{
    let before = pre_processed(rules, viewer, element, out).1;
    let inner = rendered_nodes(rules, viewer, element.children, before);
    lemma_pre_processed_extends(rules, viewer, element, out);
    lemma_rendered_nodes_extends(rules, viewer, element.children, before);
    lemma_extends_chain(inner, before, out);
    lemma_added_characters(inner, out);
    lemma_greentext_covers_from_the_mark(element, inner, text_mark(out.texts));
}

} // verus!
