//! The rule for `<span>`: greentext, and quotes of posts that the site gave
//! up on.

use crate::entities::{decode_entities, decoded_entities};
use crate::html_parser::element::{
    element_view, has_class_view, lemma_nodes_view_index, Element, ElementView,
};
use crate::html_parser::node::{Node, NodeView};
use crate::post::{PostParserContext, PostRaw};
use crate::rules::anchor::{handle_single_post_quote, single_post_quote};
use crate::rules::rule_handler::{
    rendered, viewer_of, wrapped, Rendered, RuleHandlerPostHandleMeta, Viewer,
};
use crate::spannable::{PostLink, PostLinkView, Spannable, SpannableData, SpannableDataView};
use crate::text::{decimal_value, has_prefix, parse_decimal, starts_with, to_chars};
use crate::text_part::{count_chars, total_chars, TextPart};
use vstd::prelude::*;

verus! {

/// The class of a quote of a post that the site did not resolve.
pub const DEADLINK_CLASS: &'static str = "deadlink";

/// The class of greentext.
pub const QUOTE_CLASS: &'static str = "quote";

/// What the text of a quote begins with.
pub const QUOTE_MARKER: &'static str = ">>";

/// The output after a `deadlink` was rendered. If its only child is a text
/// that, decoded, is `>>` and a number, it is rendered as a quote of that
/// post, which is dead unless the post is held locally. In every other case
/// nothing is added.
pub open spec fn deadlink_handled(viewer: Viewer, element: ElementView, out: Rendered) -> Rendered {
    if element.children.len() != 1 {
        out
    } else {
        match element.children[0] {
            NodeView::Element(_) => out,
            NodeView::Text(raw) => {
                let text = decoded_entities(raw);
                if has_prefix(text, QUOTE_MARKER@) {
                    match decimal_value(text.skip(QUOTE_MARKER@.len() as int)) {
                        Some(post_no) => single_post_quote(
                            viewer,
                            out,
                            if viewer.thread_posts.contains(post_no) {
                                PostLinkView::Quote { post_no }
                            } else {
                                PostLinkView::Dead { post_no }
                            },
                            text,
                            total_chars(out.texts),
                        ),
                        None => out,
                    }
                } else {
                    out
                }
            },
        }
    }
}

/// What the handler of `<span>` does before the children are rendered: a
/// `deadlink` is rendered and done; every other span is left to its children.
pub open spec fn span_pre_handled(viewer: Viewer, element: ElementView, out: Rendered) -> (
    bool,
    Rendered,
) {
    if has_class_view(element, DEADLINK_CLASS@) {
        (true, deadlink_handled(viewer, element, out))
    } else {
        (false, out)
    }
}

/// What the handler of `<span>` does after the children were rendered: the
/// text of a `quote` is marked as greentext.
pub open spec fn span_post_handled(element: ElementView, out: Rendered, mark: int) -> Rendered {
    if has_class_view(element, QUOTE_CLASS@) {
        wrapped(out, mark, SpannableDataView::GreenText)
    } else {
        out
    }
}

/// The handler of `<span>`.
pub struct SpanHandler {}

impl SpanHandler {
    /// The handler.
    pub fn new() -> SpanHandler {
        SpanHandler {  }
    }

    /// Renders the span before its children, as `span_pre_handled` says:
    /// the result tells whether the element is done.
    pub fn pre_handle(
        &self,
        post_raw: &PostRaw,
        post_parser_context: &PostParserContext,
        element: &Element,
        out_text_parts: &mut Vec<TextPart>,
        out_spannables: &mut Vec<Spannable>,
    ) -> (done: bool)
        ensures
            (done, rendered(final(out_text_parts)@, final(out_spannables)@)) == span_pre_handled(
                viewer_of(*post_raw, *post_parser_context),
                element_view(*element),
                rendered(old(out_text_parts)@, old(out_spannables)@),
            ),
    {
        if element.has_class(DEADLINK_CLASS) {
            return self.handle_deadlink_class(
                post_raw,
                post_parser_context,
                element,
                out_text_parts,
                out_spannables,
            );
        }
        false
    }

    /// Renders the span after its children, as `span_post_handled` says.
    pub fn post_handle(
        &self,
        post_raw: &PostRaw,
        post_parser_context: &PostParserContext,
        element: &Element,
        prev_out_text_parts_index: usize,
        out_text_parts: &mut Vec<TextPart>,
        prev_out_spannables_index: usize,
        out_spannables: &mut Vec<Spannable>,
    )
        ensures
            rendered(final(out_text_parts)@, final(out_spannables)@) == span_post_handled(
                element_view(*element),
                rendered(old(out_text_parts)@, old(out_spannables)@),
                prev_out_text_parts_index as int,
            ),
    {
        if element.has_class(QUOTE_CLASS) {
            self.handle_quote_class(prev_out_text_parts_index, out_text_parts, out_spannables);
        }
    }

    /// Renders a `deadlink` as `deadlink_handled` says. The element is then
    /// done.
    pub fn handle_deadlink_class(
        &self,
        post_raw: &PostRaw,
        post_parser_context: &PostParserContext,
        element: &Element,
        out_text_parts: &mut Vec<TextPart>,
        out_spannables: &mut Vec<Spannable>,
    ) -> (done: bool)
        ensures
            done,
            rendered(final(out_text_parts)@, final(out_spannables)@) == deadlink_handled(
                viewer_of(*post_raw, *post_parser_context),
                element_view(*element),
                rendered(old(out_text_parts)@, old(out_spannables)@),
            ),
    {
        proof {
            lemma_nodes_view_index(element.children@);
        }
        if element.children.len() != 1 {
            return true;
        }
        let quote_text_child = match &element.children[0] {
            Node::Text(text) => decode_entities(text.as_str()),
            Node::Element(_) => {
                return true;
            },
        };
        let chars = to_chars(quote_text_child.as_str());
        let marker = to_chars(QUOTE_MARKER);
        if !starts_with(&chars, &marker) {
            return true;
        }
        let quote_value = match parse_decimal(&chars, marker.len()) {
            Some(value) => value,
            None => {
                return true;
            },
        };
        let post_link = if post_parser_context.is_internal_thread_post(quote_value) {
            PostLink::Quote { post_no: quote_value }
        } else {
            PostLink::Dead { post_no: quote_value }
        };
        let total_text_length = count_chars(out_text_parts, 0, out_text_parts.len());
        handle_single_post_quote(
            post_raw,
            post_parser_context,
            out_text_parts,
            out_spannables,
            post_link,
            &quote_text_child,
            total_text_length,
        );
        true
    }

    /// Marks as greentext all the text from the piece at
    /// `prev_out_text_parts_index` on.
    pub fn handle_quote_class(
        &self,
        prev_out_text_parts_index: usize,
        out_text_parts: &Vec<TextPart>,
        out_spannables: &mut Vec<Spannable>,
    )
        ensures
            rendered(out_text_parts@, final(out_spannables)@) == wrapped(
                rendered(out_text_parts@, old(out_spannables)@),
                prev_out_text_parts_index as int,
                SpannableDataView::GreenText,
            ),
    {
        self.wrap_text_parts(
            prev_out_text_parts_index,
            out_text_parts,
            out_spannables,
            SpannableData::GreenText,
        );
    }
}

} // verus!
