//! What the handlers share: the output being built, as a mathematical value,
//! and the steps that add to it.

use crate::html_parser::element::{element_view, Element, ElementView};
use crate::post::{spannables_view, PostParserContext, PostRaw};
use crate::rules::abbr::AbbrHandler;
use crate::rules::anchor::{anchor_pre_handled, AnchorRuleHandler};
use crate::rules::bold::BoldHandler;
use crate::rules::line_break::{LineBreakRuleHandler, NEW_LINE};
use crate::rules::pre::PreHandler;
use crate::rules::span::{span_post_handled, span_pre_handled, SpanHandler};
use crate::rules::spoiler::SpoilerHandler;
use crate::rules::style::{style_post_handled, StyleHandler};
use crate::rules::table::TableHandler;
use crate::rules::table_data::{table_data_post_handled, TableDataHandler};
use crate::rules::table_row::TableRowHandler;
use crate::rules::word_break::WordBreakRuleHandler;
use crate::spannable::{Spannable, SpannableData, SpannableDataView, SpannableView};
use crate::text_part::{chars_between, count_chars, join_text, joined, parts_view, TextPart};
use vstd::prelude::*;

verus! {

/// The output of rendering: the pieces of text in the order in which they
/// were emitted, and the annotations in that order.
pub struct Rendered {
    pub texts: Seq<Seq<char>>,
    pub spans: Seq<SpannableView>,
}

/// What rendering needs to know of the viewer and of the post being
/// rendered.
pub struct Viewer {
    pub thread_posts: Set<u64>,
    pub my_replies: Set<u64>,
    pub thread_no: u64,
    pub post_no: u64,
}

/// The viewer of `post_raw` with the knowledge `context`. The thread's
/// original post is the one that the context holds; a context that holds none
/// leaves that to the thread of the post.
pub open spec fn viewer_of(post_raw: PostRaw, context: PostParserContext) -> Viewer {
    Viewer {
        thread_posts: context.thread_posts(),
        my_replies: context.my_replies(),
        thread_no: match context.original_post() {
            Some(thread_id) => thread_id,
            None => post_raw.post_descriptor.thread_descriptor.thread_no,
        },
        post_no: post_raw.post_descriptor.post_no,
    }
}

/// The output that the two buffers hold.
pub open spec fn rendered(parts: Seq<TextPart>, spans: Seq<Spannable>) -> Rendered {
    Rendered { texts: parts_view(parts), spans: spannables_view(spans) }
}

/// `out` with one more piece of text.
pub open spec fn with_text(out: Rendered, text: Seq<char>) -> Rendered {
    Rendered { texts: out.texts.push(text), spans: out.spans }
}

/// Whether an annotation over `len` characters from `start` on is kept: it
/// covers at least one character, and both numbers fit the machine's word.
pub open spec fn span_is_kept(start: nat, len: nat) -> bool {
    len > 0 && start <= usize::MAX && len <= usize::MAX
}

/// `out` with one more annotation, if it is kept.
pub open spec fn with_span(out: Rendered, start: nat, len: nat, data: SpannableDataView)
    -> Rendered {
    if span_is_kept(start, len) {
        Rendered { texts: out.texts, spans: out.spans.push(SpannableView { start, len, data }) }
    } else {
        out
    }
}

/// The mark that is taken before an element is rendered: the number of
/// pieces emitted so far. What the element and all below it emit stands from
/// that position on.
pub open spec fn text_mark(texts: Seq<Seq<char>>) -> int {
    texts.len() as int
}

/// `out` with an annotation over all the text from the piece at `mark` on,
/// if there is such a piece.
pub open spec fn wrapped(out: Rendered, mark: int, data: SpannableDataView) -> Rendered {
    if 0 <= mark < out.texts.len() {
        with_span(
            out,
            chars_between(out.texts, 0, mark),
            chars_between(out.texts, mark, out.texts.len() as int),
            data,
        )
    } else {
        out
    }
}

/// Adds a piece of text to the output.
pub fn push_text(out_text_parts: &mut Vec<TextPart>, text: String)
    ensures
        parts_view(final(out_text_parts)@) == parts_view(old(out_text_parts)@).push(text@),
{
    let part = TextPart::new(text);
    out_text_parts.push(part);
    assert(parts_view(out_text_parts@) =~= parts_view(old(out_text_parts)@).push(text@));
}

/// Adds an annotation to the output, if it is kept.
pub fn push_spannable(
    out_spannables: &mut Vec<Spannable>,
    start: u128,
    len: u128,
    spannable_data: SpannableData,
)
    ensures
        spannables_view(final(out_spannables)@) == (if span_is_kept(start as nat, len as nat) {
            spannables_view(old(out_spannables)@).push(
                SpannableView { start: start as nat, len: len as nat, data: spannable_data@ },
            )
        } else {
            spannables_view(old(out_spannables)@)
        }),
{
    if start > usize::MAX as u128 || len > usize::MAX as u128 {
        return ;
    }
    let spannable = Spannable { start: start as usize, len: len as usize, spannable_data };
    if spannable.is_valid() {
        out_spannables.push(spannable);
        assert(spannables_view(out_spannables@) =~= spannables_view(old(out_spannables)@).push(
            spannable@,
        ));
    }
}

/// What a handler can ask of the output when it runs after the children
/// of its element.
pub trait RuleHandlerPostHandleMeta {
    /// The text emitted from the piece at `prev_out_text_parts_index` on.
    fn get_out_text_parts_diff_text(
        &self,
        prev_out_text_parts_index: usize,
        out_text_parts: &Vec<TextPart>,
    ) -> (text: String)
        requires
            prev_out_text_parts_index <= out_text_parts@.len(),
        ensures
            text@ == joined(
                parts_view(out_text_parts@),
                prev_out_text_parts_index as int,
                out_text_parts@.len() as int,
            ),
    {
        join_text(out_text_parts, prev_out_text_parts_index, out_text_parts.len())
    }

    /// The number of characters emitted before the piece at
    /// `prev_out_text_parts_index`.
    fn get_out_text_parts_diff_len(
        &self,
        prev_out_text_parts_index: usize,
        out_text_parts: &Vec<TextPart>,
    ) -> (count: u128)
        requires
            prev_out_text_parts_index <= out_text_parts@.len(),
        ensures
            count == chars_between(
                parts_view(out_text_parts@),
                0,
                prev_out_text_parts_index as int,
            ),
    {
        count_chars(out_text_parts, 0, prev_out_text_parts_index)
    }

    /// The number of characters emitted from the piece at
    /// `prev_out_text_parts_index` on.
    fn get_out_text_parts_new_len(
        &self,
        prev_out_text_parts_index: usize,
        out_text_parts: &Vec<TextPart>,
    ) -> (count: u128)
        requires
            prev_out_text_parts_index <= out_text_parts@.len(),
        ensures
            count == chars_between(
                parts_view(out_text_parts@),
                prev_out_text_parts_index as int,
                out_text_parts@.len() as int,
            ),
    {
        count_chars(out_text_parts, prev_out_text_parts_index, out_text_parts.len())
    }

    /// Adds an annotation over all the text from the piece at
    /// `prev_out_text_parts_index` on, if there is such a piece.
    fn wrap_text_parts(
        &self,
        prev_out_text_parts_index: usize,
        out_text_parts: &Vec<TextPart>,
        out_spannables: &mut Vec<Spannable>,
        spannable_data: SpannableData,
    )
        ensures
            rendered(out_text_parts@, final(out_spannables)@) == wrapped(
                rendered(out_text_parts@, old(out_spannables)@),
                prev_out_text_parts_index as int,
                spannable_data@,
            ),
    {
        if prev_out_text_parts_index >= out_text_parts.len() {
            return ;
        }
        let start = self.get_out_text_parts_diff_len(prev_out_text_parts_index, out_text_parts);
        let len = self.get_out_text_parts_new_len(prev_out_text_parts_index, out_text_parts);
        push_spannable(out_spannables, start, len, spannable_data);
    }
}

impl RuleHandlerPostHandleMeta for SpanHandler {
}

impl RuleHandlerPostHandleMeta for SpoilerHandler {
}

impl RuleHandlerPostHandleMeta for BoldHandler {
}

impl RuleHandlerPostHandleMeta for PreHandler {
}

impl RuleHandlerPostHandleMeta for TableHandler {
}

impl RuleHandlerPostHandleMeta for TableDataHandler {
}

impl RuleHandlerPostHandleMeta for StyleHandler {
}

/// A handler of elements: one of the handlers of this library. Each has two
/// steps: one before the children of the element are rendered, which may
/// finish the element, and one after them.
pub enum RuleHandler {
    Anchor(AnchorRuleHandler),
    LineBreak(LineBreakRuleHandler),
    WordBreak(WordBreakRuleHandler),
    Span(SpanHandler),
    Spoiler(SpoilerHandler),
    Bold(BoldHandler),
    Table(TableHandler),
    TableRow(TableRowHandler),
    TableData(TableDataHandler),
    Abbr(AbbrHandler),
    Style(StyleHandler),
    Pre(PreHandler),
}

impl RuleHandler {
    /// What the handler does before the children of `element` are rendered:
    /// whether the element is done, and the output.
    pub open spec fn pre_handled(self, viewer: Viewer, element: ElementView, out: Rendered) -> (
        bool,
        Rendered,
    ) {
        match self {
            RuleHandler::Anchor(_) => anchor_pre_handled(viewer, element, out),
            RuleHandler::LineBreak(_) => (true, with_text(out, NEW_LINE@)),
            RuleHandler::WordBreak(_) => (true, out),
            RuleHandler::Abbr(_) => (true, out),
            RuleHandler::Span(_) => span_pre_handled(viewer, element, out),
            _ => (false, out),
        }
    }

    /// What the handler does after the children of `element` were rendered,
    /// where `mark` is the mark taken before the element.
    pub open spec fn post_handled(self, element: ElementView, mark: int, out: Rendered)
        -> Rendered {
        match self {
            RuleHandler::Span(_) => span_post_handled(element, out, mark),
            RuleHandler::Spoiler(_) => wrapped(out, mark, SpannableDataView::Spoiler),
            RuleHandler::Bold(_) => wrapped(out, mark, SpannableDataView::BoldText),
            RuleHandler::Pre(_) => wrapped(out, mark, SpannableDataView::Monospace),
            RuleHandler::Table(_) => wrapped(out, mark, SpannableDataView::Monospace),
            RuleHandler::TableRow(_) => with_text(out, NEW_LINE@),
            RuleHandler::TableData(_) => table_data_post_handled(out, mark),
            RuleHandler::Style(_) => style_post_handled(element, out, mark),
            _ => out,
        }
    }

    /// Runs the handler's step before the children, as `pre_handled` says.
    pub fn pre_handle(
        &self,
        post_raw: &PostRaw,
        post_parser_context: &PostParserContext,
        element: &Element,
        out_text_parts: &mut Vec<TextPart>,
        out_spannables: &mut Vec<Spannable>,
    ) -> (done: bool)
        ensures
            (done, rendered(final(out_text_parts)@, final(out_spannables)@)) == self.pre_handled(
                viewer_of(*post_raw, *post_parser_context),
                element_view(*element),
                rendered(old(out_text_parts)@, old(out_spannables)@),
            ),
    {
        match self {
            RuleHandler::Anchor(handler) => handler.pre_handle(
                post_raw,
                post_parser_context,
                element,
                out_text_parts,
                out_spannables,
            ),
            RuleHandler::LineBreak(handler) => handler.pre_handle(
                post_raw,
                post_parser_context,
                element,
                out_text_parts,
                out_spannables,
            ),
            RuleHandler::WordBreak(handler) => handler.pre_handle(
                post_raw,
                post_parser_context,
                element,
                out_text_parts,
                out_spannables,
            ),
            RuleHandler::Span(handler) => handler.pre_handle(
                post_raw,
                post_parser_context,
                element,
                out_text_parts,
                out_spannables,
            ),
            RuleHandler::Spoiler(handler) => handler.pre_handle(
                post_raw,
                post_parser_context,
                element,
                out_text_parts,
                out_spannables,
            ),
            RuleHandler::Bold(handler) => handler.pre_handle(
                post_raw,
                post_parser_context,
                element,
                out_text_parts,
                out_spannables,
            ),
            RuleHandler::Table(handler) => handler.pre_handle(
                post_raw,
                post_parser_context,
                element,
                out_text_parts,
                out_spannables,
            ),
            RuleHandler::TableRow(handler) => handler.pre_handle(
                post_raw,
                post_parser_context,
                element,
                out_text_parts,
                out_spannables,
            ),
            RuleHandler::TableData(handler) => handler.pre_handle(
                post_raw,
                post_parser_context,
                element,
                out_text_parts,
                out_spannables,
            ),
            RuleHandler::Abbr(handler) => handler.pre_handle(
                post_raw,
                post_parser_context,
                element,
                out_text_parts,
                out_spannables,
            ),
            RuleHandler::Style(handler) => handler.pre_handle(
                post_raw,
                post_parser_context,
                element,
                out_text_parts,
                out_spannables,
            ),
            RuleHandler::Pre(handler) => handler.pre_handle(
                post_raw,
                post_parser_context,
                element,
                out_text_parts,
                out_spannables,
            ),
        }
    }

    /// Runs the handler's step after the children, as `post_handled` says.
    pub fn post_handle(
        &self,
        post_raw: &PostRaw,
        post_parser_context: &PostParserContext,
        element: &Element,
        prev_out_text_parts_index: usize,
        out_text_parts: &mut Vec<TextPart>,
        prev_out_spannables_index: usize,
        out_spannables: &mut Vec<Spannable>,
    )
        ensures
            rendered(final(out_text_parts)@, final(out_spannables)@) == self.post_handled(
                element_view(*element),
                prev_out_text_parts_index as int,
                rendered(old(out_text_parts)@, old(out_spannables)@),
            ),
    {
        match self {
            RuleHandler::Anchor(handler) => handler.post_handle(
                post_raw,
                post_parser_context,
                element,
                prev_out_text_parts_index,
                out_text_parts,
                prev_out_spannables_index,
                out_spannables,
            ),
            RuleHandler::LineBreak(handler) => handler.post_handle(
                post_raw,
                post_parser_context,
                element,
                prev_out_text_parts_index,
                out_text_parts,
                prev_out_spannables_index,
                out_spannables,
            ),
            RuleHandler::WordBreak(handler) => handler.post_handle(
                post_raw,
                post_parser_context,
                element,
                prev_out_text_parts_index,
                out_text_parts,
                prev_out_spannables_index,
                out_spannables,
            ),
            RuleHandler::Span(handler) => handler.post_handle(
                post_raw,
                post_parser_context,
                element,
                prev_out_text_parts_index,
                out_text_parts,
                prev_out_spannables_index,
                out_spannables,
            ),
            RuleHandler::Spoiler(handler) => handler.post_handle(
                post_raw,
                post_parser_context,
                element,
                prev_out_text_parts_index,
                out_text_parts,
                prev_out_spannables_index,
                out_spannables,
            ),
            RuleHandler::Bold(handler) => handler.post_handle(
                post_raw,
                post_parser_context,
                element,
                prev_out_text_parts_index,
                out_text_parts,
                prev_out_spannables_index,
                out_spannables,
            ),
            RuleHandler::Table(handler) => handler.post_handle(
                post_raw,
                post_parser_context,
                element,
                prev_out_text_parts_index,
                out_text_parts,
                prev_out_spannables_index,
                out_spannables,
            ),
            RuleHandler::TableRow(handler) => handler.post_handle(
                post_raw,
                post_parser_context,
                element,
                prev_out_text_parts_index,
                out_text_parts,
                prev_out_spannables_index,
                out_spannables,
            ),
            RuleHandler::TableData(handler) => handler.post_handle(
                post_raw,
                post_parser_context,
                element,
                prev_out_text_parts_index,
                out_text_parts,
                prev_out_spannables_index,
                out_spannables,
            ),
            RuleHandler::Abbr(handler) => handler.post_handle(
                post_raw,
                post_parser_context,
                element,
                prev_out_text_parts_index,
                out_text_parts,
                prev_out_spannables_index,
                out_spannables,
            ),
            RuleHandler::Style(handler) => handler.post_handle(
                post_raw,
                post_parser_context,
                element,
                prev_out_text_parts_index,
                out_text_parts,
                prev_out_spannables_index,
                out_spannables,
            ),
            RuleHandler::Pre(handler) => handler.post_handle(
                post_raw,
                post_parser_context,
                element,
                prev_out_text_parts_index,
                out_text_parts,
                prev_out_spannables_index,
                out_spannables,
            ),
        }
    }
}

} // verus!
