//! The rule for every element with a `style` attribute.

use crate::html_parser::attributes::lookup;
use crate::html_parser::element::{element_view, Element, ElementView};
use crate::post::{PostParserContext, PostRaw};
use crate::rules::rule_handler::{
    push_spannable, rendered, with_span, Rendered, RuleHandlerPostHandleMeta,
};
use crate::spannable::{Spannable, SpannableDataView};
use crate::text_part::{chars_between, TextPart};
use crate::util::style_tag_value_decoder::{data_view, decode_style_spans, decoded_style};
use vstd::prelude::*;

verus! {

/// The attribute that holds the style of an element.
pub const STYLE_ATTR: &'static str = "style";

/// `out` with one annotation over `len` characters from `start` on for each
/// of `data`, in order.
pub open spec fn with_spans(out: Rendered, start: nat, len: nat, data: Seq<SpannableDataView>)
    -> Rendered
    decreases data.len(),
{
    if data.len() == 0 {
        out
    } else {
        with_spans(with_span(out, start, len, data[0]), start, len, data.drop_first())
    }
}

/// The output after an element with a style: one annotation for each
/// property that the style decodes to, each over all the text from the piece
/// at `mark` on. Nothing is added if there is no such piece or no style.
pub open spec fn style_post_handled(element: ElementView, out: Rendered, mark: int) -> Rendered {
    if 0 <= mark < out.texts.len() {
        match lookup(element.attributes, STYLE_ATTR@) {
            Some(style) => with_spans(
                out,
                chars_between(out.texts, 0, mark),
                chars_between(out.texts, mark, out.texts.len() as int),
                decoded_style(style),
            ),
            None => out,
        }
    } else {
        out
    }
}

/// The handler of elements with a `style` attribute.
pub struct StyleHandler {}

impl StyleHandler {
    /// The handler.
    pub fn new() -> StyleHandler {
        StyleHandler {  }
    }

    /// Leaves the element to its children: it is handled after them.
    pub fn pre_handle(
        &self,
        post_raw: &PostRaw,
        post_parser_context: &PostParserContext,
        element: &Element,
        out_text_parts: &mut Vec<TextPart>,
        out_spannables: &mut Vec<Spannable>,
    ) -> (done: bool)
        ensures
            !done,
            *final(out_text_parts) == *old(out_text_parts),
            *final(out_spannables) == *old(out_spannables),
    {
        false
    }

    /// Annotates what the element rendered with its style, as
    /// `style_post_handled` says.
    pub fn post_handle(
        &self,
        post_raw: &PostRaw,
        post_parser_context: &PostParserContext,
        element: &Element,
        prev_out_text_parts_index: usize,
        out_text_parts: &mut Vec<TextPart>,
        prev_out_spannables_index: usize,
        out_spannables: &mut Vec<Spannable>,
    )
        ensures
            rendered(final(out_text_parts)@, final(out_spannables)@) == style_post_handled(
                element_view(*element),
                rendered(old(out_text_parts)@, old(out_spannables)@),
                prev_out_text_parts_index as int,
            ),
    {
        if prev_out_text_parts_index >= out_text_parts.len() {
            return ;
        }
        let style_attr_value = match element.get_attr_value(STYLE_ATTR) {
            Some(value) => value,
            None => {
                return ;
            },
        };
        let start = self.get_out_text_parts_diff_len(prev_out_text_parts_index, out_text_parts);
        let len = self.get_out_text_parts_new_len(prev_out_text_parts_index, out_text_parts);
        let mut rest = decode_style_spans(style_attr_value.as_str());
        let ghost goal = with_spans(
            rendered(out_text_parts@, out_spannables@),
            start as nat,
            len as nat,
            data_view(rest@),
        );
        while rest.len() > 0
            invariant
                with_spans(
                    rendered(out_text_parts@, out_spannables@),
                    start as nat,
                    len as nat,
                    data_view(rest@),
                ) == goal,
            decreases rest@.len(),
        {
            let ghost before = data_view(rest@);
            let data = rest.remove(0);
            assert(data_view(rest@) == before.drop_first());
            assert(before[0] == data@);
            push_spannable(out_spannables, start, len, data);
        }
    }
}

} // verus!
