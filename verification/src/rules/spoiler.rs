//! The rule for `<s>`: a spoiler.

use crate::html_parser::element::Element;
use crate::post::{PostParserContext, PostRaw};
use crate::rules::rule_handler::{rendered, wrapped, RuleHandlerPostHandleMeta};
use crate::spannable::{Spannable, SpannableData, SpannableDataView};
use crate::text_part::TextPart;
use vstd::prelude::*;

verus! {

/// The handler of `<s>`.
pub struct SpoilerHandler {}

impl SpoilerHandler {
    /// The handler.
    pub fn new() -> SpoilerHandler {
        SpoilerHandler {  }
    }

    /// Leaves the element to its children: it is handled after them.
    pub fn pre_handle(
        &self,
        post_raw: &PostRaw,
        post_parser_context: &PostParserContext,
        element: &Element,
        out_text_parts: &mut Vec<TextPart>,
        out_spannables: &mut Vec<Spannable>,
    ) -> (done: bool)
        ensures
            !done,
            *final(out_text_parts) == *old(out_text_parts),
            *final(out_spannables) == *old(out_spannables),
    {
        false
    }

    /// Marks as a spoiler all the text from the piece at
    /// `prev_out_text_parts_index` on.
    pub fn post_handle(
        &self,
        post_raw: &PostRaw,
        post_parser_context: &PostParserContext,
        element: &Element,
        prev_out_text_parts_index: usize,
        out_text_parts: &mut Vec<TextPart>,
        prev_out_spannables_index: usize,
        out_spannables: &mut Vec<Spannable>,
    )
        ensures
            rendered(final(out_text_parts)@, final(out_spannables)@) == wrapped(
                rendered(old(out_text_parts)@, old(out_spannables)@),
                prev_out_text_parts_index as int,
                SpannableDataView::Spoiler,
            ),
    {
        self.wrap_text_parts(
            prev_out_text_parts_index,
            out_text_parts,
            out_spannables,
            SpannableData::Spoiler,
        );
    }
}

} // verus!
