//! The rule for `<span class="abbr">`: the element and all below it is left out.

use crate::html_parser::element::Element;
use crate::post::{PostParserContext, PostRaw};
use crate::spannable::Spannable;
use crate::text_part::TextPart;
use vstd::prelude::*;

verus! {

/// The handler of `<span class="abbr">`.
pub struct AbbrHandler {}

impl AbbrHandler {
    /// The handler.
    pub fn new() -> AbbrHandler {
        AbbrHandler {  }
    }

    /// Emits nothing; the element is then done, so that nothing below it is rendered.
    pub fn pre_handle(
        &self,
        post_raw: &PostRaw,
        post_parser_context: &PostParserContext,
        element: &Element,
        out_text_parts: &mut Vec<TextPart>,
        out_spannables: &mut Vec<Spannable>,
    ) -> (done: bool)
        ensures
            done,
            *final(out_text_parts) == *old(out_text_parts),
            *final(out_spannables) == *old(out_spannables),
    {
        true
    }

    /// Does nothing: the element is done before its children.
    pub fn post_handle(
        &self,
        post_raw: &PostRaw,
        post_parser_context: &PostParserContext,
        element: &Element,
        prev_out_text_parts_index: usize,
        out_text_parts: &mut Vec<TextPart>,
        prev_out_spannables_index: usize,
        out_spannables: &mut Vec<Spannable>,
    )
        ensures
            *final(out_text_parts) == *old(out_text_parts),
            *final(out_spannables) == *old(out_spannables),
    {
    }
}

} // verus!
