//! The rule for `<br>`: a new line.

use crate::html_parser::element::Element;
use crate::post::{PostParserContext, PostRaw};
use crate::rules::rule_handler::{push_text, rendered, with_text};
use crate::spannable::Spannable;
use crate::text_part::TextPart;
use vstd::prelude::*;
use vstd::string::StringExecFns;

verus! {

/// The text of a line break.
pub const NEW_LINE: &'static str = "\n";

/// The handler of `<br>`.
pub struct LineBreakRuleHandler {}

impl LineBreakRuleHandler {
    /// The handler.
    pub fn new() -> LineBreakRuleHandler {
        LineBreakRuleHandler {  }
    }

    /// Emits a new line; the element is then done.
    pub fn pre_handle(
        &self,
        post_raw: &PostRaw,
        post_parser_context: &PostParserContext,
        element: &Element,
        out_text_parts: &mut Vec<TextPart>,
        out_spannables: &mut Vec<Spannable>,
    ) -> (done: bool)
        ensures
            done,
            rendered(final(out_text_parts)@, final(out_spannables)@) == with_text(
                rendered(old(out_text_parts)@, old(out_spannables)@),
                NEW_LINE@,
            ),
    {
        push_text(out_text_parts, String::from_str(NEW_LINE));
        true
    }

    /// Does nothing: a line break is rendered before its children.
    pub fn post_handle(
        &self,
        post_raw: &PostRaw,
        post_parser_context: &PostParserContext,
        element: &Element,
        prev_out_text_parts_index: usize,
        out_text_parts: &mut Vec<TextPart>,
        prev_out_spannables_index: usize,
        out_spannables: &mut Vec<Spannable>,
    )
        ensures
            *final(out_text_parts) == *old(out_text_parts),
            *final(out_spannables) == *old(out_spannables),
    {
    }
}

} // verus!
