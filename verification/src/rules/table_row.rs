//! The rule for `<tr>`: each row ends its line.

use crate::html_parser::element::Element;
use crate::post::{PostParserContext, PostRaw};
use crate::rules::line_break::NEW_LINE;
use crate::rules::rule_handler::{push_text, rendered, with_text};
use crate::spannable::Spannable;
use crate::text_part::TextPart;
use vstd::prelude::*;
use vstd::string::StringExecFns;

verus! {

/// The handler of `<tr>`.
pub struct TableRowHandler {}

impl TableRowHandler {
    /// The handler.
    pub fn new() -> TableRowHandler {
        TableRowHandler {  }
    }

    /// Leaves the element to its children: it is handled after them.
    pub fn pre_handle(
        &self,
        post_raw: &PostRaw,
        post_parser_context: &PostParserContext,
        element: &Element,
        out_text_parts: &mut Vec<TextPart>,
        out_spannables: &mut Vec<Spannable>,
    ) -> (done: bool)
        ensures
            !done,
            *final(out_text_parts) == *old(out_text_parts),
            *final(out_spannables) == *old(out_spannables),
    {
        false
    }

    /// Emits a new line behind the row.
    pub fn post_handle(
        &self,
        post_raw: &PostRaw,
        post_parser_context: &PostParserContext,
        element: &Element,
        prev_out_text_parts_index: usize,
        out_text_parts: &mut Vec<TextPart>,
        prev_out_spannables_index: usize,
        out_spannables: &mut Vec<Spannable>,
    )
        ensures
            rendered(final(out_text_parts)@, final(out_spannables)@) == with_text(
                rendered(old(out_text_parts)@, old(out_spannables)@),
                NEW_LINE@,
            ),
    {
        push_text(out_text_parts, String::from_str(NEW_LINE));
    }
}

} // verus!
