//! The rule for `<td>`: a space parts a cell from the next.

use crate::html_parser::element::Element;
use crate::post::{PostParserContext, PostRaw};
use crate::rules::rule_handler::{
    push_text, rendered, with_text, Rendered, RuleHandlerPostHandleMeta,
};
use crate::spannable::Spannable;
use crate::text::{char_is_white_space, is_white_space, to_chars};
use crate::text_part::{joined, TextPart};
use vstd::prelude::*;
use vstd::string::StringExecFns;

verus! {

/// The text that parts two cells.
pub const CELL_SEPARATOR: &'static str = " ";

/// Whether `text` holds a character that is no white space.
pub open spec fn has_visible(text: Seq<char>) -> bool {
    exists|i: int| 0 <= i < text.len() && !is_white_space(#[trigger] text[i])
}

/// Decides `has_visible`.
pub fn contains_visible(text: &str) -> (visible: bool)
    ensures
        visible == has_visible(text@),
{
    let chars = to_chars(text);
    let mut i: usize = 0;
    while i < chars.len()
        invariant
            i <= chars@.len(),
            chars@ == text@,
            forall|k: int| 0 <= k < i ==> is_white_space(#[trigger] chars@[k]),
        decreases chars@.len() - i,
    {
        if !char_is_white_space(chars[i]) {
            return true;
        }
        i += 1;
    }
    false
}

/// The output after a cell: a separator is added if the text from the piece
/// at `mark` on holds anything but white space.
pub open spec fn table_data_post_handled(out: Rendered, mark: int) -> Rendered {
    if has_visible(joined(out.texts, mark, out.texts.len() as int)) {
        with_text(out, CELL_SEPARATOR@)
    } else {
        out
    }
}

/// The handler of `<td>`.
pub struct TableDataHandler {}

impl TableDataHandler {
    /// The handler.
    pub fn new() -> TableDataHandler {
        TableDataHandler {  }
    }

    /// Leaves the element to its children: it is handled after them.
    pub fn pre_handle(
        &self,
        post_raw: &PostRaw,
        post_parser_context: &PostParserContext,
        element: &Element,
        out_text_parts: &mut Vec<TextPart>,
        out_spannables: &mut Vec<Spannable>,
    ) -> (done: bool)
        ensures
            !done,
            *final(out_text_parts) == *old(out_text_parts),
            *final(out_spannables) == *old(out_spannables),
    {
        false
    }

    /// Emits a separator behind the cell, as `table_data_post_handled` says.
    pub fn post_handle(
        &self,
        post_raw: &PostRaw,
        post_parser_context: &PostParserContext,
        element: &Element,
        prev_out_text_parts_index: usize,
        out_text_parts: &mut Vec<TextPart>,
        prev_out_spannables_index: usize,
        out_spannables: &mut Vec<Spannable>,
    )
        ensures
            rendered(final(out_text_parts)@, final(out_spannables)@) == table_data_post_handled(
                rendered(old(out_text_parts)@, old(out_spannables)@),
                prev_out_text_parts_index as int,
            ),
    {
        if prev_out_text_parts_index > out_text_parts.len() {
            return ;
        }
        let text = self.get_out_text_parts_diff_text(prev_out_text_parts_index, out_text_parts);
        if contains_visible(text.as_str()) {
            push_text(out_text_parts, String::from_str(CELL_SEPARATOR));
        }
    }
}

} // verus!
