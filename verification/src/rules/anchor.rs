//! The rule for `<a>`: links and quotes of posts.

use crate::entities::{decode_entities, decoded_entities};
use crate::html_parser::attributes::{get_attribute, lookup};
use crate::html_parser::element::{element_view, lemma_nodes_view_index, Element, ElementView};
use crate::html_parser::node::{Node, NodeView};
use crate::parsing_error::ParsingError;
use crate::pattern::{capture_spans, captured_text, captures_at, group_text, spans_view};
use crate::post::{PostParserContext, PostRaw};
use crate::rules::rule_handler::{
    push_spannable, push_text, rendered, viewer_of, with_span, with_text, Rendered, Viewer,
};
use crate::spannable::{PostLink, PostLinkView, Spannable, SpannableData, SpannableDataView};
use crate::text::{decimal_value, has_prefix, parse_decimal, starts_with, to_chars};
use crate::text_part::{count_chars, total_chars, TextPart};
use vstd::prelude::*;
use vstd::string::{StrSliceExecFns, StringExecFns};

verus! {

/// The attribute that holds the target of a link.
pub const HREF: &'static str = "href";

/// What a target that quotes a post of the same thread begins with.
pub const QUOTE_PREFIX: &'static str = "#p";

/// What a target on the same site begins with.
pub const SITE_PREFIX: &'static str = "//";

/// What a target on the same board begins with.
pub const PATH_PREFIX: &'static str = "/";

/// The mark behind a link into another thread.
pub const CROSS_THREAD_POSTFIX: &'static str = " \u{2192}";

/// The mark behind a quote of the thread's original post.
pub const OP_POSTFIX: &'static str = " (OP)";

/// The mark behind the viewer's quote of a post of the viewer's own.
pub const ME_POSTFIX: &'static str = " (Me)";

/// The mark behind a quote of a post of the viewer's.
pub const YOU_POSTFIX: &'static str = " (You)";

/// The mark behind a quote of a post that is not held locally.
pub const DEAD_POSTFIX: &'static str = " (DEAD)";

/// The regular expression of a link to a board.
pub const BOARD_LINK_PATTERN: &'static str = "//.*/(\\w+)/$";

/// The regular expression of a link to a search in a board's catalog.
pub const BOARD_LINK_WITH_SEARCH_PATTERN: &'static str = "//.*/(\\w+)/catalog#s=(\\w+)$";

/// The regular expression of a link to a post of another thread.
pub const CROSS_THREAD_LINK_PATTERN: &'static str = "/(\\w+)/\\w+/(\\d+)#p(\\d+)$";

/// The link to a board that a search for the pattern of such links found
/// in `href`.
pub open spec fn board_link_of(href: Seq<char>, spans: Option<Seq<Option<(usize, usize)>>>)
    -> Option<PostLinkView> {
    match spans {
        Some(groups) => match group_text(href, groups, 1) {
            Some(board_code) => Some(PostLinkView::BoardLink { board_code }),
            None => None,
        },
        None => None,
    }
}

/// The link to a search that a search for the pattern of such links found
/// in `href`.
pub open spec fn search_link_of(href: Seq<char>, spans: Option<Seq<Option<(usize, usize)>>>)
    -> Option<PostLinkView> {
    match spans {
        Some(groups) => match (group_text(href, groups, 1), group_text(href, groups, 2)) {
            (Some(board_code), Some(search_query)) => Some(
                PostLinkView::SearchLink { board_code, search_query },
            ),
            _ => None,
        },
        None => None,
    }
}

/// The link to a post of another thread that a search for the pattern of
/// such links found in `href`: none unless both numbers are decimal numbers
/// of 64 bits.
pub open spec fn thread_link_of(href: Seq<char>, spans: Option<Seq<Option<(usize, usize)>>>)
    -> Option<PostLinkView> {
    match spans {
        Some(groups) => match (
            group_text(href, groups, 1),
            group_text(href, groups, 2),
            group_text(href, groups, 3),
        ) {
            (Some(board_code), Some(thread), Some(post)) => match (
                decimal_value(thread),
                decimal_value(post),
            ) {
                (Some(thread_no), Some(post_no)) => Some(
                    PostLinkView::ThreadLink { board_code, thread_no, post_no },
                ),
                _ => None,
            },
            _ => None,
        },
        None => None,
    }
}

/// The link that the target `href` stands for, where `known` are the posts
/// held locally. A target `#p` and a number quotes that post of the thread,
/// which is dead if it is not held. A target that begins with `//` may be a
/// link to a board or to a search; one that begins with `/` may be a link to
/// a post of another thread. Every other target is an address. None if `#p`
/// is not followed by a number.
pub open spec fn post_link_of(known: Set<u64>, href: Seq<char>) -> Option<PostLinkView> {
    if has_prefix(href, QUOTE_PREFIX@) {
        match decimal_value(href.skip(QUOTE_PREFIX@.len() as int)) {
            Some(post_no) => Some(
                if known.contains(post_no) {
                    PostLinkView::Quote { post_no }
                } else {
                    PostLinkView::Dead { post_no }
                },
            ),
            None => None,
        }
    } else {
        let board = if has_prefix(href, SITE_PREFIX@) {
            board_link_of(href, capture_spans(BOARD_LINK_PATTERN@, href, 0))
        } else {
            None
        };
        let search = if has_prefix(href, SITE_PREFIX@) {
            search_link_of(href, capture_spans(BOARD_LINK_WITH_SEARCH_PATTERN@, href, 0))
        } else {
            None
        };
        let thread = if has_prefix(href, PATH_PREFIX@) {
            thread_link_of(href, capture_spans(CROSS_THREAD_LINK_PATTERN@, href, 0))
        } else {
            None
        };
        if board is Some {
            board
        } else if search is Some {
            search
        } else if thread is Some {
            thread
        } else {
            Some(PostLinkView::UrlLink { link: href })
        }
    }
}

/// Builds the link to a board from what the search found, as
/// `board_link_of` says.
pub fn board_link_from(href: &str, spans: &Option<Vec<Option<(usize, usize)>>>) -> (link: Option<
    PostLink,
>)
    ensures
        match link {
            Some(found) => board_link_of(href@, spans_view(*spans)) == Some(found@),
            None => board_link_of(href@, spans_view(*spans)) is None,
        },
{
    match spans {
        Some(groups) => match captured_text(href, groups, 1) {
            Some(board_code) => Some(PostLink::BoardLink { board_code }),
            None => None,
        },
        None => None,
    }
}

/// Builds the link to a search from what the search found, as
/// `search_link_of` says.
pub fn search_link_from(href: &str, spans: &Option<Vec<Option<(usize, usize)>>>) -> (link: Option<
    PostLink,
>)
    ensures
        match link {
            Some(found) => search_link_of(href@, spans_view(*spans)) == Some(found@),
            None => search_link_of(href@, spans_view(*spans)) is None,
        },
{
    match spans {
        Some(groups) => match (captured_text(href, groups, 1), captured_text(href, groups, 2)) {
            (Some(board_code), Some(search_query)) => Some(
                PostLink::SearchLink { board_code, search_query },
            ),
            _ => None,
        },
        None => None,
    }
}

/// Builds the link to a post of another thread from what the search found,
/// as `thread_link_of` says.
pub fn thread_link_from(href: &str, spans: &Option<Vec<Option<(usize, usize)>>>) -> (link: Option<
    PostLink,
>)
    ensures
        match link {
            Some(found) => thread_link_of(href@, spans_view(*spans)) == Some(found@),
            None => thread_link_of(href@, spans_view(*spans)) is None,
        },
{
    match spans {
        Some(groups) => match (
            captured_text(href, groups, 1),
            captured_text(href, groups, 2),
            captured_text(href, groups, 3),
        ) {
            (Some(board_code), Some(thread), Some(post)) => {
                let thread_chars = to_chars(thread.as_str());
                let post_chars = to_chars(post.as_str());
                assert(thread_chars@.skip(0) == thread_chars@);
                assert(post_chars@.skip(0) == post_chars@);
                match (parse_decimal(&thread_chars, 0), parse_decimal(&post_chars, 0)) {
                    (Some(thread_no), Some(post_no)) => Some(
                        PostLink::ThreadLink { board_code, thread_no, post_no },
                    ),
                    _ => None,
                }
            },
            _ => None,
        },
        None => None,
    }
}

/// The link that the target `link_raw` stands for, as `post_link_of` says,
/// or an error if a quote of a post names no number.
pub fn link_raw_to_post_link(post_parser_context: &PostParserContext, link_raw: &str) -> (link:
    Result<PostLink, ParsingError>)
    ensures
        match post_link_of(post_parser_context.thread_posts(), link_raw@) {
            Some(found) => link matches Ok(made) && made@ == found,
            None => link is Err,
        },
{
    let chars = to_chars(link_raw);
    let quote_prefix = to_chars(QUOTE_PREFIX);
    if starts_with(&chars, &quote_prefix) {
        return match parse_decimal(&chars, quote_prefix.len()) {
            Some(post_no) => if post_parser_context.is_internal_thread_post(post_no) {
                Ok(PostLink::Quote { post_no })
            } else {
                Ok(PostLink::Dead { post_no })
            },
            None => Err(ParsingError::new("a quote of a post names no number")),
        };
    }
    if starts_with(&chars, &to_chars(SITE_PREFIX)) {
        let spans = captures_at(BOARD_LINK_PATTERN, link_raw, 0);
        match board_link_from(link_raw, &spans) {
            Some(link) => {
                return Ok(link);
            },
            None => {},
        }
        let spans = captures_at(BOARD_LINK_WITH_SEARCH_PATTERN, link_raw, 0);
        match search_link_from(link_raw, &spans) {
            Some(link) => {
                return Ok(link);
            },
            None => {},
        }
    }
    if starts_with(&chars, &to_chars(PATH_PREFIX)) {
        let spans = captures_at(CROSS_THREAD_LINK_PATTERN, link_raw, 0);
        match thread_link_from(link_raw, &spans) {
            Some(link) => {
                return Ok(link);
            },
            None => {},
        }
    }
    Ok(PostLink::UrlLink { link: String::from_str(link_raw) })
}

/// The marks that follow a quote of the post `post_no`, always in this
/// order: that it is the thread's original post; that it is the viewer's,
/// quoted by the viewer or by another; that it is dead.
pub open spec fn quote_suffixes(viewer: Viewer, post_no: u64, is_dead: bool) -> Seq<char> {
    (if viewer.thread_no == post_no {
        OP_POSTFIX@
    } else {
        Seq::empty()
    }) + (if viewer.my_replies.contains(viewer.post_no) && viewer.my_replies.contains(post_no) {
        ME_POSTFIX@
    } else if viewer.my_replies.contains(post_no) {
        YOU_POSTFIX@
    } else {
        Seq::empty()
    }) + (if is_dead {
        DEAD_POSTFIX@
    } else {
        Seq::empty()
    })
}

/// The text that a quote shows: its own text and its marks.
pub open spec fn quote_text(viewer: Viewer, link: PostLinkView, text: Seq<char>) -> Seq<char> {
    match link {
        PostLinkView::Quote { post_no } => text + quote_suffixes(viewer, post_no, false),
        PostLinkView::Dead { post_no } => text + quote_suffixes(viewer, post_no, true),
        _ => text,
    }
}

/// The output after a quote was rendered: a link annotation from
/// `span_start` on over the text and the marks, and both as a piece of text.
pub open spec fn single_post_quote(
    viewer: Viewer,
    out: Rendered,
    link: PostLinkView,
    text: Seq<char>,
    span_start: nat,
) -> Rendered {
    let shown = quote_text(viewer, link, text);
    with_text(with_span(out, span_start, shown.len(), SpannableDataView::Link(link)), shown)
}

/// Renders the quote `post_link` of a post, whose own text is
/// `unescaped_text`: emits the annotation and the text as
/// `single_post_quote` says.
pub fn handle_single_post_quote(
    post_raw: &PostRaw,
    post_parser_context: &PostParserContext,
    out_text_parts: &mut Vec<TextPart>,
    out_spannables: &mut Vec<Spannable>,
    post_link: PostLink,
    unescaped_text: &String,
    span_start: u128,
)
    requires
        post_link is Quote || post_link is Dead,
    ensures
        rendered(final(out_text_parts)@, final(out_spannables)@) == single_post_quote(
            viewer_of(*post_raw, *post_parser_context),
            rendered(old(out_text_parts)@, old(out_spannables)@),
            post_link@,
            unescaped_text@,
            span_start as nat,
        ),
{
    let (quote_post_id, is_dead) = match post_link {
        PostLink::Quote { post_no } => (post_no, false),
        PostLink::Dead { post_no } => (post_no, true),
        _ => (0, false),
    };
    let mut shown = unescaped_text.clone();
    let quotes_original_post = match post_parser_context.thread_id() {
        Some(_) => post_parser_context.is_quoting_original_post(quote_post_id),
        None => post_raw.is_quoting_original_post(quote_post_id),
    };
    if quotes_original_post {
        shown.append(OP_POSTFIX);
    }
    let ghost with_op = shown@;
    if post_parser_context.is_my_reply_to_my_own_post(post_raw.post_no(), quote_post_id) {
        shown.append(ME_POSTFIX);
    } else if post_parser_context.is_reply_to_my_post(quote_post_id) {
        shown.append(YOU_POSTFIX);
    }
    let ghost with_you = shown@;
    if is_dead {
        shown.append(DEAD_POSTFIX);
    }
    proof {
        let viewer = viewer_of(*post_raw, *post_parser_context);
        assert(shown@ =~= quote_text(viewer, post_link@, unescaped_text@));
    }
    let len = shown.as_str().unicode_len();
    push_spannable(out_spannables, span_start, len as u128, SpannableData::Link(post_link));
    push_text(out_text_parts, shown);
}

/// The output after an anchor with the text `text` was rendered. Nothing is
/// added if the anchor has no target or its target is a quote without a
/// number. A quote is rendered with its marks; a link into another thread
/// gets its mark; the annotation of a link covers what is shown.
pub open spec fn href_handled(viewer: Viewer, element: ElementView, out: Rendered, text: Seq<char>)
    -> Rendered {
    match lookup(element.attributes, HREF@) {
        None => out,
        Some(href) => match post_link_of(viewer.thread_posts, href) {
            None => out,
            Some(link) => {
                let unescaped = decoded_entities(text);
                let total = total_chars(out.texts);
                match link {
                    PostLinkView::Quote { .. } | PostLinkView::Dead { .. } => single_post_quote(
                        viewer,
                        out,
                        link,
                        unescaped,
                        total,
                    ),
                    PostLinkView::ThreadLink { .. } => with_text(
                        with_span(
                            out,
                            total,
                            (unescaped + CROSS_THREAD_POSTFIX@).len(),
                            SpannableDataView::Link(link),
                        ),
                        unescaped + CROSS_THREAD_POSTFIX@,
                    ),
                    _ => with_text(
                        with_span(out, total, unescaped.len(), SpannableDataView::Link(link)),
                        unescaped,
                    ),
                }
            },
        },
    }
}

/// Renders an anchor whose only child is the text `text`, as `href_handled`
/// says.
pub fn handle_href_attr(
    element: &Element,
    post_raw: &PostRaw,
    post_parser_context: &PostParserContext,
    out_text_parts: &mut Vec<TextPart>,
    out_spannables: &mut Vec<Spannable>,
    text: &String,
)
    ensures
        rendered(final(out_text_parts)@, final(out_spannables)@) == href_handled(
            viewer_of(*post_raw, *post_parser_context),
            element_view(*element),
            rendered(old(out_text_parts)@, old(out_spannables)@),
            text@,
        ),
{
    let link_raw = match get_attribute(&element.attributes, HREF) {
        Some(href) => href,
        None => {
            return ;
        },
    };
    let post_link = match link_raw_to_post_link(post_parser_context, link_raw.as_str()) {
        Ok(link) => link,
        Err(_) => {
            return ;
        },
    };
    let unescaped_text = decode_entities(text.as_str());
    let total_text_length = count_chars(out_text_parts, 0, out_text_parts.len());
    match post_link {
        PostLink::Quote { .. } | PostLink::Dead { .. } => {
            handle_single_post_quote(
                post_raw,
                post_parser_context,
                out_text_parts,
                out_spannables,
                post_link,
                &unescaped_text,
                total_text_length,
            );
        },
        PostLink::ThreadLink { .. } => {
            let shown = unescaped_text.concat(CROSS_THREAD_POSTFIX);
            let len = shown.as_str().unicode_len();
            push_spannable(
                out_spannables,
                total_text_length,
                len as u128,
                SpannableData::Link(post_link),
            );
            push_text(out_text_parts, shown);
        },
        _ => {
            let len = unescaped_text.as_str().unicode_len();
            push_spannable(
                out_spannables,
                total_text_length,
                len as u128,
                SpannableData::Link(post_link),
            );
            push_text(out_text_parts, unescaped_text);
        },
    }
}

/// The handler of `<a>`.
pub struct AnchorRuleHandler {}

/// What the handler of `<a>` does before the children are rendered. An
/// anchor that has not exactly one child is left to its children. One whose
/// child is a text is rendered as `href_handled` says; one whose child is an
/// element renders nothing. Both are then done.
pub open spec fn anchor_pre_handled(viewer: Viewer, element: ElementView, out: Rendered) -> (
    bool,
    Rendered,
) {
    if element.children.len() != 1 {
        (false, out)
    } else {
        match element.children[0] {
            NodeView::Text(text) => (true, href_handled(viewer, element, out, text)),
            NodeView::Element(_) => (true, out),
        }
    }
}

impl AnchorRuleHandler {
    /// The handler.
    pub fn new() -> AnchorRuleHandler {
        AnchorRuleHandler {  }
    }

    /// Renders the anchor before its children, as `anchor_pre_handled`
    /// says: the result tells whether the element is done.
    pub fn pre_handle(
        &self,
        post_raw: &PostRaw,
        post_parser_context: &PostParserContext,
        element: &Element,
        out_text_parts: &mut Vec<TextPart>,
        out_spannables: &mut Vec<Spannable>,
    ) -> (done: bool)
        ensures
            (done, rendered(final(out_text_parts)@, final(out_spannables)@)) == anchor_pre_handled(
                viewer_of(*post_raw, *post_parser_context),
                element_view(*element),
                rendered(old(out_text_parts)@, old(out_spannables)@),
            ),
    {
        proof {
            lemma_nodes_view_index(element.children@);
        }
        if element.children.len() != 1 {
            return false;
        }
        match &element.children[0] {
            Node::Text(text) => {
                handle_href_attr(
                    element,
                    post_raw,
                    post_parser_context,
                    out_text_parts,
                    out_spannables,
                    text,
                );
            },
            Node::Element(_) => {},
        }
        true
    }

    /// Does nothing: an anchor is rendered before its children.
    pub fn post_handle(
        &self,
        post_raw: &PostRaw,
        post_parser_context: &PostParserContext,
        element: &Element,
        prev_out_text_parts_index: usize,
        out_text_parts: &mut Vec<TextPart>,
        prev_out_spannables_index: usize,
        out_spannables: &mut Vec<Spannable>,
    )
        ensures
            *final(out_text_parts) == *old(out_text_parts),
            *final(out_spannables) == *old(out_spannables),
    {
    }
}

} // verus!
