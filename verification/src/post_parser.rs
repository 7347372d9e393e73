//! The pipeline: from the comment of a post to its text and annotations.

use crate::comment_parser::{
    default_rules, post_processed, pre_processed, replacements_view, CommentParser, RuleView,
};
use crate::entities::{decode_entities, decoded_entities};
use crate::html_parser::element::{
    lemma_nodes_view_index, lemma_nodes_view_push, node_view, nodes_view, Element,
};
use crate::html_parser::node::{Node, NodeView};
use crate::html_parser::parser::{parsed, HtmlParser};
use crate::laws::{lemma_spans_in_bounds, spans_within};
use crate::pattern::{capture_spans, captures_at};
use crate::post::{
    spannables_view, ParsedPost, ParsedSpannableText, PostParserContext, PostRaw,
};
use crate::rules::rule_handler::{
    push_spannable, push_text, rendered, span_is_kept, text_mark, viewer_of, Rendered, Viewer,
};
use crate::spannable::{PostLink, PostLinkView, Spannable, SpannableData, SpannableDataView, SpannableView};
use crate::text::{bytes_between, from_chars, replace_all, replaced, slice_bytes, sliceable, to_chars};
use crate::text_part::{count_chars, join_text, parts_view, total_chars, whole_text, TextPart};
use crate::util::theme_json_extractor::{detect_and_extract_theme_json, theme_spans};
use vstd::prelude::*;
use vstd::string::{StrSliceExecFns, StringExecFns};
use vstd::utf8::encode_utf8;

verus! {

/// The regular expression of an address in a text.
pub const LINK_PATTERN: &'static str =
    "https?://[-a-zA-Z0-9@:%._\\+~#=]{1,256}\\.[a-zA-Z0-9()]{1,6}\\b(?:[-\\w0-9()@:%_\\+.~#?&//=]*)";

/// The pattern that is taken out of every comment before it is parsed.
pub const WORD_BREAK_TAG: &'static str = "<wbr>";

/// The text of a comment that could not be parsed.
pub const PARSE_FAILURE_TEXT: &'static str = "Failed to parse comment_raw html";

/// The annotation of the address that a search found in `text` between the
/// bytes `from` and `to`, where `base` characters were emitted before
/// `text`. Its start and length count characters, not bytes. None if the
/// address is empty or its bounds do not lie between characters.
pub open spec fn link_span(text: Seq<char>, base: nat, from: int, to: int) -> Option<
    SpannableView,
> {
    if from < to && sliceable(text, 0, from) && sliceable(text, from, to) {
        Some(
            SpannableView {
                start: base + bytes_between(text, 0, from).len(),
                len: bytes_between(text, from, to).len(),
                data: SpannableDataView::Link(
                    PostLinkView::UrlLink { link: bytes_between(text, from, to) },
                ),
            },
        )
    } else {
        None
    }
}

/// `spans` with the annotation `span`, if there is one and it is kept.
pub open spec fn with_link(spans: Seq<SpannableView>, span: Option<SpannableView>) -> Seq<
    SpannableView,
> {
    match span {
        Some(found) => if span_is_kept(found.start, found.len) {
            spans.push(found)
        } else {
            spans
        },
        None => spans,
    }
}

/// The annotations after the addresses in `text` from the byte `offset` on
/// were added to `spans`. Each search begins where the match before it
/// ended; a match that ends where the search began is passed by one byte.
pub open spec fn link_scan(text: Seq<char>, base: nat, offset: int, spans: Seq<SpannableView>)
    -> Seq<SpannableView>
    decreases
            (if 0 <= offset <= encode_utf8(text).len() {
                encode_utf8(text).len() - offset + 1
            } else {
                0
            }),
{
    if offset < 0 || offset > encode_utf8(text).len() {
        spans
    } else {
        match capture_spans(LINK_PATTERN@, text, offset) {
            None => spans,
            Some(groups) => if groups.len() == 0 {
                spans
            } else {
                match groups[0] {
                    None => spans,
                    Some((from, to)) => link_scan(
                        text,
                        base,
                        if to > offset {
                            to as int
                        } else {
                            offset + 1
                        },
                        with_link(spans, link_span(text, base, from as int, to as int)),
                    ),
                }
            },
        }
    }
}

/// The output after a node was rendered. A text is decoded, annotated with
/// the addresses in it and emitted as one piece. Of an element the mark is
/// taken: the number of pieces emitted before it. Then the rules run; and
/// unless they say that the element is done, or it has no children, the
/// children are rendered and the rules run once more, now with the mark, so
/// that they can tell what the element added.
pub open spec fn rendered_node(rules: Seq<RuleView>, viewer: Viewer, node: NodeView, out: Rendered)
    -> Rendered
    decreases node,
{
    match node {
        NodeView::Text(raw) => {
            let text = decoded_entities(raw);
            Rendered {
                texts: out.texts.push(text),
                spans: link_scan(text, total_chars(out.texts), 0, out.spans),
            }
        },
        NodeView::Element(element) => {
            let before = pre_processed(rules, viewer, element, out);
            if before.0 || element.children.len() == 0 {
                before.1
            } else {
                post_processed(
                    rules,
                    element,
                    text_mark(out.texts),
                    rendered_nodes(rules, viewer, element.children, before.1),
                )
            }
        },
    }
}

/// The output after the nodes were rendered, one after the other.
pub open spec fn rendered_nodes(
    rules: Seq<RuleView>,
    viewer: Viewer,
    nodes: Seq<NodeView>,
    out: Rendered,
) -> Rendered
    decreases nodes,
{
    if nodes.len() == 0 {
        out
    } else {
        rendered_node(
            rules,
            viewer,
            nodes.last(),
            rendered_nodes(rules, viewer, nodes.drop_last(), out),
        )
    }
}

/// `text` after each of the replacements was made, in their order.
pub open spec fn with_replacements(text: Seq<char>, replacements: Seq<(Seq<char>, Seq<char>)>)
    -> Seq<char>
    decreases replacements.len(),
{
    if replacements.len() == 0 {
        text
    } else {
        replaced(
            with_replacements(text, replacements.drop_last()),
            replacements.last().0,
            replacements.last().1,
        )
    }
}

/// The mathematical value of a rendered comment.
pub struct ParsedView {
    pub original_text: Seq<char>,
    pub parsed_text: Seq<char>,
    pub spans: Seq<SpannableView>,
}

/// The rendering of the comment `com`. The replacements are made first. An
/// empty comment renders to nothing. A comment that cannot be parsed renders
/// to a text that says so, without annotations. Else the tree is rendered:
/// the text is all the pieces joined, and the annotations are those of the
/// rendering and then those of the theme descriptions in the text.
pub open spec fn parsed_comment(
    rules: Seq<RuleView>,
    replacements: Seq<(Seq<char>, Seq<char>)>,
    viewer: Viewer,
    com: Seq<char>,
) -> ParsedView {
    let raw = with_replacements(com, replacements);
    if com.len() == 0 || raw.len() == 0 {
        ParsedView {
            original_text: Seq::empty(),
            parsed_text: Seq::empty(),
            spans: Seq::empty(),
        }
    } else {
        match parsed(raw) {
            None => ParsedView {
                original_text: raw,
                parsed_text: PARSE_FAILURE_TEXT@,
                spans: Seq::empty(),
            },
            Some(nodes) => {
                let out = rendered_nodes(
                    rules,
                    viewer,
                    nodes,
                    Rendered { texts: Seq::empty(), spans: Seq::empty() },
                );
                ParsedView {
                    original_text: raw,
                    parsed_text: whole_text(out.texts),
                    spans: out.spans + theme_spans(whole_text(out.texts)),
                }
            },
        }
    }
}

/// The value of a rendered comment.
pub open spec fn parsed_view(parsed: ParsedSpannableText) -> ParsedView {
    ParsedView {
        original_text: parsed.original_text@,
        parsed_text: parsed.parsed_text@,
        spans: spannables_view(parsed.spannables@),
    }
}

/// The pipeline for the posts of one viewer.
pub struct PostParser<'a> {
    pub comment_parser: Box<CommentParser<'a>>,
}

impl<'a> PostParser<'a> {
    /// The pipeline with the rules of this library, which takes `<wbr>` out
    /// of a comment before it parses it.
    pub fn new(post_parser_context: &'a PostParserContext) -> (parser: PostParser<'a>)
        ensures
            parser.comment_parser.rules() == default_rules(),
            parser.comment_parser.replacements() == seq![(WORD_BREAK_TAG@, Seq::<char>::empty())],
            parser.comment_parser.context() == *post_parser_context,
    {
        let mut comment_parser = CommentParser::new(post_parser_context);
        comment_parser.add_default_matching_rules();
        proof {
            assert(""@ =~= Seq::<char>::empty()) by {
                reveal_strlit("");
            }
        }
        let added = comment_parser.add_replacement_rule(WORD_BREAK_TAG, "");
        assert(Seq::<RuleView>::empty() + default_rules() == default_rules());
        assert(comment_parser.replacements() =~= seq![(WORD_BREAK_TAG@, Seq::<char>::empty())]);
        PostParser { comment_parser: Box::new(comment_parser) }
    }

    /// The post with its comment rendered as `parsed_comment` says. Every
    /// annotation covers at least one character and lies within the text.
    pub fn parse_post(&self, post_raw: &PostRaw) -> (post: ParsedPost)
        ensures
            post.site_name@
                == post_raw.post_descriptor.thread_descriptor.board_descriptor.site_descriptor.site_name@,
            post.board_code@
                == post_raw.post_descriptor.thread_descriptor.board_descriptor.board_code@,
            post.thread_no == post_raw.post_descriptor.thread_descriptor.thread_no,
            post.post_no == post_raw.post_descriptor.post_no,
            post.post_sub_no == post_raw.post_descriptor.post_sub_no,
            parsed_view(post.post_comment_parsed) == parsed_comment(
                self.comment_parser.rules(),
                self.comment_parser.replacements(),
                viewer_of(*post_raw, self.comment_parser.context()),
                post_raw.com@,
            ),
            spans_within(
                spannables_view(post.post_comment_parsed.spannables@),
                post.post_comment_parsed.parsed_text@.len(),
            ),
    {
        ParsedPost::new(post_raw, self.parse_comment(post_raw))
    }

    /// The comment of the post, rendered as `parsed_comment` says. Every
    /// annotation covers at least one character and lies within the text.
    pub fn parse_comment(&self, post_raw: &PostRaw) -> (comment: ParsedSpannableText)
        ensures
            parsed_view(comment) == parsed_comment(
                self.comment_parser.rules(),
                self.comment_parser.replacements(),
                viewer_of(*post_raw, self.comment_parser.context()),
                post_raw.com@,
            ),
            spans_within(spannables_view(comment.spannables@), comment.parsed_text@.len()),
    {
        proof {
            lemma_spans_in_bounds(
                self.comment_parser.rules(),
                self.comment_parser.replacements(),
                viewer_of(*post_raw, self.comment_parser.context()),
                post_raw.com@,
            );
        }
        let comment_raw = self.pre_process_comment(post_raw);
        if comment_raw.as_str().unicode_len() == 0 {
            let comment = ParsedSpannableText::empty();
            assert(comment.original_text@ =~= Seq::<char>::empty());
            assert(comment.parsed_text@ =~= Seq::<char>::empty());
            assert(spannables_view(comment.spannables@) =~= Seq::<SpannableView>::empty());
            return comment;
        }
        let html_parser = HtmlParser::new();
        let nodes = match html_parser.parse(comment_raw.as_str()) {
            Ok(nodes) => nodes,
            Err(_) => {
                let comment = ParsedSpannableText::new(
                    comment_raw.as_str(),
                    Box::new(String::from_str(PARSE_FAILURE_TEXT)),
                    Box::new(Vec::new()),
                );
                assert(spannables_view(comment.spannables@) =~= Seq::<SpannableView>::empty());
                return comment;
            },
        };
        let mut out_text_parts: Vec<TextPart> = Vec::new();
        let mut out_spannables: Vec<Spannable> = Vec::new();
        assert(parts_view(out_text_parts@) =~= Seq::<Seq<char>>::empty());
        assert(spannables_view(out_spannables@) =~= Seq::<SpannableView>::empty());
        self.process_element(post_raw, &nodes, &mut out_text_parts, &mut out_spannables);
        let parsed_text = join_text(&out_text_parts, 0, out_text_parts.len());
        detect_and_extract_theme_json(parsed_text.as_str(), &mut out_spannables);
        ParsedSpannableText::new(
            comment_raw.as_str(),
            Box::new(parsed_text),
            Box::new(out_spannables),
        )
    }

    /// The comment of the post after the replacements were made.
    pub fn pre_process_comment(&self, post_raw: &PostRaw) -> (comment: String)
        ensures
            comment@ == (if post_raw.com@.len() == 0 {
                Seq::<char>::empty()
            } else {
                with_replacements(post_raw.com@, self.comment_parser.replacements())
            }),
    {
        if post_raw.com.as_str().unicode_len() == 0 {
            return String::new();
        }
        let mut text = to_chars(post_raw.com.as_str());
        let pairs = self.comment_parser.replacement_pairs();
        let ghost all = self.comment_parser.replacements();
        let mut i: usize = 0;
        assert(all.take(0) == Seq::<(Seq<char>, Seq<char>)>::empty());
        while i < pairs.len()
            invariant
                i <= pairs@.len(),
                all == self.comment_parser.replacements(),
                replacements_view(pairs@) == all,
                text@ == with_replacements(post_raw.com@, all.take(i as int)),
            decreases pairs@.len() - i,
        {
            proof {
                assert(all.take(i + 1).drop_last() == all.take(i as int));
                assert(all.take(i + 1).last() == all[i as int]);
                assert(all[i as int] == (pairs@[i as int].0@, pairs@[i as int].1@));
            }
            let pattern = to_chars(pairs[i].0.as_str());
            let value = to_chars(pairs[i].1.as_str());
            text = replace_all(&text, &pattern, &value);
            i += 1;
        }
        assert(all.take(all.len() as int) == all);
        assert(text@.subrange(0, text@.len() as int) == text@);
        from_chars(&text, 0, text.len())
    }

    /// Renders the nodes, one after the other, as `rendered_nodes` says.
    pub fn process_element(
        &self,
        post_raw: &PostRaw,
        nodes: &Vec<Node>,
        out_text_parts: &mut Vec<TextPart>,
        out_spannables: &mut Vec<Spannable>,
    )
        ensures
            rendered(final(out_text_parts)@, final(out_spannables)@) == rendered_nodes(
                self.comment_parser.rules(),
                viewer_of(*post_raw, self.comment_parser.context()),
                nodes_view(nodes@),
                rendered(old(out_text_parts)@, old(out_spannables)@),
            ),
        decreases nodes,
    {
        let ghost rules = self.comment_parser.rules();
        let ghost viewer = viewer_of(*post_raw, self.comment_parser.context());
        let ghost start = rendered(out_text_parts@, out_spannables@);
        let mut i: usize = 0;
        assert(nodes@.take(0) == Seq::<Node>::empty());
        while i < nodes.len()
            invariant
                i <= nodes@.len(),
                rules == self.comment_parser.rules(),
                viewer == viewer_of(*post_raw, self.comment_parser.context()),
                rendered(out_text_parts@, out_spannables@) == rendered_nodes(
                    rules,
                    viewer,
                    nodes_view(nodes@.take(i as int)),
                    start,
                ),
            decreases nodes@.len() - i,
        {
            let ghost before = rendered(out_text_parts@, out_spannables@);
            proof {
                assert(nodes@.take(i + 1) == nodes@.take(i as int).push(nodes@[i as int]));
                lemma_nodes_view_push(nodes@.take(i as int), nodes@[i as int]);
                assert(nodes_view(nodes@.take(i + 1)).drop_last() == nodes_view(
                    nodes@.take(i as int),
                ));
                assert(nodes_view(nodes@.take(i + 1)).last() == node_view(nodes@[i as int]));
                assert(rendered_nodes(rules, viewer, nodes_view(nodes@.take(i + 1)), start)
                    == rendered_node(rules, viewer, node_view(nodes@[i as int]), before));
            }
            match &nodes[i] {
                Node::Text(text) => {
                    let unescaped_text = decode_entities(text.as_str());
                    self.detect_links(out_text_parts, &unescaped_text, out_spannables);
                    push_text(out_text_parts, unescaped_text);
                },
                Node::Element(element) => {
                    let prev_out_text_parts_index = out_text_parts.len();
                    let prev_out_spannables_index = out_spannables.len();
                    let done = self.comment_parser.pre_process_element(
                        post_raw,
                        element,
                        out_text_parts,
                        out_spannables,
                    );
                    proof {
                        lemma_nodes_view_index(element.children@);
                    }
                    if !done && element.children.len() > 0 {
                        self.process_element(
                            post_raw,
                            &element.children,
                            out_text_parts,
                            out_spannables,
                        );
                        self.comment_parser.post_process_element(
                            post_raw,
                            element,
                            prev_out_text_parts_index,
                            out_text_parts,
                            prev_out_spannables_index,
                            out_spannables,
                        );
                    }
                },
            }
            i += 1;
        }
        assert(nodes@.take(nodes@.len() as int) == nodes@);
    }

    /// Adds an annotation for each address in `text`, as `link_scan` says,
    /// where `text` is to be emitted behind `out_text_parts`.
    pub fn detect_links(
        &self,
        out_text_parts: &Vec<TextPart>,
        text: &String,
        out_spannables: &mut Vec<Spannable>,
    )
        ensures
            spannables_view(final(out_spannables)@) == link_scan(
                text@,
                total_chars(parts_view(out_text_parts@)),
                0,
                spannables_view(old(out_spannables)@),
            ),
    {
        let size = text.as_str().as_bytes().len();
        let total_text_chars_count = count_chars(out_text_parts, 0, out_text_parts.len());
        let ghost base = total_chars(parts_view(out_text_parts@));
        let ghost goal = link_scan(text@, base, 0, spannables_view(out_spannables@));
        let mut offset: usize = 0;
        while offset <= size
            invariant
                size == encode_utf8(text@).len(),
                out_text_parts@.len() <= usize::MAX,
                base == total_chars(parts_view(out_text_parts@)),
                total_text_chars_count == base,
                total_text_chars_count <= out_text_parts@.len() * 0x1_0000_0000_0000_0000,
                goal == link_scan(text@, base, 0, spannables_view(old(out_spannables)@)),
                link_scan(text@, base, offset as int, spannables_view(out_spannables@)) == goal,
            decreases
                    (if offset <= size {
                        size + 1 - offset
                    } else {
                        0
                    }),
        {
            let groups = match captures_at(LINK_PATTERN, text.as_str(), offset) {
                Some(groups) => groups,
                None => {
                    return ;
                },
            };
            if groups.len() == 0 {
                return ;
            }
            let (from, to) = match groups[0] {
                Some(bounds) => bounds,
                None => {
                    return ;
                },
            };
            if from < to {
                match (slice_bytes(text.as_str(), 0, from), slice_bytes(text.as_str(), from, to)) {
                    (Some(before), Some(link)) => {
                        let start = total_text_chars_count + before.unicode_len() as u128;
                        let len = link.unicode_len() as u128;
                        push_spannable(
                            out_spannables,
                            start,
                            len,
                            SpannableData::Link(PostLink::UrlLink { link: String::from_str(link) }),
                        );
                    },
                    _ => {},
                }
            }
            if to > offset {
                offset = to;
            } else if offset == usize::MAX {
                assert(link_scan(text@, base, offset + 1, spannables_view(out_spannables@))
                    == spannables_view(out_spannables@));
                return ;
            } else {
                offset += 1;
            }
        }
    }
}

} // verus!
