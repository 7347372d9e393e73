//! The tokenizer: one pass from left to right over the characters.

use crate::html_parser::attributes::{
    attribute_entries, attribute_pairs, insert_attribute, new_attributes, with_entry,
};
use crate::html_parser::element::{
    element_view, lemma_nodes_view_push, nodes_view, node_view, Element, ElementView,
};
use crate::html_parser::node::{Node, NodeView};
use crate::parsing_error::ParsingError;
use crate::text::{
    chars_contain, chars_eq, find_from, first_index, from_chars, lemma_first_index, to_chars,
};
use linked_hash_map::LinkedHashMap;
use vstd::prelude::*;
use vstd::string::StringExecFns;

verus! {

/// The tokenizer. It holds no state.
pub struct HtmlParser {}

/// The state of splitting `s` at the separator `sep`, having read `s[..i]`:
/// `inside` says whether a double quote is open, `current` is the part being
/// read and `parts` are the parts that are complete.
pub open spec fn split_from(
    s: Seq<char>,
    sep: char,
    i: int,
    inside: bool,
    current: Seq<char>,
    parts: Seq<Seq<char>>,
) -> Seq<Seq<char>>
    decreases s.len() - i,
{
    if i < 0 || i >= s.len() {
        if current.len() > 0 {
            parts.push(current)
        } else {
            parts
        }
    } else {
        let inside_now = if s[i] == '"' {
            !inside
        } else {
            inside
        };
        if s[i] == sep && !inside_now {
            split_from(s, sep, i + 1, inside_now, Seq::empty(), parts.push(current))
        } else {
            split_from(s, sep, i + 1, inside_now, current.push(s[i]), parts)
        }
    }
}

/// The parts of `s` between separators that stand outside double quotes. A
/// part before a separator may be empty; an empty part at the end is left out.
pub open spec fn split_parts(s: Seq<char>, sep: char) -> Seq<Seq<char>> {
    split_from(s, sep, 0, false, Seq::empty(), Seq::empty())
}

/// The characters of each string.
pub open spec fn strings_view(strings: Seq<String>) -> Seq<Seq<char>> {
    strings.map_values(|s: String| s@)
}

/// The characters of each vector.
pub open spec fn vectors_view(vectors: Seq<Vec<char>>) -> Seq<Seq<char>> {
    vectors.map_values(|v: Vec<char>| v@)
}

/// Splits `chars[from..to]` as `split_parts` says.
fn split_chars(chars: &Vec<char>, from: usize, to: usize, sep: char) -> (parts: Vec<Vec<char>>)
    requires
        from <= to <= chars@.len(),
    ensures
        vectors_view(parts@) == split_parts(chars@.subrange(from as int, to as int), sep),
{
    let ghost s = chars@.subrange(from as int, to as int);
    let mut parts: Vec<Vec<char>> = Vec::new();
    let mut current: Vec<char> = Vec::new();
    let mut inside = false;
    let mut i: usize = from;
    assert(vectors_view(parts@) == Seq::<Seq<char>>::empty());
    while i < to
        invariant
            from <= i <= to <= chars@.len(),
            s == chars@.subrange(from as int, to as int),
            split_from(s, sep, i - from, inside, current@, vectors_view(parts@)) == split_parts(
                s,
                sep,
            ),
        decreases to - i,
    {
        let c = chars[i];
        assert(s[i - from] == c);
        if c == '"' {
            inside = !inside;
        }
        if c == sep && !inside {
            let ghost before = vectors_view(parts@);
            parts.push(current);
            assert(vectors_view(parts@) == before.push(current@));
            current = Vec::new();
        } else {
            current.push(c);
        }
        i += 1;
    }
    if current.len() > 0 {
        let ghost before = vectors_view(parts@);
        parts.push(current);
        assert(vectors_view(parts@) == before.push(current@));
    }
    parts
}

/// Whether `name` names a void element: one that never has children.
pub open spec fn is_void_name(name: Seq<char>) -> bool {
    name == "area"@ || name == "base"@ || name == "br"@ || name == "wbr"@ || name == "col"@
        || name == "hr"@ || name == "img"@ || name == "input"@ || name == "link"@ || name
        == "meta"@ || name == "param"@
}

/// Decides `is_void_name`.
fn is_void(name: &Vec<char>) -> (void: bool)
    ensures
        void == is_void_name(name@),
{
    chars_eq(name, &to_chars("area")) || chars_eq(name, &to_chars("base")) || chars_eq(
        name,
        &to_chars("br"),
    ) || chars_eq(name, &to_chars("wbr")) || chars_eq(name, &to_chars("col")) || chars_eq(
        name,
        &to_chars("hr"),
    ) || chars_eq(name, &to_chars("img")) || chars_eq(name, &to_chars("input")) || chars_eq(
        name,
        &to_chars("link"),
    ) || chars_eq(name, &to_chars("meta")) || chars_eq(name, &to_chars("param"))
}

/// `value` without one double quote at its start and one at its end.
pub open spec fn strip_quotes(value: Seq<char>) -> Seq<char> {
    let opened = if value.len() > 0 && value[0] == '"' {
        value.drop_first()
    } else {
        value
    };
    if opened.len() > 0 && opened.last() == '"' {
        opened.drop_last()
    } else {
        opened
    }
}

/// The attribute that the part `name=value` of a tag gives: none if the name
/// or the value, quotes taken off, is empty.
pub open spec fn attribute_of(part: Seq<char>) -> Option<(Seq<char>, Seq<char>)> {
    let sides = split_parts(part, '=');
    let name = if sides.len() > 0 {
        sides[0]
    } else {
        Seq::empty()
    };
    let value = strip_quotes(
        if sides.len() > 1 {
            sides[1]
        } else {
            Seq::empty()
        },
    );
    if name.len() == 0 || value.len() == 0 {
        None
    } else {
        Some((name, value))
    }
}

/// The attributes that the parts of a tag give, each part that holds `=` set
/// in turn: a later one replaces an earlier one of the same name.
pub open spec fn attributes_of(parts: Seq<Seq<char>>) -> Seq<(Seq<char>, Seq<char>)>
    decreases parts.len(),
{
    if parts.len() == 0 {
        Seq::empty()
    } else {
        let before = attributes_of(parts.drop_last());
        if parts.last().contains('=') {
            match attribute_of(parts.last()) {
                Some((name, value)) => with_entry(before, name, value),
                None => before,
            }
        } else {
            before
        }
    }
}

/// The name of a tag: its first part that is not empty and holds no `=`.
pub open spec fn tag_name_of(parts: Seq<Seq<char>>) -> Option<Seq<char>>
    decreases parts.len(),
{
    if parts.len() == 0 {
        None
    } else if parts[0].len() > 0 && !parts[0].contains('=') {
        Some(parts[0])
    } else {
        tag_name_of(parts.drop_first())
    }
}

/// The element, still without children, that the text between `<` and `>`
/// describes: none if that text names no tag.
pub open spec fn tag_of(raw: Seq<char>) -> Option<ElementView> {
    let parts = split_parts(raw, ' ');
    match tag_name_of(parts) {
        Some(name) => Some(
            ElementView {
                tag_name: name,
                attributes: attributes_of(parts),
                children: Seq::empty(),
                is_void_element: is_void_name(name),
            },
        ),
        None => None,
    }
}

/// `nodes`, followed by the text `html[from..to]` if it is not empty.
pub open spec fn with_text(nodes: Seq<NodeView>, html: Seq<char>, from: int, to: int) -> Seq<
    NodeView,
> {
    if 0 <= from < to <= html.len() {
        nodes.push(NodeView::Text(html.subrange(from, to)))
    } else {
        nodes
    }
}

/// The nodes read from `html[at..]` up to the closing tag that ends them or
/// to the end of the input, after `nodes` and the pending text `html[text_from..at]`,
/// and the position where reading stopped. None if a tag is not closed by `>`
/// or has no name. Reading the children of an element ends behind the
/// element's tag (`lemma_nodes_from_bounds`), so the test for that never
/// fails: it is there to show that the definition ends.
pub open spec fn nodes_from(html: Seq<char>, text_from: int, at: int, nodes: Seq<NodeView>)
    -> Option<(Seq<NodeView>, int)>
    decreases
            (if at < html.len() {
                html.len() - at
            } else {
                0
            }),
{
    if at < 0 || at >= html.len() {
        Some((with_text(nodes, html, text_from, html.len() as int), html.len() as int))
    } else if html[at] != '<' {
        nodes_from(html, text_from, at + 1, nodes)
    } else {
        let nodes = with_text(nodes, html, text_from, at);
        match first_index(html.skip(at + 1), '>') {
            None => None,
            Some(k) => {
                let end = at + 1 + k;
                if k > 0 && html[at + 1] == '/' {
                    Some((nodes, end + 1))
                } else {
                    match tag_of(html.subrange(at + 1, end)) {
                        None => None,
                        Some(element) => if element.is_void_element {
                            nodes_from(
                                html,
                                end + 1,
                                end + 1,
                                nodes.push(NodeView::Element(element)),
                            )
                        } else {
                            match nodes_from(html, end + 1, end + 1, Seq::empty()) {
                                None => None,
                                Some((children, next)) => if next <= end {
                                    None
                                } else {
                                    nodes_from(
                                        html,
                                        next,
                                        next,
                                        nodes.push(
                                            NodeView::Element(
                                                ElementView {
                                                    tag_name: element.tag_name,
                                                    attributes: element.attributes,
                                                    children,
                                                    is_void_element: false,
                                                },
                                            ),
                                        ),
                                    )
                                },
                            }
                        },
                    }
                }
            },
        }
    }
}

/// The tree that `html` describes, if every tag in it is closed by `>` and
/// has a name.
pub open spec fn parsed(html: Seq<char>) -> Option<Seq<NodeView>> {
    match nodes_from(html, 0, 0, Seq::empty()) {
        Some((nodes, _)) => Some(nodes),
        None => None,
    }
}

/// The attributes as they are listed in a dump: `, name=value` for each.
pub open spec fn dump_of_attributes(attributes: Seq<(Seq<char>, Seq<char>)>) -> Seq<char>
    decreases attributes.len(),
{
    if attributes.len() == 0 {
        Seq::empty()
    } else {
        dump_of_attributes(attributes.drop_last()) + ", "@ + attributes.last().0 + "="@
            + attributes.last().1
    }
}

/// The dump of one node: a line with its text, or a line with its tag and
/// attributes and then the dump of its children.
pub open spec fn dump_of_node(node: NodeView) -> Seq<char>
    decreases node,
{
    match node {
        NodeView::Text(text) => text + "\n"@,
        NodeView::Element(element) => "<"@ + element.tag_name + dump_of_attributes(
            element.attributes,
        ) + ">"@ + "\n"@ + dump_of_nodes(element.children),
    }
}

/// The dump of nodes: that of each one, in order.
pub open spec fn dump_of_nodes(nodes: Seq<NodeView>) -> Seq<char>
    decreases nodes,
{
    if nodes.len() == 0 {
        Seq::empty()
    } else {
        dump_of_nodes(nodes.drop_last()) + dump_of_node(nodes.last())
    }
}

/// Reading stops at or after the place where it started, and within the input.
pub proof fn lemma_nodes_from_bounds(
    html: Seq<char>,
    text_from: int,
    at: int,
    nodes: Seq<NodeView>,
)
    requires
        0 <= at <= html.len(),
    ensures
        match nodes_from(html, text_from, at, nodes) {
            Some((_, next)) => at <= next <= html.len(),
            None => true,
        },
    decreases html.len() - at,
{
    if at < html.len() {
        if html[at] != '<' {
            lemma_nodes_from_bounds(html, text_from, at + 1, nodes);
        } else {
            let flushed = with_text(nodes, html, text_from, at);
            lemma_first_index(html.skip(at + 1), '>');
            match first_index(html.skip(at + 1), '>') {
                None => {},
                Some(k) => {
                    let end = at + 1 + k;
                    if !(k > 0 && html[at + 1] == '/') {
                        match tag_of(html.subrange(at + 1, end)) {
                            None => {},
                            Some(element) => {
                                if element.is_void_element {
                                    lemma_nodes_from_bounds(
                                        html,
                                        end + 1,
                                        end + 1,
                                        flushed.push(NodeView::Element(element)),
                                    );
                                } else {
                                    lemma_nodes_from_bounds(html, end + 1, end + 1, Seq::empty());
                                    match nodes_from(html, end + 1, end + 1, Seq::empty()) {
                                        None => {},
                                        Some((children, next)) => {
                                            lemma_nodes_from_bounds(
                                                html,
                                                next,
                                                next,
                                                flushed.push(
                                                    NodeView::Element(
                                                        ElementView {
                                                            tag_name: element.tag_name,
                                                            attributes: element.attributes,
                                                            children,
                                                            is_void_element: false,
                                                        },
                                                    ),
                                                ),
                                            );
                                        },
                                    }
                                }
                            },
                        }
                    }
                },
            }
        }
    }
}

/// Reads one part `name=value` of a tag as `attribute_of` says.
fn parse_attribute(part: &Vec<char>) -> (attribute: Option<(String, String)>)
    ensures
        match attribute_of(part@) {
            Some((name, value)) => attribute matches Some(pair) && pair.0@ == name && pair.1@
                == value,
            None => attribute is None,
        },
{
    assert(part@.subrange(0, part@.len() as int) == part@);
    let sides = split_chars(part, 0, part.len(), '=');
    if sides.len() == 0 || sides[0].len() == 0 || sides.len() < 2 {
        return None;
    }
    let value = &sides[1];
    let mut from: usize = 0;
    let mut to: usize = value.len();
    if from < to && value[from] == '"' {
        from += 1;
    }
    if from < to && value[to - 1] == '"' {
        to -= 1;
    }
    assert(value@.subrange(from as int, to as int) == strip_quotes(value@));
    if from == to {
        return None;
    }
    let name = &sides[0];
    assert(name@.subrange(0, name@.len() as int) == name@);
    Some((from_chars(name, 0, name.len()), from_chars(value, from, to)))
}

impl HtmlParser {
    /// A tokenizer.
    pub fn new() -> HtmlParser {
        HtmlParser {  }
    }

    /// The tree of `html`, or an error if a tag in it is not closed by `>` or
    /// has no name. A closing tag ends the nearest open element, whatever its
    /// name; one that closes no element ends the tree.
    pub fn parse(&self, html: &str) -> (tree: Result<Vec<Node>, ParsingError>)
        ensures
            match parsed(html@) {
                Some(nodes) => tree matches Ok(found) && nodes_view(found@) == nodes,
                None => tree is Err,
            },
    {
        let chars = to_chars(html);
        match self.parse_internal(&chars, 0) {
            Ok(found) => Ok(found.0),
            Err(error) => Err(error),
        }
    }

    /// Reads nodes from `html[start..]` as `nodes_from` says.
    fn parse_internal(&self, html: &Vec<char>, start: usize) -> (read: Result<
        (Vec<Node>, usize),
        ParsingError,
    >)
        requires
            start <= html@.len(),
        ensures
            match nodes_from(html@, start as int, start as int, Seq::empty()) {
                Some((nodes, next)) => read matches Ok(found) && nodes_view(found.0@) == nodes
                    && found.1 == next && start <= found.1 <= html@.len(),
                None => read is Err,
            },
        decreases html@.len() - start,
    {
        let mut out: Vec<Node> = Vec::new();
        let mut text_from: usize = start;
        let mut at: usize = start;
        while at < html.len()
            invariant
                start <= text_from <= at <= html@.len(),
                nodes_from(html@, text_from as int, at as int, nodes_view(out@)) == nodes_from(
                    html@,
                    start as int,
                    start as int,
                    Seq::empty(),
                ),
            decreases html@.len() - at,
        {
            if html[at] != '<' {
                at += 1;
                continue ;
            }
            if text_from < at {
                let text = from_chars(html, text_from, at);
                proof {
                    lemma_nodes_view_push(out@, Node::Text(text));
                }
                out.push(Node::Text(text));
            }
            proof {
                lemma_first_index(html@.skip(at + 1), '>');
                lemma_nodes_from_bounds(html@, start as int, start as int, Seq::empty());
            }
            if at + 1 < html.len() && html[at + 1] == '/' {
                assert(html@.skip(at + 1)[0] == '/');
                return match self.skip_tag_end(html, at + 1) {
                    Some(next) => Ok((out, next)),
                    None => Err(ParsingError::new("a closing tag has no end")),
                };
            }
            let end = match find_from(html, at + 1, '>') {
                Some(k) => at + 1 + k,
                None => {
                    return Err(ParsingError::new("a tag has no end"));
                },
            };
            assert(end > at + 1 ==> html@.skip(at + 1)[0] == html@[at + 1]);
            let element = match self.create_tag(html, at + 1, end) {
                Some(element) => element,
                None => {
                    return Err(ParsingError::new("a tag has no name"));
                },
            };
            if element.is_void_element {
                proof {
                    lemma_nodes_view_push(out@, Node::Element(element));
                }
                out.push(Node::Element(element));
            } else {
                let (children, next) = match self.parse_internal(html, end + 1) {
                    Ok(found) => found,
                    Err(error) => {
                        return Err(error);
                    },
                };
                let parent = Element {
                    tag_name: element.tag_name,
                    attributes: element.attributes,
                    children,
                    is_void_element: false,
                };
                proof {
                    lemma_nodes_view_push(out@, Node::Element(parent));
                }
                out.push(Node::Element(parent));
                at = next;
                text_from = next;
                continue ;
            }
            at = end + 1;
            text_from = at;
        }
        if text_from < at {
            let text = from_chars(html, text_from, at);
            proof {
                lemma_nodes_view_push(out@, Node::Text(text));
            }
            out.push(Node::Text(text));
        }
        Ok((out, at))
    }

    /// The position after the first `>` in `html[start..]`, if there is one.
    pub fn skip_tag_end(&self, html: &Vec<char>, start: usize) -> (next: Option<usize>)
        requires
            start <= html@.len(),
        ensures
            match first_index(html@.skip(start as int), '>') {
                Some(k) => next == Some((start + k + 1) as usize) && start + k + 1 <= html@.len(),
                None => next is None,
            },
    {
        let len = html.len();
        match find_from(html, start, '>') {
            Some(k) => {
                assert(start + k < len);
                Some(start + k + 1)
            },
            None => None,
        }
    }

    /// Builds the element, still without children, that `html[from..to]`,
    /// the text between `<` and `>`, describes.
    fn create_tag(&self, html: &Vec<char>, from: usize, to: usize) -> (tag: Option<Element>)
        requires
            from <= to <= html@.len(),
        ensures
            match tag_of(html@.subrange(from as int, to as int)) {
                Some(element) => tag matches Some(built) && element_view(built) == element,
                None => tag is None,
            },
    {
        let parts = split_chars(html, from, to, ' ');
        let ghost all = vectors_view(parts@);
        let mut found: Option<usize> = None;
        let mut i: usize = 0;
        assert(all.skip(0) == all);
        while i < parts.len() && found.is_none()
            invariant
                i <= parts@.len(),
                all == vectors_view(parts@),
                match found {
                    Some(at) => at < parts@.len() && tag_name_of(all) == Some(parts@[at as int]@),
                    None => tag_name_of(all.skip(i as int)) == tag_name_of(all),
                },
            decreases parts@.len() - i + (if found is None { 1int } else { 0int }),
        {
            assert(all.skip(i as int)[0] == parts@[i as int]@);
            assert(all.skip(i as int).drop_first() == all.skip(i + 1));
            if parts[i].len() > 0 && !chars_contain(&parts[i], '=') {
                found = Some(i);
            } else {
                i += 1;
            }
        }
        let name_at = match found {
            Some(at) => at,
            None => {
                return None;
            },
        };
        let mut attributes = new_attributes();
        let mut j: usize = 0;
        assert(all.take(0) == Seq::<Seq<char>>::empty());
        while j < parts.len()
            invariant
                j <= parts@.len(),
                all == vectors_view(parts@),
                attribute_entries(attributes) == attributes_of(all.take(j as int)),
            decreases parts@.len() - j,
        {
            assert(all.take(j + 1).drop_last() == all.take(j as int));
            assert(all.take(j + 1).last() == parts@[j as int]@);
            if chars_contain(&parts[j], '=') {
                match parse_attribute(&parts[j]) {
                    Some(pair) => {
                        insert_attribute(&mut attributes, pair.0, pair.1);
                    },
                    None => {},
                }
            }
            j += 1;
        }
        assert(all.take(parts@.len() as int) == all);
        let name = &parts[name_at];
        assert(name@.subrange(0, name@.len() as int) == name@);
        Some(
            Element {
                tag_name: from_chars(name, 0, name.len()),
                attributes,
                children: Vec::new(),
                is_void_element: is_void(name),
            },
        )
    }

    /// A dump of the tree, one line for each node, parents before children.
    pub fn debug_concat_into_string(&self, nodes: &Vec<Node>) -> (dump: String)
        ensures
            dump@ == dump_of_nodes(nodes_view(nodes@)),
    {
        let mut dump = String::new();
        self.debug_concat_into_string_internal(nodes, &mut dump);
        assert(Seq::<char>::empty() + dump_of_nodes(nodes_view(nodes@)) == dump_of_nodes(
            nodes_view(nodes@),
        ));
        dump
    }

    /// Adds the dump of `nodes` to `out`.
    pub fn debug_concat_into_string_internal(&self, nodes: &Vec<Node>, out: &mut String)
        ensures
            final(out)@ == old(out)@ + dump_of_nodes(nodes_view(nodes@)),
        decreases nodes,
    {
        let mut i: usize = 0;
        assert(nodes@.take(0) == Seq::<Node>::empty());
        assert(out@ + Seq::<char>::empty() == out@);
        while i < nodes.len()
            invariant
                i <= nodes@.len(),
                out@ == old(out)@ + dump_of_nodes(nodes_view(nodes@.take(i as int))),
            decreases nodes@.len() - i,
        {
            let ghost before = out@;
            let ghost done = dump_of_nodes(nodes_view(nodes@.take(i as int)));
            proof {
                assert(nodes@.take(i + 1) == nodes@.take(i as int).push(nodes@[i as int]));
                lemma_nodes_view_push(nodes@.take(i as int), nodes@[i as int]);
                assert(nodes_view(nodes@.take(i + 1)).drop_last() == nodes_view(
                    nodes@.take(i as int),
                ));
                assert(nodes_view(nodes@.take(i + 1)).last() == node_view(nodes@[i as int]));
                assert(dump_of_nodes(nodes_view(nodes@.take(i + 1))) == done + dump_of_node(
                    node_view(nodes@[i as int]),
                ));
            }
            match &nodes[i] {
                Node::Text(text) => {
                    out.append(text.as_str());
                    out.append("\n");
                    assert(out@ == old(out)@ + (done + (text@ + "\n"@)));
                },
                Node::Element(element) => {
                    out.append("<");
                    out.append(element.tag_name.as_str());
                    self.debug_format_attributes(&element.attributes, out);
                    out.append(">");
                    out.append("\n");
                    let ghost head = "<"@ + element.tag_name@ + dump_of_attributes(
                        attribute_entries(element.attributes),
                    ) + ">"@ + "\n"@;
                    assert(out@ == before + head);
                    self.debug_concat_into_string_internal(&element.children, out);
                    assert(out@ == old(out)@ + (done + (head + dump_of_nodes(
                        nodes_view(element.children@),
                    ))));
                },
            }
            i += 1;
        }
        assert(nodes@.take(nodes@.len() as int) == nodes@);
    }

    /// Adds the attributes to `out` as a dump lists them.
    fn debug_format_attributes(&self, attributes: &LinkedHashMap<String, String>, out: &mut String)
        ensures
            final(out)@ == old(out)@ + dump_of_attributes(attribute_entries(*attributes)),
    {
        let pairs = attribute_pairs(attributes);
        let ghost entries = attribute_entries(*attributes);
        let mut i: usize = 0;
        assert(entries.take(0) == Seq::<(Seq<char>, Seq<char>)>::empty());
        assert(out@ + Seq::<char>::empty() == out@);
        while i < pairs.len()
            invariant
                i <= pairs@.len(),
                entries == attribute_entries(*attributes),
                pairs@.len() == entries.len(),
                forall|k: int|
                    0 <= k < pairs@.len() ==> (#[trigger] pairs@[k]).0@ == entries[k].0
                        && pairs@[k].1@ == entries[k].1,
                out@ == old(out)@ + dump_of_attributes(entries.take(i as int)),
            decreases pairs@.len() - i,
        {
            let ghost done = dump_of_attributes(entries.take(i as int));
            assert(entries.take(i + 1).drop_last() == entries.take(i as int));
            assert(entries.take(i + 1).last() == entries[i as int]);
            let pair = &pairs[i];
            out.append(", ");
            out.append(pair.0.as_str());
            out.append("=");
            out.append(pair.1.as_str());
            assert(out@ == old(out)@ + (done + ", "@ + pair.0@ + "="@ + pair.1@));
            i += 1;
        }
        assert(entries.take(entries.len() as int) == entries);
    }

    /// The parts of `tag_raw` between separators that stand outside double
    /// quotes.
    pub fn split_into_parts_by_separator(&self, tag_raw: &String, separator: char) -> (parts: Vec<
        String,
    >)
        ensures
            strings_view(parts@) == split_parts(tag_raw@, separator),
    {
        let chars = to_chars(tag_raw.as_str());
        assert(chars@.subrange(0, chars@.len() as int) == chars@);
        let split = split_chars(&chars, 0, chars.len(), separator);
        let mut parts: Vec<String> = Vec::new();
        let mut i: usize = 0;
        while i < split.len()
            invariant
                i <= split@.len(),
                strings_view(parts@) == vectors_view(split@).take(i as int),
            decreases split@.len() - i,
        {
            let part = &split[i];
            assert(part@.subrange(0, part@.len() as int) == part@);
            let text = from_chars(part, 0, part.len());
            let ghost before = strings_view(parts@);
            parts.push(text);
            assert(strings_view(parts@) =~= before.push(text@));
            assert(vectors_view(split@).take(i + 1) =~= vectors_view(split@).take(i as int).push(
                part@,
            ));
            i += 1;
        }
        assert(vectors_view(split@).take(split@.len() as int) == vectors_view(split@));
        parts
    }
}

} // verus!
