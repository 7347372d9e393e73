//! Elements: a tag name, attributes and child nodes.

use crate::html_parser::attributes::{attribute_entries, attribute_pairs, get_attribute, lookup};
use crate::spannable::bool_text;
use crate::text::{decimal_digits, push_decimal};
use crate::html_parser::node::{Node, NodeView};
use linked_hash_map::LinkedHashMap;
use crate::util::color_decoder::lowercase;
use crate::text::str_eq;
use vstd::prelude::*;
use vstd::string::StringExecFns;

verus! {

/// An element of the tree. A void element has no children.
pub struct Element {
    pub tag_name: String,
    pub attributes: LinkedHashMap<String, String>,
    pub children: Vec<Node>,
    pub is_void_element: bool,
}

/// The mathematical value of an [`Element`].
pub struct ElementView {
    pub tag_name: Seq<char>,
    pub attributes: Seq<(Seq<char>, Seq<char>)>,
    pub children: Seq<NodeView>,
    pub is_void_element: bool,
}

/// The value of an element.
pub open spec fn element_view(element: Element) -> ElementView
    decreases element,
{
    ElementView {
        tag_name: element.tag_name@,
        attributes: attribute_entries(element.attributes),
        children: nodes_view(element.children@),
        is_void_element: element.is_void_element,
    }
}

/// The value of a node.
pub open spec fn node_view(node: Node) -> NodeView
    decreases node,
{
    match node {
        Node::Text(text) => NodeView::Text(text@),
        Node::Element(element) => NodeView::Element(element_view(element)),
    }
}

/// The values of a sequence of nodes.
pub open spec fn nodes_view(nodes: Seq<Node>) -> Seq<NodeView>
    decreases nodes,
{
    if nodes.len() == 0 {
        Seq::empty()
    } else {
        nodes_view(nodes.drop_last()).push(node_view(nodes.last()))
    }
}

/// The attribute that holds the class of an element.
pub const CLASS_ATTR: &'static str = "class";

/// Whether the element has the class `class_name`, whatever the case of
/// either: its attribute `class` is that name.
pub open spec fn has_class_view(element: ElementView, class_name: Seq<char>) -> bool {
    match lookup(element.attributes, CLASS_ATTR@) {
        Some(class) => lowercase(class) == lowercase(class_name),
        None => false,
    }
}

/// The text of a node and of all nodes below it, in order.
pub open spec fn text_of_node(node: NodeView) -> Seq<char>
    decreases node,
{
    match node {
        NodeView::Text(text) => text,
        NodeView::Element(element) => text_of_nodes(element.children),
    }
}

/// The text of the nodes and of all nodes below them, in order.
pub open spec fn text_of_nodes(nodes: Seq<NodeView>) -> Seq<char>
    decreases nodes,
{
    if nodes.len() == 0 {
        Seq::empty()
    } else {
        text_of_nodes(nodes.drop_last()) + text_of_node(nodes.last())
    }
}

impl Element {
    /// Whether the element has the class `class_name`.
    pub fn has_class(&self, class_name: &str) -> (has: bool)
        ensures
            has == has_class_view(element_view(*self), class_name@),
    {
        match get_attribute(&self.attributes, CLASS_ATTR) {
            Some(class) => {
                let left = class.as_str().to_lowercase();
                let right = class_name.to_lowercase();
                str_eq(left.as_str(), right.as_str())
            },
            None => false,
        }
    }

    /// The value of the attribute `attr_name`, if the element has it.
    pub fn get_attr_value(&self, attr_name: &str) -> (value: Option<&String>)
        ensures
            match value {
                Some(found) => lookup(element_view(*self).attributes, attr_name@) == Some(found@),
                None => lookup(element_view(*self).attributes, attr_name@) is None,
            },
    {
        get_attribute(&self.attributes, attr_name)
    }

    /// The text of all nodes below the element, in order.
    pub fn collect_text(&self) -> (text: String)
        ensures
            text@ == text_of_nodes(element_view(*self).children),
    {
        let mut output = String::new();
        collect_text_internal(&self.children, &mut output);
        assert(Seq::<char>::empty() + text_of_nodes(nodes_view(self.children@)) == text_of_nodes(
            nodes_view(self.children@),
        ));
        output
    }
}

/// Adds to `output` the text of the nodes and of all nodes below them.
pub fn collect_text_internal(nodes: &Vec<Node>, output: &mut String)
    ensures
        final(output)@ == old(output)@ + text_of_nodes(nodes_view(nodes@)),
    decreases nodes,
{
    let mut i: usize = 0;
    assert(nodes@.take(0) == Seq::<Node>::empty());
    assert(output@ + Seq::<char>::empty() == output@);
    while i < nodes.len()
        invariant
            i <= nodes@.len(),
            output@ == old(output)@ + text_of_nodes(nodes_view(nodes@.take(i as int))),
        decreases nodes@.len() - i,
    {
        let ghost done = text_of_nodes(nodes_view(nodes@.take(i as int)));
        proof {
            assert(nodes@.take(i + 1) == nodes@.take(i as int).push(nodes@[i as int]));
            lemma_nodes_view_push(nodes@.take(i as int), nodes@[i as int]);
            assert(nodes_view(nodes@.take(i + 1)).drop_last() == nodes_view(nodes@.take(i as int)));
            assert(nodes_view(nodes@.take(i + 1)).last() == node_view(nodes@[i as int]));
            assert(text_of_nodes(nodes_view(nodes@.take(i + 1))) == done + text_of_node(
                node_view(nodes@[i as int]),
            ));
        }
        match &nodes[i] {
            Node::Text(text) => {
                output.append(text.as_str());
                assert(output@ == old(output)@ + (done + text@));
            },
            Node::Element(element) => {
                collect_text_internal(&element.children, output);
                assert(output@ == old(output)@ + (done + text_of_nodes(
                    nodes_view(element.children@),
                )));
            },
        }
        i += 1;
    }
    assert(nodes@.take(nodes@.len() as int) == nodes@);
}

/// The text that shows an element: its name, the numbers of its attributes
/// and of its children, and whether it is void.
pub open spec fn element_text(element: ElementView) -> Seq<char> {
    "Element(name="@ + element.tag_name + ", attributes="@ + decimal_digits(
        element.attributes.len(),
    ) + ", children="@ + decimal_digits(element.children.len()) + ", is_void_element="@
        + bool_text(element.is_void_element) + ")"@
}

/// The text that shows a node: its text, or its element.
pub open spec fn node_text(node: NodeView) -> Seq<char> {
    match node {
        NodeView::Text(text) => "Text(text="@ + text + ")"@,
        NodeView::Element(element) => "Element(element="@ + element_text(element) + ")"@,
    }
}

impl Element {
    /// The text that shows the element.
    pub fn to_string(&self) -> (text: String)
        ensures
            text@ == element_text(element_view(*self)),
    {
        proof {
            lemma_nodes_view_index(self.children@);
        }
        let mut text = String::from_str("Element(name=");
        text.append(self.tag_name.as_str());
        text.append(", attributes=");
        push_decimal(attribute_pairs(&self.attributes).len() as u64, &mut text);
        text.append(", children=");
        push_decimal(self.children.len() as u64, &mut text);
        text.append(", is_void_element=");
        if self.is_void_element {
            text.append("true");
        } else {
            text.append("false");
        }
        text.append(")");
        text
    }
}

impl Node {
    /// The text that shows the node.
    pub fn to_string(&self) -> (text: String)
        ensures
            text@ == node_text(node_view(*self)),
    {
        match self {
            Node::Text(content) => {
                let mut text = String::from_str("Text(text=");
                text.append(content.as_str());
                text.append(")");
                text
            },
            Node::Element(element) => {
                let mut text = String::from_str("Element(element=");
                text.append(element.to_string().as_str());
                text.append(")");
                text
            },
        }
    }
}

/// A node and all nodes below it, each before its children.
pub open spec fn preorder_of_node(node: NodeView) -> Seq<NodeView>
    decreases node,
{
    match node {
        NodeView::Text(_) => seq![node],
        NodeView::Element(element) => seq![node] + preorder(element.children),
    }
}

/// The nodes and all nodes below them, each before its children and before
/// the nodes that follow it.
pub open spec fn preorder(nodes: Seq<NodeView>) -> Seq<NodeView>
    decreases nodes,
{
    if nodes.len() == 0 {
        Seq::empty()
    } else {
        preorder(nodes.drop_last()) + preorder_of_node(nodes.last())
    }
}

/// The values of the nodes that are referred to.
pub open spec fn references_view(nodes: Seq<&Node>) -> Seq<NodeView> {
    nodes.map_values(|node: &Node| node_view(*node))
}

/// Adds to `out` the nodes and all nodes below them, in the order of
/// `preorder`.
pub fn collect_nodes<'a>(nodes: &'a Vec<Node>, out: &mut Vec<&'a Node>)
    ensures
        references_view(final(out)@) == references_view(old(out)@) + preorder(nodes_view(nodes@)),
    decreases nodes,
{
    let mut i: usize = 0;
    assert(nodes@.take(0) == Seq::<Node>::empty());
    assert(references_view(out@) + Seq::<NodeView>::empty() == references_view(out@));
    while i < nodes.len()
        invariant
            i <= nodes@.len(),
            references_view(out@) == references_view(old(out)@) + preorder(
                nodes_view(nodes@.take(i as int)),
            ),
        decreases nodes@.len() - i,
    {
        let ghost done = preorder(nodes_view(nodes@.take(i as int)));
        proof {
            assert(nodes@.take(i + 1) == nodes@.take(i as int).push(nodes@[i as int]));
            lemma_nodes_view_push(nodes@.take(i as int), nodes@[i as int]);
            assert(nodes_view(nodes@.take(i + 1)).drop_last() == nodes_view(nodes@.take(i as int)));
            assert(nodes_view(nodes@.take(i + 1)).last() == node_view(nodes@[i as int]));
            assert(preorder(nodes_view(nodes@.take(i + 1))) == done + preorder_of_node(
                node_view(nodes@[i as int]),
            ));
        }
        let node = &nodes[i];
        let ghost before = references_view(out@);
        out.push(node);
        assert(references_view(out@) == before.push(node_view(*node)));
        match node {
            Node::Text(_) => {
                assert(references_view(out@) == references_view(old(out)@) + (done + seq![
                    node_view(*node),
                ]));
            },
            Node::Element(element) => {
                collect_nodes(&element.children, out);
                assert(references_view(out@) == references_view(old(out)@) + (done + (seq![
                    node_view(*node),
                ] + preorder(nodes_view(element.children@)))));
            },
        }
        i += 1;
    }
    assert(nodes@.take(nodes@.len() as int) == nodes@);
}

/// Adding a node at the end adds its value at the end.
pub proof fn lemma_nodes_view_push(nodes: Seq<Node>, node: Node)
    ensures
        nodes_view(nodes.push(node)) == nodes_view(nodes).push(node_view(node)),
{
    assert(nodes.push(node).drop_last() == nodes);
}

/// The values of a sequence of nodes are the values of its nodes.
pub proof fn lemma_nodes_view_index(nodes: Seq<Node>)
    ensures
        nodes_view(nodes).len() == nodes.len(),
        forall|i: int| 0 <= i < nodes.len() ==> (#[trigger] nodes_view(nodes)[i]) == node_view(nodes[i]),
    decreases nodes.len(),
{
    if nodes.len() > 0 {
        lemma_nodes_view_index(nodes.drop_last());
    }
}

} // verus!
