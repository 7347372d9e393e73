//! The nodes of the parsed tree.

use crate::html_parser::element::{Element, ElementView};
use vstd::prelude::*;

verus! {

/// A run of text or an element.
pub enum Node {
    Text(String),
    Element(Element),
}

/// The mathematical value of a [`Node`].
pub enum NodeView {
    Text(Seq<char>),
    Element(ElementView),
}

} // verus!
