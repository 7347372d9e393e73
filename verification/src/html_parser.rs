//! A lenient tokenizer that turns an HTML fragment into a tree of nodes.

pub mod attributes;
pub mod element;
pub mod node;
pub mod parser;
