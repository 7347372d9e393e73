//! Renders an imageboard comment, given as an HTML fragment, into plain text
//! and a list of annotations ("spannables") positioned by character offsets.

pub mod comment_parser;
pub mod entities;
pub mod growth;
pub mod html_parser;
pub mod laws;
pub mod parsing_error;
pub mod pattern;
pub mod post;
pub mod post_parser;
pub mod rules;
pub mod spannable;
pub mod text;
pub mod text_part;
pub mod util;

pub use comment_parser::{Attribute, CommentParser, ParsingRule};
pub use html_parser::element::Element;
pub use html_parser::node::Node;
pub use html_parser::parser::HtmlParser;
pub use parsing_error::ParsingError;
pub use post::{
    BoardDescriptor, ParsedPost, ParsedSpannableText, PostDescriptor, PostParserContext, PostRaw,
    SiteDescriptor, ThreadDescriptor, ThreadRaw,
};
pub use post_parser::PostParser;
pub use rules::rule_handler::RuleHandler;
pub use spannable::{ChanThemeColorId, PostLink, Spannable, SpannableData};
pub use text_part::TextPart;
