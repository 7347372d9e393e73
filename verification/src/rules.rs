//! The handlers that render elements.

pub mod abbr;
pub mod anchor;
pub mod bold;
pub mod line_break;
pub mod pre;
pub mod rule_handler;
pub mod span;
pub mod spoiler;
pub mod style;
pub mod table;
pub mod table_data;
pub mod table_row;
pub mod word_break;
