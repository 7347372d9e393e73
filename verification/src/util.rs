//! Decoders and detectors that the rules use.

pub mod color_decoder;
pub mod helpers;
pub mod style_tag_value_decoder;
pub mod theme_json_extractor;
