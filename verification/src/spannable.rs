//! The annotations that are laid over the rendered text.

use crate::text::{decimal_digits, push_decimal};
use vstd::prelude::*;
use vstd::string::StringExecFns;

verus! {

/// Identifies a colour of the client's theme.
#[derive(Debug, PartialEq, Eq, Clone, Copy, Structural)]
pub enum ChanThemeColorId {
    PostSubjectColor,
    PostNameColor,
    AccentColor,
    PostInlineQuoteColor,
    PostQuoteColor,
    BackColorSecondary,
    PostLinkColor,
    TextColorPrimary,
}

/// The text that shows a colour of the theme: its name behind that of its
/// type.
pub open spec fn color_id_text(color_id: ChanThemeColorId) -> Seq<char> {
    match color_id {
        ChanThemeColorId::PostSubjectColor => "ChanThemeColorId::PostSubjectColor"@,
        ChanThemeColorId::PostNameColor => "ChanThemeColorId::PostNameColor"@,
        ChanThemeColorId::AccentColor => "ChanThemeColorId::AccentColor"@,
        ChanThemeColorId::PostInlineQuoteColor => "ChanThemeColorId::PostInlineQuoteColor"@,
        ChanThemeColorId::PostQuoteColor => "ChanThemeColorId::PostQuoteColor"@,
        ChanThemeColorId::BackColorSecondary => "ChanThemeColorId::BackColorSecondary"@,
        ChanThemeColorId::PostLinkColor => "ChanThemeColorId::PostLinkColor"@,
        ChanThemeColorId::TextColorPrimary => "ChanThemeColorId::TextColorPrimary"@,
    }
}

impl ChanThemeColorId {
    /// The text that shows the colour.
    pub fn to_string(&self) -> (text: String)
        ensures
            text@ == color_id_text(*self),
    {
        match self {
            ChanThemeColorId::PostSubjectColor => String::from_str(
                "ChanThemeColorId::PostSubjectColor",
            ),
            ChanThemeColorId::PostNameColor => String::from_str("ChanThemeColorId::PostNameColor"),
            ChanThemeColorId::AccentColor => String::from_str("ChanThemeColorId::AccentColor"),
            ChanThemeColorId::PostInlineQuoteColor => String::from_str(
                "ChanThemeColorId::PostInlineQuoteColor",
            ),
            ChanThemeColorId::PostQuoteColor => String::from_str(
                "ChanThemeColorId::PostQuoteColor",
            ),
            ChanThemeColorId::BackColorSecondary => String::from_str(
                "ChanThemeColorId::BackColorSecondary",
            ),
            ChanThemeColorId::PostLinkColor => String::from_str("ChanThemeColorId::PostLinkColor"),
            ChanThemeColorId::TextColorPrimary => String::from_str(
                "ChanThemeColorId::TextColorPrimary",
            ),
        }
    }
}

/// What a link in a comment points at.
#[derive(Debug, PartialEq, Clone)]
pub enum PostLink {
    Quote { post_no: u64 },
    Dead { post_no: u64 },
    UrlLink { link: String },
    BoardLink { board_code: String },
    SearchLink { board_code: String, search_query: String },
    ThreadLink { board_code: String, thread_no: u64, post_no: u64 },
}

/// The mathematical value of a [`PostLink`].
pub enum PostLinkView {
    Quote { post_no: u64 },
    Dead { post_no: u64 },
    UrlLink { link: Seq<char> },
    BoardLink { board_code: Seq<char> },
    SearchLink { board_code: Seq<char>, search_query: Seq<char> },
    ThreadLink { board_code: Seq<char>, thread_no: u64, post_no: u64 },
}

impl View for PostLink {
    type V = PostLinkView;

    open spec fn view(&self) -> PostLinkView {
        match self {
            PostLink::Quote { post_no } => PostLinkView::Quote { post_no: *post_no },
            PostLink::Dead { post_no } => PostLinkView::Dead { post_no: *post_no },
            PostLink::UrlLink { link } => PostLinkView::UrlLink { link: link@ },
            PostLink::BoardLink { board_code } => PostLinkView::BoardLink {
                board_code: board_code@,
            },
            PostLink::SearchLink { board_code, search_query } => PostLinkView::SearchLink {
                board_code: board_code@,
                search_query: search_query@,
            },
            PostLink::ThreadLink { board_code, thread_no, post_no } => PostLinkView::ThreadLink {
                board_code: board_code@,
                thread_no: *thread_no,
                post_no: *post_no,
            },
        }
    }
}

/// The text that shows a link: the name of its kind and, in brackets, its
/// fields.
pub open spec fn post_link_text(link: PostLinkView) -> Seq<char> {
    match link {
        PostLinkView::Quote { post_no } => "Quote(post_no: "@ + decimal_digits(post_no as nat)
            + ")"@,
        PostLinkView::Dead { post_no } => "Dead(post_no: "@ + decimal_digits(post_no as nat)
            + ")"@,
        PostLinkView::UrlLink { link } => "UrlLink(link: "@ + link + ")"@,
        PostLinkView::BoardLink { board_code } => "BoardLink(board_code: "@ + board_code + ")"@,
        PostLinkView::SearchLink { board_code, search_query } => "SearchLink(board_code: "@
            + board_code + ", search_query: "@ + search_query + ")"@,
        PostLinkView::ThreadLink { board_code, thread_no, post_no } => "ThreadLink(board_code: "@
            + board_code + ", thread_no: "@ + decimal_digits(thread_no as nat) + ", post_no: "@
            + decimal_digits(post_no as nat) + ")"@,
    }
}

impl PostLink {
    /// The text that shows the link.
    pub fn to_string(&self) -> (text: String)
        ensures
            text@ == post_link_text(self@),
    {
        match self {
            PostLink::Quote { post_no } => {
                let mut text = String::from_str("Quote(post_no: ");
                push_decimal(*post_no, &mut text);
                text.append(")");
                text
            },
            PostLink::Dead { post_no } => {
                let mut text = String::from_str("Dead(post_no: ");
                push_decimal(*post_no, &mut text);
                text.append(")");
                text
            },
            PostLink::UrlLink { link } => {
                let mut text = String::from_str("UrlLink(link: ");
                text.append(link.as_str());
                text.append(")");
                text
            },
            PostLink::BoardLink { board_code } => {
                let mut text = String::from_str("BoardLink(board_code: ");
                text.append(board_code.as_str());
                text.append(")");
                text
            },
            PostLink::SearchLink { board_code, search_query } => {
                let mut text = String::from_str("SearchLink(board_code: ");
                text.append(board_code.as_str());
                text.append(", search_query: ");
                text.append(search_query.as_str());
                text.append(")");
                text
            },
            PostLink::ThreadLink { board_code, thread_no, post_no } => {
                let mut text = String::from_str("ThreadLink(board_code: ");
                text.append(board_code.as_str());
                text.append(", thread_no: ");
                push_decimal(*thread_no, &mut text);
                text.append(", post_no: ");
                push_decimal(*post_no, &mut text);
                text.append(")");
                text
            },
        }
    }
}

/// The meaning of one annotation.
#[derive(Debug, PartialEq, Clone)]
pub enum SpannableData {
    Link(PostLink),
    Spoiler,
    GreenText,
    BoldText,
    FontSize { size: String },
    FontWeight { weight: String },
    Monospace,
    TextForegroundColorRaw { color_hex: String },
    TextBackgroundColorRaw { color_hex: String },
    TextForegroundColorId { color_id: ChanThemeColorId },
    TextBackgroundColorId { color_id: ChanThemeColorId },
    ThemeJson { theme_name: String, is_light_theme: bool },
}

/// The mathematical value of a [`SpannableData`].
pub enum SpannableDataView {
    Link(PostLinkView),
    Spoiler,
    GreenText,
    BoldText,
    FontSize { size: Seq<char> },
    FontWeight { weight: Seq<char> },
    Monospace,
    TextForegroundColorRaw { color_hex: Seq<char> },
    TextBackgroundColorRaw { color_hex: Seq<char> },
    TextForegroundColorId { color_id: ChanThemeColorId },
    TextBackgroundColorId { color_id: ChanThemeColorId },
    ThemeJson { theme_name: Seq<char>, is_light_theme: bool },
}

impl View for SpannableData {
    type V = SpannableDataView;

    open spec fn view(&self) -> SpannableDataView {
        match self {
            SpannableData::Link(link) => SpannableDataView::Link(link@),
            SpannableData::Spoiler => SpannableDataView::Spoiler,
            SpannableData::GreenText => SpannableDataView::GreenText,
            SpannableData::BoldText => SpannableDataView::BoldText,
            SpannableData::FontSize { size } => SpannableDataView::FontSize { size: size@ },
            SpannableData::FontWeight { weight } => SpannableDataView::FontWeight {
                weight: weight@,
            },
            SpannableData::Monospace => SpannableDataView::Monospace,
            SpannableData::TextForegroundColorRaw { color_hex } =>
                SpannableDataView::TextForegroundColorRaw { color_hex: color_hex@ },
            SpannableData::TextBackgroundColorRaw { color_hex } =>
                SpannableDataView::TextBackgroundColorRaw { color_hex: color_hex@ },
            SpannableData::TextForegroundColorId { color_id } =>
                SpannableDataView::TextForegroundColorId { color_id: *color_id },
            SpannableData::TextBackgroundColorId { color_id } =>
                SpannableDataView::TextBackgroundColorId { color_id: *color_id },
            SpannableData::ThemeJson { theme_name, is_light_theme } =>
                SpannableDataView::ThemeJson {
                    theme_name: theme_name@,
                    is_light_theme: *is_light_theme,
                },
        }
    }
}

/// The text that shows `true` or `false`.
pub open spec fn bool_text(value: bool) -> Seq<char> {
    if value {
        "true"@
    } else {
        "false"@
    }
}

/// The text that shows the meaning of an annotation: the name of its kind
/// and, in brackets, its fields.
pub open spec fn data_text(data: SpannableDataView) -> Seq<char> {
    match data {
        SpannableDataView::Link(link) => "PostLink(post_link: "@ + post_link_text(link) + ")"@,
        SpannableDataView::Spoiler => "Spoiler()"@,
        SpannableDataView::GreenText => "GreenText()"@,
        SpannableDataView::BoldText => "BoldText()"@,
        SpannableDataView::FontSize { size } => "FontSize(size: "@ + size + ")"@,
        SpannableDataView::FontWeight { weight } => "FontWeight(weight: "@ + weight + ")"@,
        SpannableDataView::Monospace => "Monospace()"@,
        SpannableDataView::TextForegroundColorRaw { color_hex } =>
            "TextForegroundColorRaw(raw_color: "@ + color_hex + ")"@,
        SpannableDataView::TextBackgroundColorRaw { color_hex } =>
            "TextBackgroundColorRaw(raw_color: "@ + color_hex + ")"@,
        SpannableDataView::TextForegroundColorId { color_id } =>
            "TextForegroundColorId(color_id: "@ + color_id_text(color_id) + ")"@,
        SpannableDataView::TextBackgroundColorId { color_id } =>
            "TextBackgroundColorId(color_id: "@ + color_id_text(color_id) + ")"@,
        SpannableDataView::ThemeJson { theme_name, is_light_theme } => "ThemeJson(theme_name: "@
            + theme_name + ", is_light_theme: "@ + bool_text(is_light_theme) + ")"@,
    }
}

impl SpannableData {
    /// The text that shows the meaning of the annotation.
    pub fn to_string(&self) -> (text: String)
        ensures
            text@ == data_text(self@),
    {
        match self {
            SpannableData::Link(link) => {
                let mut text = String::from_str("PostLink(post_link: ");
                text.append(link.to_string().as_str());
                text.append(")");
                text
            },
            SpannableData::Spoiler => String::from_str("Spoiler()"),
            SpannableData::GreenText => String::from_str("GreenText()"),
            SpannableData::BoldText => String::from_str("BoldText()"),
            SpannableData::FontSize { size } => {
                let mut text = String::from_str("FontSize(size: ");
                text.append(size.as_str());
                text.append(")");
                text
            },
            SpannableData::FontWeight { weight } => {
                let mut text = String::from_str("FontWeight(weight: ");
                text.append(weight.as_str());
                text.append(")");
                text
            },
            SpannableData::Monospace => String::from_str("Monospace()"),
            SpannableData::TextForegroundColorRaw { color_hex } => {
                let mut text = String::from_str("TextForegroundColorRaw(raw_color: ");
                text.append(color_hex.as_str());
                text.append(")");
                text
            },
            SpannableData::TextBackgroundColorRaw { color_hex } => {
                let mut text = String::from_str("TextBackgroundColorRaw(raw_color: ");
                text.append(color_hex.as_str());
                text.append(")");
                text
            },
            SpannableData::TextForegroundColorId { color_id } => {
                let mut text = String::from_str("TextForegroundColorId(color_id: ");
                text.append(color_id.to_string().as_str());
                text.append(")");
                text
            },
            SpannableData::TextBackgroundColorId { color_id } => {
                let mut text = String::from_str("TextBackgroundColorId(color_id: ");
                text.append(color_id.to_string().as_str());
                text.append(")");
                text
            },
            SpannableData::ThemeJson { theme_name, is_light_theme } => {
                let mut text = String::from_str("ThemeJson(theme_name: ");
                text.append(theme_name.as_str());
                text.append(", is_light_theme: ");
                if *is_light_theme {
                    text.append("true");
                } else {
                    text.append("false");
                }
                text.append(")");
                text
            },
        }
    }
}

/// An annotation over `len` characters of the rendered text, from character
/// `start` on.
#[derive(Debug, PartialEq)]
pub struct Spannable {
    pub start: usize,
    pub len: usize,
    pub spannable_data: SpannableData,
}

/// The mathematical value of a [`Spannable`].
pub struct SpannableView {
    pub start: nat,
    pub len: nat,
    pub data: SpannableDataView,
}

impl View for Spannable {
    type V = SpannableView;

    open spec fn view(&self) -> SpannableView {
        SpannableView {
            start: self.start as nat,
            len: self.len as nat,
            data: self.spannable_data@,
        }
    }
}

/// The text that shows an annotation: its start, its length and its
/// meaning.
pub open spec fn spannable_text(spannable: SpannableView) -> Seq<char> {
    "Spannable(start: "@ + decimal_digits(spannable.start) + ", len: "@ + decimal_digits(
        spannable.len,
    ) + ", spannable_data: "@ + data_text(spannable.data) + ")"@
}

impl Spannable {
    /// The text that shows the annotation.
    pub fn to_string(&self) -> (text: String)
        ensures
            text@ == spannable_text(self@),
    {
        let mut text = String::from_str("Spannable(start: ");
        push_decimal(self.start as u64, &mut text);
        text.append(", len: ");
        push_decimal(self.len as u64, &mut text);
        text.append(", spannable_data: ");
        text.append(self.spannable_data.to_string().as_str());
        text.append(")");
        text
    }

    /// An annotation is kept only if it covers at least one character.
    pub fn is_valid(&self) -> (valid: bool)
        ensures
            valid == (self@.len > 0),
    {
        self.len > 0
    }
}

} // verus!
