//! Detection of theme descriptions, written as JSON, in rendered text.

use crate::pattern::{capture_spans, captured_text, captures_at, group_text, spans_view};
use crate::spannable::{Spannable, SpannableData, SpannableDataView, SpannableView};
use crate::post::spannables_view;
use crate::text::{
    contains_str, find_from, first_index, from_chars, has_substring, lemma_first_index, str_eq,
    to_chars,
};
use vstd::prelude::*;
use vstd::string::StringExecFns;

verus! {

/// The keys that a theme description holds.
pub const THEME_JSON_KEYS: [&'static str; 7] = [
    "\"name\"",
    "\"is_light_theme\"",
    "\"light_nav_bar\"",
    "\"light_status_bar\"",
    "\"accent_color\"",
    "\"primary_color\"",
    "\"back_color\"",
];

/// The regular expression that finds the name of a theme.
pub const THEME_NAME_PATTERN: &'static str = "\"name\"\\s*:\\s*\"(.+)\"";

/// The regular expression that finds whether a theme is light.
pub const THEME_LIGHT_PATTERN: &'static str = "\"is_light_theme\"\\s*:\\s*(true|false)";

/// The name given to a theme that states none.
pub const UNKNOWN_THEME_NAME: &'static str = "Unknown theme name";

/// The state of collecting blocks in braces, having read `text[..i]`:
/// `depth` braces are open, the outermost of them at `open`, and `found` are
/// the blocks that are complete. A block reaches from its opening brace to
/// just behind the brace that closes it. A closing brace with none open ends
/// the search.
pub open spec fn json_parts_from(
    text: Seq<char>,
    i: int,
    depth: int,
    open: int,
    found: Seq<(int, int)>,
) -> Seq<(int, int)>
    decreases text.len() - i,
{
    if i < 0 || i >= text.len() {
        found
    } else if text[i] == '{' {
        json_parts_from(
            text,
            i + 1,
            depth + 1,
            if depth == 0 {
                i
            } else {
                open
            },
            found,
        )
    } else if text[i] == '}' {
        if depth <= 0 {
            found
        } else if depth == 1 {
            json_parts_from(text, i + 1, 0, open, found.push((open, i + 1)))
        } else {
            json_parts_from(text, i + 1, depth - 1, open, found)
        }
    } else {
        json_parts_from(text, i + 1, depth, open, found)
    }
}

/// The outermost blocks in balanced braces of `text`, in order, each as the
/// positions of its first character and behind its last.
pub open spec fn json_parts(text: Seq<char>) -> Seq<(int, int)> {
    json_parts_from(text, 0, 0, 0, Seq::empty())
}

/// Pairs of positions as pairs of integers.
pub open spec fn as_ints(pairs: Seq<(usize, usize)>) -> Seq<(int, int)> {
    pairs.map_values(|p: (usize, usize)| (p.0 as int, p.1 as int))
}

/// The blocks in balanced braces of `total_text`, as positions of
/// characters.
pub fn collect_all_json_parts(total_text: &str) -> (parts: Vec<(usize, usize)>)
    ensures
        as_ints(parts@) == json_parts(total_text@),
        forall|k: int|
            0 <= k < parts@.len() ==> (#[trigger] parts@[k]).0 < parts@[k].1
                <= total_text@.len(),
{
    let chars = to_chars(total_text);
    let mut parts: Vec<(usize, usize)> = Vec::new();
    let mut depth: usize = 0;
    let mut open: usize = 0;
    let mut i: usize = 0;
    assert(as_ints(parts@) == Seq::<(int, int)>::empty());
    while i < chars.len()
        invariant
            i <= chars@.len(),
            chars@ == total_text@,
            depth <= i,
            depth > 0 ==> open < i,
            json_parts_from(chars@, i as int, depth as int, open as int, as_ints(parts@))
                == json_parts(chars@),
            forall|k: int|
                0 <= k < parts@.len() ==> (#[trigger] parts@[k]).0 < parts@[k].1 <= chars@.len(),
        decreases chars@.len() - i,
    {
        let c = chars[i];
        if c == '{' {
            if depth == 0 {
                open = i;
            }
            depth += 1;
        } else if c == '}' {
            if depth == 0 {
                return parts;
            }
            depth -= 1;
            if depth == 0 {
                let ghost before = as_ints(parts@);
                parts.push((open, i + 1));
                assert(as_ints(parts@) == before.push((open as int, i + 1)));
            }
        }
        i += 1;
    }
    parts
}

/// Whether the first closing brace of `text` stands behind its first opening
/// brace.
pub open spec fn has_braces_in_order(text: Seq<char>) -> bool {
    match (first_index(text, '{'), first_index(text, '}')) {
        (Some(open), Some(close)) => open < close,
        _ => false,
    }
}

/// Decides `has_braces_in_order`: without that the text holds no block.
pub fn text_contains_valid_json(total_text: &str) -> (valid: bool)
    ensures
        valid == has_braces_in_order(total_text@),
{
    let chars = to_chars(total_text);
    assert(chars@.skip(0) == chars@);
    match (find_from(&chars, 0, '{'), find_from(&chars, 0, '}')) {
        (Some(open), Some(close)) => open < close,
        _ => false,
    }
}

/// Without a closing brace no block is found.
proof fn lemma_no_closing_brace(text: Seq<char>, i: int, depth: int, open: int, found: Seq<(int, int)>)
    requires
        0 <= i <= text.len(),
        forall|j: int| i <= j < text.len() ==> text[j] != '}',
    ensures
        json_parts_from(text, i, depth, open, found) == found,
    decreases text.len() - i,
{
    if i < text.len() {
        if text[i] == '{' {
            lemma_no_closing_brace(
                text,
                i + 1,
                depth + 1,
                if depth == 0 {
                    i
                } else {
                    open
                },
                found,
            );
        } else {
            lemma_no_closing_brace(text, i + 1, depth, open, found);
        }
    }
}

/// With no brace open, no block is found behind a closing brace that
/// stands before every opening brace.
proof fn lemma_closing_brace_first(text: Seq<char>, i: int, open: int, found: Seq<(int, int)>, end: int)
    requires
        0 <= i <= end <= text.len(),
        forall|j: int| i <= j < end ==> text[j] != '{' && text[j] != '}',
        end < text.len() ==> text[end] == '}',
    ensures
        json_parts_from(text, i, 0, open, found) == found,
    decreases end - i,
{
    if i < end {
        lemma_closing_brace_first(text, i + 1, open, found, end);
    }
}

/// A text whose braces are not in order holds no block.
pub proof fn lemma_braces_out_of_order(text: Seq<char>)
    requires
        !has_braces_in_order(text),
    ensures
        json_parts(text) == Seq::<(int, int)>::empty(),
{
    lemma_first_index(text, '{');
    lemma_first_index(text, '}');
    match (first_index(text, '{'), first_index(text, '}')) {
        (_, None) => {
            lemma_no_closing_brace(text, 0, 0, 0, Seq::empty());
        },
        (None, Some(close)) => {
            lemma_closing_brace_first(text, 0, 0, Seq::empty(), close as int);
        },
        (Some(open), Some(close)) => {
            lemma_closing_brace_first(text, 0, 0, Seq::empty(), close as int);
        },
    }
}

/// Whether `block` holds each of the keys of a theme description from the
/// `from`-th on.
pub open spec fn has_theme_keys_from(block: Seq<char>, from: int) -> bool
    decreases THEME_JSON_KEYS@.len() - from,
{
    if from < 0 || from >= THEME_JSON_KEYS@.len() {
        true
    } else {
        has_substring(block, THEME_JSON_KEYS@[from]@) && has_theme_keys_from(block, from + 1)
    }
}

/// Whether `block` holds every key of a theme description.
pub open spec fn has_theme_keys(block: Seq<char>) -> bool {
    has_theme_keys_from(block, 0)
}

/// Decides `has_theme_keys`.
pub fn is_probably_theme_json(theme_json: &str) -> (probable: bool)
    ensures
        probable == has_theme_keys(theme_json@),
{
    let chars = to_chars(theme_json);
    let mut i: usize = 7;
    while i > 0
        invariant
            i <= 7,
            THEME_JSON_KEYS@.len() == 7,
            chars@ == theme_json@,
            has_theme_keys_from(theme_json@, i as int),
        decreases i,
    {
        let key = THEME_JSON_KEYS[i - 1];
        if !contains_str(&chars, &to_chars(key)) {
            proof {
                lemma_missing_key(theme_json@, 0, i - 1);
            }
            return false;
        }
        i -= 1;
    }
    true
}

/// A block that lacks one key does not hold every key.
pub proof fn lemma_missing_key(block: Seq<char>, from: int, missing: int)
    requires
        0 <= from <= missing < THEME_JSON_KEYS@.len(),
        !has_substring(block, THEME_JSON_KEYS@[missing]@),
    ensures
        !has_theme_keys_from(block, from),
    decreases missing - from,
{
    if from < missing {
        lemma_missing_key(block, from + 1, missing);
    }
}

/// The name of the theme in `block`, given what a search for the name's
/// pattern found: its first capture group, or a placeholder.
pub open spec fn theme_name_of(block: Seq<char>, spans: Option<Seq<Option<(usize, usize)>>>)
    -> Seq<char> {
    match spans {
        Some(groups) => match group_text(block, groups, 1) {
            Some(name) => name,
            None => UNKNOWN_THEME_NAME@,
        },
        None => UNKNOWN_THEME_NAME@,
    }
}

/// Whether the theme in `block` is light, given what a search for the
/// pattern of that statement found: whether its first capture group is
/// `true`.
pub open spec fn theme_is_light(block: Seq<char>, spans: Option<Seq<Option<(usize, usize)>>>)
    -> bool {
    match spans {
        Some(groups) => group_text(block, groups, 1) == Some("true"@),
        None => false,
    }
}

/// The name of the theme in `theme_json`, given what the search for it
/// found.
pub fn theme_name_from(theme_json: &str, spans: &Option<Vec<Option<(usize, usize)>>>) -> (name:
    String)
    ensures
        name@ == theme_name_of(theme_json@, spans_view(*spans)),
{
    match spans {
        Some(groups) => match captured_text(theme_json, groups, 1) {
            Some(name) => name,
            None => String::from_str(UNKNOWN_THEME_NAME),
        },
        None => String::from_str(UNKNOWN_THEME_NAME),
    }
}

/// Whether the theme in `theme_json` is light, given what the search for
/// that found.
pub fn theme_is_light_from(theme_json: &str, spans: &Option<Vec<Option<(usize, usize)>>>) -> (light:
    bool)
    ensures
        light == theme_is_light(theme_json@, spans_view(*spans)),
{
    match spans {
        Some(groups) => match captured_text(theme_json, groups, 1) {
            Some(value) => str_eq(value.as_str(), "true"),
            None => false,
        },
        None => false,
    }
}

/// The name of the theme in `theme_json`, or a placeholder if it states
/// none.
pub fn try_extract_theme_name(theme_json: &str) -> (name: String)
    ensures
        name@ == theme_name_of(
            theme_json@,
            capture_spans(THEME_NAME_PATTERN@, theme_json@, 0),
        ),
{
    let spans = captures_at(THEME_NAME_PATTERN, theme_json, 0);
    theme_name_from(theme_json, &spans)
}

/// Whether the theme in `theme_json` says that it is light.
pub fn extract_is_light_theme(theme_json: &str) -> (light: bool)
    ensures
        light == theme_is_light(
            theme_json@,
            capture_spans(THEME_LIGHT_PATTERN@, theme_json@, 0),
        ),
{
    let spans = captures_at(THEME_LIGHT_PATTERN, theme_json, 0);
    theme_is_light_from(theme_json, &spans)
}

/// The annotation of the block `text[from..to]`, if it is a theme
/// description.
pub open spec fn theme_span_of(text: Seq<char>, from: int, to: int) -> Option<SpannableView> {
    let block = text.subrange(from, to);
    if 0 <= from < to <= text.len() && has_theme_keys(block) {
        Some(
            SpannableView {
                start: from as nat,
                len: (to - from) as nat,
                data: SpannableDataView::ThemeJson {
                    theme_name: theme_name_of(
                        block,
                        capture_spans(THEME_NAME_PATTERN@, block, 0),
                    ),
                    is_light_theme: theme_is_light(
                        block,
                        capture_spans(THEME_LIGHT_PATTERN@, block, 0),
                    ),
                },
            },
        )
    } else {
        None
    }
}

/// The annotations of those of the blocks `parts` that are theme
/// descriptions, in order.
pub open spec fn theme_spans_of(text: Seq<char>, parts: Seq<(int, int)>) -> Seq<SpannableView>
    decreases parts.len(),
{
    if parts.len() == 0 {
        Seq::empty()
    } else {
        let before = theme_spans_of(text, parts.drop_last());
        match theme_span_of(text, parts.last().0, parts.last().1) {
            Some(span) => before.push(span),
            None => before,
        }
    }
}

/// The annotations of the theme descriptions in `text`.
pub open spec fn theme_spans(text: Seq<char>) -> Seq<SpannableView> {
    theme_spans_of(text, json_parts(text))
}

/// Adds to `out_spannables` an annotation for each block in balanced braces
/// of `total_text` that holds every key of a theme description. The
/// annotation covers the block and carries the theme's name and whether it
/// is light.
pub fn detect_and_extract_theme_json(total_text: &str, out_spannables: &mut Vec<Spannable>)
    ensures
        spannables_view(final(out_spannables)@) == spannables_view(old(out_spannables)@)
            + theme_spans(total_text@),
{
    if !text_contains_valid_json(total_text) {
        proof {
            lemma_braces_out_of_order(total_text@);
            assert(spannables_view(out_spannables@) + Seq::<SpannableView>::empty()
                == spannables_view(out_spannables@));
        }
        return ;
    }
    let chars = to_chars(total_text);
    let parts = collect_all_json_parts(total_text);
    let ghost all = json_parts(total_text@);
    let mut i: usize = 0;
    assert(all.take(0) == Seq::<(int, int)>::empty());
    assert(spannables_view(out_spannables@) + Seq::<SpannableView>::empty() == spannables_view(
        out_spannables@,
    ));
    while i < parts.len()
        invariant
            i <= parts@.len(),
            chars@ == total_text@,
            all == json_parts(total_text@),
            as_ints(parts@) == all,
            forall|k: int|
                0 <= k < parts@.len() ==> (#[trigger] parts@[k]).0 < parts@[k].1 <= chars@.len(),
            spannables_view(out_spannables@) == spannables_view(old(out_spannables)@)
                + theme_spans_of(total_text@, all.take(i as int)),
        decreases parts@.len() - i,
    {
        let (from, to) = parts[i];
        proof {
            assert(all.take(i + 1).drop_last() == all.take(i as int));
            assert(all[i as int] == as_ints(parts@)[i as int]);
            assert(all.take(i + 1).last() == (from as int, to as int));
        }
        let block = from_chars(&chars, from, to);
        if is_probably_theme_json(block.as_str()) {
            let theme_name = try_extract_theme_name(block.as_str());
            let is_light_theme = extract_is_light_theme(block.as_str());
            let spannable = Spannable {
                start: from,
                len: to - from,
                spannable_data: SpannableData::ThemeJson { theme_name, is_light_theme },
            };
            if spannable.is_valid() {
                let ghost before = spannables_view(out_spannables@);
                out_spannables.push(spannable);
                assert(spannables_view(out_spannables@) == before.push(spannable@));
            }
        }
        i += 1;
    }
    assert(all.take(all.len() as int) == all);
}

} // verus!
