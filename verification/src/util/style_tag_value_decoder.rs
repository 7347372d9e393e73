//! Decoding of the value of a `style` attribute.

use crate::spannable::{SpannableData, SpannableDataView};
use crate::text::{
    chars_eq, from_chars, plain_split, slice_chars, split_bounds, to_chars, trim_bounds, trimmed,
};
use crate::util::color_decoder::{color_hex_of, color_name_to_color_hex, lowercase};
use vstd::prelude::*;

verus! {

/// The values of a sequence of annotation data.
pub open spec fn data_view(data: Seq<SpannableData>) -> Seq<SpannableDataView> {
    data.map_values(|d: SpannableData| d@)
}

/// What the style property `name` with the value `value` says. `font-size`
/// gives the size as written; `color` gives the value itself if it begins
/// with `#`, else the colour of that name if there is one. `font-weight` and
/// every other property give nothing.
pub open spec fn style_of(name: Seq<char>, value: Seq<char>) -> Option<SpannableDataView> {
    if name == "font-size"@ {
        Some(SpannableDataView::FontSize { size: value })
    } else if name == "font-weight"@ {
        None
    } else if name == "color"@ {
        if value.len() > 0 && value[0] == '#' {
            Some(SpannableDataView::TextForegroundColorRaw { color_hex: value })
        } else {
            match color_hex_of(lowercase(value)) {
                Some(hex) => Some(SpannableDataView::TextForegroundColorRaw { color_hex: hex }),
                None => None,
            }
        }
    } else {
        None
    }
}

/// What one `name:value` of a style says: nothing unless it has exactly one
/// `:`. White space around the name and the value does not count.
pub open spec fn style_of_param(param: Seq<char>) -> Option<SpannableDataView> {
    let sides = plain_split(param, ':');
    if sides.len() == 2 {
        style_of(trimmed(sides[0]), trimmed(sides[1]))
    } else {
        None
    }
}

/// What the parameters of a style say, in their order.
pub open spec fn styles_of_params(params: Seq<Seq<char>>) -> Seq<SpannableDataView>
    decreases params.len(),
{
    if params.len() == 0 {
        Seq::empty()
    } else {
        let before = styles_of_params(params.drop_last());
        match style_of_param(params.last()) {
            Some(style) => before.push(style),
            None => before,
        }
    }
}

/// What the value of a `style` attribute says: its parameters stand between
/// `;`.
pub open spec fn decoded_style(value: Seq<char>) -> Seq<SpannableDataView> {
    styles_of_params(plain_split(value, ';'))
}

/// Decodes one property as `style_of` says.
pub fn decode_style(name: &Vec<char>, value: &Vec<char>) -> (style: Option<SpannableData>)
    ensures
        match style {
            Some(data) => style_of(name@, value@) == Some(data@),
            None => style_of(name@, value@) is None,
        },
{
    assert(value@.subrange(0, value@.len() as int) == value@);
    if chars_eq(name, &to_chars("font-size")) {
        Some(SpannableData::FontSize { size: from_chars(value, 0, value.len()) })
    } else if chars_eq(name, &to_chars("font-weight")) {
        None
    } else if chars_eq(name, &to_chars("color")) {
        let text = from_chars(value, 0, value.len());
        if value.len() > 0 && value[0] == '#' {
            Some(SpannableData::TextForegroundColorRaw { color_hex: text })
        } else {
            match color_name_to_color_hex(text.as_str()) {
                Some(hex) => Some(SpannableData::TextForegroundColorRaw { color_hex: hex }),
                None => None,
            }
        }
    } else {
        None
    }
}

/// The annotation data that the value of a `style` attribute gives: one for
/// each property that is known and has a known value, in their order.
pub fn decode_style_spans(style_attr_value: &str) -> (spans: Vec<SpannableData>)
    ensures
        data_view(spans@) == decoded_style(style_attr_value@),
{
    let chars = to_chars(style_attr_value);
    assert(chars@.subrange(0, chars@.len() as int) == chars@);
    let params = split_bounds(&chars, 0, chars.len(), ';');
    let ghost all = plain_split(style_attr_value@, ';');
    let mut spans: Vec<SpannableData> = Vec::new();
    let mut i: usize = 0;
    assert(all.take(0) == Seq::<Seq<char>>::empty());
    assert(data_view(spans@) == Seq::<SpannableDataView>::empty());
    while i < params.len()
        invariant
            i <= params@.len(),
            chars@ == style_attr_value@,
            all == plain_split(style_attr_value@, ';'),
            params@.len() == all.len(),
            forall|k: int|
                0 <= k < params@.len() ==> 0 <= (#[trigger] params@[k]).0 <= params@[k].1
                    <= chars@.len() && chars@.subrange(
                    params@[k].0 as int,
                    params@[k].1 as int,
                ) == all[k],
            data_view(spans@) == styles_of_params(all.take(i as int)),
        decreases params@.len() - i,
    {
        let (from, to) = params[i];
        proof {
            assert(all.take(i + 1).drop_last() == all.take(i as int));
            assert(all.take(i + 1).last() == all[i as int]);
        }
        let sides = split_bounds(&chars, from, to, ':');
        if sides.len() == 2 {
            let name_bounds = trim_bounds(&chars, sides[0].0, sides[0].1);
            let value_bounds = trim_bounds(&chars, sides[1].0, sides[1].1);
            let name = slice_chars(&chars, name_bounds.0, name_bounds.1);
            let value = slice_chars(&chars, value_bounds.0, value_bounds.1);
            match decode_style(&name, &value) {
                Some(data) => {
                    let ghost before = data_view(spans@);
                    spans.push(data);
                    assert(data_view(spans@) == before.push(data@));
                },
                None => {},
            }
        }
        i += 1;
    }
    assert(all.take(all.len() as int) == all);
    spans
}

} // verus!
