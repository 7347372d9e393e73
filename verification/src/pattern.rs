//! Searching text with regular expressions of the `regex` crate.

use crate::text::{bytes_between, slice_bytes, sliceable};
use vstd::prelude::*;
use vstd::string::StringExecFns;
use vstd::utf8::encode_utf8;

verus! {

/// What a search for the regular expression `pattern` in `haystack`, begun
/// at the byte `start`, finds: none if the pattern is not a regular
/// expression or matches nowhere from `start` on; else, for the leftmost
/// match, the bytes where each capture group begins and ends, the whole match
/// first, with none for a group that took no part in the match.
pub uninterp spec fn capture_spans(pattern: Seq<char>, haystack: Seq<char>, start: int) -> Option<
    Seq<Option<(usize, usize)>>,
>;

/// Calls `regex::Regex::new` on the pattern and `regex::Regex::captures_at`
/// on the result. The contract gives what comes back the name
/// `capture_spans`: it is the same for the same pattern, text and start.
/// `captures_at` panics when `start` lies behind the end of the text, so
/// that is required not to be.
#[verifier::external_body]
pub(crate) fn captures_at(pattern: &str, haystack: &str, start: usize) -> (spans: Option<
    Vec<Option<(usize, usize)>>,
>)
    requires
        start <= encode_utf8(haystack@).len(),
    ensures
        match spans {
            Some(found) => capture_spans(pattern@, haystack@, start as int) == Some(found@),
            None => capture_spans(pattern@, haystack@, start as int) is None,
        },
{
    let regex = regex::Regex::new(pattern).ok()?;
    let captures = regex.captures_at(haystack, start)?;
    Some(captures.iter().map(|group| group.map(|found| (found.start(), found.end()))).collect())
}

/// The view of what a search found.
pub open spec fn spans_view(spans: Option<Vec<Option<(usize, usize)>>>) -> Option<
    Seq<Option<(usize, usize)>>,
> {
    match spans {
        Some(groups) => Some(groups@),
        None => None,
    }
}

/// The text that the capture group `group` of `spans` holds in `haystack`:
/// none if there is no such group, if it took no part in the match, or if
/// its bounds do not cut `haystack` between characters.
pub open spec fn group_text(
    haystack: Seq<char>,
    spans: Seq<Option<(usize, usize)>>,
    group: int,
) -> Option<Seq<char>> {
    if 0 <= group < spans.len() {
        match spans[group] {
            Some((from, to)) => if sliceable(haystack, from as int, to as int) {
                Some(bytes_between(haystack, from as int, to as int))
            } else {
                None
            },
            None => None,
        }
    } else {
        None
    }
}

/// Cuts the text of a capture group out of `haystack` as `group_text` says.
pub fn captured_text(haystack: &str, spans: &Vec<Option<(usize, usize)>>, group: usize) -> (text:
    Option<String>)
    ensures
        match text {
            Some(found) => group_text(haystack@, spans@, group as int) == Some(found@),
            None => group_text(haystack@, spans@, group as int) is None,
        },
{
    if group >= spans.len() {
        return None;
    }
    match spans[group] {
        Some((from, to)) => match slice_bytes(haystack, from, to) {
            Some(found) => Some(String::from_str(found)),
            None => None,
        },
        None => None,
    }
}

} // verus!
