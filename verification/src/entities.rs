//! Decoding of HTML entities with the `html_escape` crate.

use vstd::prelude::*;

verus! {

/// `text` with each named or numeric character reference that ends in `;`
/// replaced by the character it stands for, as
/// `html_escape::decode_html_entities` does it.
pub uninterp spec fn decoded_entities(text: Seq<char>) -> Seq<char>;

/// Calls `html_escape::decode_html_entities`. The contract gives the result
/// the name `decoded_entities`, and says that a text without `&` comes back
/// as it is: the decoder copies everything up to the next `&`.
#[verifier::external_body]
pub(crate) fn decode_entities(text: &str) -> (decoded: String)
    ensures
        decoded@ == decoded_entities(text@),
        !text@.contains('&') ==> decoded@ == text@,
{
    html_escape::decode_html_entities(text).into_owned()
}

} // verus!
