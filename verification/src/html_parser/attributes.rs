//! The attribute map of an element: an insertion-ordered map from `linked_hash_map`.

use linked_hash_map::LinkedHashMap;
use vstd::prelude::*;

verus! {

/// Declares `linked_hash_map::LinkedHashMap`, so that it can stand in
/// fields and signatures. Nothing is known of what a value holds but what
/// the functions below say.
#[verifier::external_type_specification]
#[verifier::external_body]
#[verifier::reject_recursive_types(K)]
#[verifier::reject_recursive_types(V)]
#[verifier::reject_recursive_types(S)]
pub struct ExLinkedHashMap<K, V, S>(LinkedHashMap<K, V, S>);

/// The entries of an attribute map as (name, value) pairs, in iteration
/// order: oldest insertion first.
pub uninterp spec fn attribute_entries(map: LinkedHashMap<String, String>) -> Seq<
    (Seq<char>, Seq<char>),
>;

/// The value that `entries` holds for `name`, if any.
pub open spec fn lookup(entries: Seq<(Seq<char>, Seq<char>)>, name: Seq<char>) -> Option<
    Seq<char>,
>
    decreases entries.len(),
{
    if entries.len() == 0 {
        None
    } else if entries[0].0 == name {
        Some(entries[0].1)
    } else {
        lookup(entries.drop_first(), name)
    }
}

/// `entries` without the entry for `name`.
pub open spec fn without(entries: Seq<(Seq<char>, Seq<char>)>, name: Seq<char>) -> Seq<
    (Seq<char>, Seq<char>),
> {
    entries.filter(|entry: (Seq<char>, Seq<char>)| entry.0 != name)
}

/// `entries` after `name` was set to `value`: an entry that `name` had is
/// dropped, and the new one goes to the end.
pub open spec fn with_entry(
    entries: Seq<(Seq<char>, Seq<char>)>,
    name: Seq<char>,
    value: Seq<char>,
) -> Seq<(Seq<char>, Seq<char>)> {
    without(entries, name).push((name, value))
}

/// Calls `LinkedHashMap::new`: the new map has no entries.
#[verifier::external_body]
pub(crate) fn new_attributes() -> (map: LinkedHashMap<String, String>)
    ensures
        attribute_entries(map) == Seq::<(Seq<char>, Seq<char>)>::empty(),
{
    LinkedHashMap::new()
}

/// Calls `LinkedHashMap::insert`: an entry that the key had is replaced, and
/// the key becomes the newest in iteration order.
#[verifier::external_body]
pub(crate) fn insert_attribute(
    map: &mut LinkedHashMap<String, String>,
    name: String,
    value: String,
)
    ensures
        attribute_entries(*final(map)) == with_entry(attribute_entries(*old(map)), name@, value@),
{
    map.insert(name, value);
}

/// Calls `LinkedHashMap::get`: the value stored under the key, if the map
/// has the key.
#[verifier::external_body]
pub(crate) fn get_attribute<'a>(map: &'a LinkedHashMap<String, String>, name: &str) -> (value:
    Option<&'a String>)
    ensures
        match value {
            Some(v) => lookup(attribute_entries(*map), name@) == Some(v@),
            None => lookup(attribute_entries(*map), name@) is None,
        },
{
    map.get(name)
}

/// Calls `LinkedHashMap::iter` and copies each entry: all entries in
/// iteration order.
#[verifier::external_body]
pub(crate) fn attribute_pairs(map: &LinkedHashMap<String, String>) -> (pairs: Vec<(String, String)>)
    ensures
        pairs@.len() == attribute_entries(*map).len(),
        forall|i: int|
            0 <= i < pairs@.len() ==> (#[trigger] pairs@[i]).0@ == attribute_entries(*map)[i].0
                && pairs@[i].1@ == attribute_entries(*map)[i].1,
{
    map.iter().map(|(name, value)| (name.clone(), value.clone())).collect()
}

} // verus!
