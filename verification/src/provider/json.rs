//! JSON texts, read by serde_json.

use std::collections::HashMap;
use vstd::prelude::*;

verus! {

/// The counts by name that serde_json reads from a JSON text as a map from
/// texts to unsigned numbers; `None` where the text is no such map.
pub uninterp spec fn json_counts(json: Seq<char>) -> Option<Map<Seq<char>, nat>>;

/// Whether a list holds the names and counts of a map, each name once, in
/// whatever order.
pub open spec fn lists(list: Seq<(String, usize)>, held: Map<Seq<char>, nat>) -> bool {
    &&& forall|i: int|
        0 <= i < list.len() ==> held.contains_key((#[trigger] list[i]).0@) && held[list[i].0@]
            == list[i].1
    &&& forall|i: int, j: int|
        0 <= i < j < list.len() ==> (#[trigger] list[i]).0@ != (#[trigger] list[j]).0@
    &&& forall|name: Seq<char>| #[trigger]
        held.contains_key(name) ==> exists|i: int|
            0 <= i < list.len() && (#[trigger] list[i]).0@ == name
}

/// `serde_json::from_str` for a `HashMap<String, usize>`: reads a JSON
/// object whose values are unsigned numbers. Which names and counts it
/// reads depends on the text alone; the order in which the map hands them
/// out does not follow from it. Where the text is no such object, the
/// result is what serde_json's error says in words (its `to_string`).
#[verifier::external_body]
pub(crate) fn counts_of_json(json: &str) -> (counts: Result<Vec<(String, usize)>, String>)
    ensures
        match counts {
            Ok(list) => json_counts(json@) matches Some(held) && lists(list@, held),
            Err(_) => json_counts(json@) is None,
        },
{
    match serde_json::from_str::<HashMap<String, usize>>(json) {
        Ok(held) => Ok(held.into_iter().collect()),
        Err(error) => Err(error.to_string()),
    }
}

} // verus!
