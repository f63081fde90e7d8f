//! What is taken from the crates `itertools` and `serde_json`, and one function of `str`.

use std::collections::HashMap;

use itertools::Itertools;

use vstd::prelude::*;

use crate::util::groups::grouped;
use crate::util::id_map::views;
use crate::util::ids::occurrences;

verus! {

/// The texts in `parts`, with `sep` between two of them.
pub open spec fn joined(parts: Seq<Seq<char>>, sep: Seq<char>) -> Seq<char>
    decreases parts.len(),
{
    if parts.len() == 0 {
        Seq::empty()
    } else if parts.len() == 1 {
        parts[0]
    } else {
        joined(parts.drop_last(), sep) + sep + parts.last()
    }
}

/// Calls `itertools::Itertools::join` on the texts: it writes them one behind the other, with
/// `sep` between two of them, and gives the empty text where there is none.
#[verifier::external_body]
pub(crate) fn join(parts: &Vec<String>, sep: &str) -> (r: String)
    ensures
        r@ == joined(views(parts@), sep@),
{
    parts.iter().join(sep)
}

/// Calls `itertools::Itertools::counts`: it counts how often each element occurs, and knows of no
/// other element.
#[verifier::external_body]
pub(crate) fn counts(ids: &Vec<u32>) -> (r: HashMap<u32, usize>)
    ensures
        forall|id: u32| #[trigger] r@.contains_key(id) <==> ids@.contains(id),
        forall|id: u32| #[trigger] r@.contains_key(id) ==> r@[id] == occurrences(ids@, id),
{
    ids.iter().copied().counts()
}

/// Calls `itertools::Itertools::into_group_map`: it puts the second parts of the pairs under
/// their first parts, in the order of the pairs, and knows of no other key.
#[verifier::external_body]
pub(crate) fn into_group_map(pairs: Vec<(u32, u32)>) -> (r: HashMap<u32, Vec<u32>>)
    ensures
        forall|k: u32| #[trigger] r@.contains_key(k) <==> grouped(pairs@).contains_key(k),
        forall|k: u32| #[trigger] r@.contains_key(k) ==> r@[k]@ == grouped(pairs@)[k],
{
    pairs.into_iter().into_group_map()
}

/// The JSON text of a list of texts.
pub uninterp spec fn json_of(list: Seq<Seq<char>>) -> Seq<char>;

/// Calls `serde_json::to_string` on a list of texts, which does not fail: neither a list nor a
/// text refuses to be written. What the JSON text is, apart from that it depends on the list
/// alone, is left unsaid.
#[verifier::external_body]
pub(crate) fn json_text(list: &Vec<String>) -> (r: String)
    ensures
        r@ == json_of(views(list@)),
{
    serde_json::to_string(list).unwrap()
}

/// A text in lower case.
pub uninterp spec fn lower_case(s: Seq<char>) -> Seq<char>;

/// Calls `str::to_lowercase`, whose result depends on the text alone. What it is for a given text
/// is left unsaid.
#[verifier::external_body]
pub(crate) fn to_lowercase(s: &String) -> (r: String)
    ensures
        r@ == lower_case(s@),
{
    s.to_lowercase()
}

} // verus!
