//! JSON texts.
use vstd::prelude::*;

verus! {

broadcast use vstd::string::group_string_axioms;

/// Why `serde_json` does not read a text as JSON, where it does not.
pub uninterp spec fn json_problem(text: Seq<char>) -> Option<Seq<char>>;

/// The JSON text of an object with string values, as `serde_json` writes it;
/// nothing where it cannot be written.
pub uninterp spec fn json_object_text(entries: Seq<(Seq<char>, Seq<char>)>) -> Option<Seq<char>>;

/// The entries of a list of pairs, as texts.
pub open spec fn pair_texts(pairs: Seq<(String, String)>) -> Seq<(Seq<char>, Seq<char>)> {
    Seq::new(pairs.len(), |i: int| (pairs[i].0@, pairs[i].1@))
}

/// `serde_json::from_str` for its error alone: a function of the text alone.
#[verifier::external_body]
pub(crate) fn json_error(text: &str) -> (r: Option<String>)
    ensures
        crate::text::option_text(r) == json_problem(text@),
{
    serde_json::from_str::<serde_json::Value>(text).err().map(|error| error.to_string())
}

/// `serde_json::to_string` on a map with the entries `entries`: the text is a
/// function of the entries alone. They come in the order of their keys, each
/// key once, so that the map has them as they are.
#[verifier::external_body]
pub(crate) fn object_json(entries: Vec<(String, String)>) -> (r: Option<String>)
    requires
        crate::text_map::sorted_keys(pair_texts(entries@)),
    ensures
        crate::text::option_text(r) == json_object_text(pair_texts(entries@)),
{
    let object: std::collections::BTreeMap<String, String> = entries.into_iter().collect();
    serde_json::to_string(&object).ok()
}

} // verus!
