//! Filtering documents by the values of their fields.
use vstd::prelude::*;
use crate::api_proxy::contains_text;
use crate::value::{find_last, lookup_last, pairs_view, texts_view};

verus! {

/// A filter: for each of its keys the values that are let through.
pub open spec fn filter_view(filter: Seq<(String, Vec<String>)>) -> Seq<(Seq<char>, Seq<Seq<char>>)> {
    filter.map_values(|entry: (String, Vec<String>)| (entry.0@, texts_view(entry.1@)))
}

/// Whether a document has the field and holds one of the allowed values in it.
pub open spec fn field_allowed(
    document: Seq<(Seq<char>, Seq<char>)>,
    key: Seq<char>,
    allowed: Seq<Seq<char>>,
) -> bool {
    match lookup_last(document, key) {
        Some(value) => allowed.contains(value),
        None => false,
    }
}

/// A document passes a filter when it passes every key of it.
pub open spec fn passes(
    document: Seq<(Seq<char>, Seq<char>)>,
    filter: Seq<(Seq<char>, Seq<Seq<char>>)>,
) -> bool {
    forall|i: int| 0 <= i < filter.len() ==> field_allowed(document, (#[trigger] filter[i]).0, filter[i].1)
}

/// Whether a document, given by its fields that hold a text or a number,
/// passes a filter.
pub fn document_passes(document: &Vec<(String, String)>, filter: &Vec<(String, Vec<String>)>) -> (r:
    bool)
    ensures
        r == passes(pairs_view(document@), filter_view(filter@)),
{
    let ghost doc = pairs_view(document@);
    let ghost fv = filter_view(filter@);
    let mut i: usize = 0;
    while i < filter.len()
        invariant
            i <= filter.len(),
            doc == pairs_view(document@),
            fv == filter_view(filter@),
            forall|j: int| 0 <= j < i ==> field_allowed(doc, (#[trigger] fv[j]).0, fv[j].1),
        decreases filter.len() - i,
    {
        assert(fv[i as int] == (filter@[i as int].0@, texts_view(filter@[i as int].1@)));
        let allowed = match find_last(document.as_slice(), filter[i].0.as_str()) {
            Some(value) => contains_text(&filter[i].1, value.as_str()),
            None => false,
        };
        if !allowed {
            return false;
        }
        i += 1;
    }
    true
}

} // verus!
