//! The aggregations of a search answer, kept in the order in which the
//! backend sent them.

use vstd::prelude::*;
use indexmap::IndexMap;
use crate::json::{entries_view, object_of, Json, JsonValue, ObjectBuilder};

verus! {

/// `indexmap::IndexMap`, a map that keeps its pairs in the order in which
/// their keys were first inserted.
#[verifier::external_type_specification]
#[verifier::external_body]
#[verifier::reject_recursive_types(K)]
#[verifier::reject_recursive_types(V)]
#[verifier::reject_recursive_types(S)]
pub struct ExIndexMap<K, V, S>(IndexMap<K, V, S>);

/// The pairs that a map of aggregations holds, in the map's order.
pub uninterp spec fn aggregation_entries(m: IndexMap<String, Json>) -> Seq<(String, Json)>;

/// `IndexMap::is_empty` tells whether the map holds no pair.
#[verifier::external_body]
pub(crate) fn has_no_entries(m: &IndexMap<String, Json>) -> (b: bool)
    ensures
        b == (aggregation_entries(*m).len() == 0),
{
    m.is_empty()
}

/// `IndexMap::len` gives the number of pairs that the map holds.
#[verifier::external_body]
fn count_entries(m: &IndexMap<String, Json>) -> (n: usize)
    ensures
        n == aggregation_entries(*m).len(),
{
    m.len()
}

/// `IndexMap::get_index` hands out the pair at place `i` of the map's
/// order, and nothing for a place past the last pair.
#[verifier::external_body]
fn entry_at(m: &IndexMap<String, Json>, i: usize) -> (r: Option<(&String, &Json)>)
    ensures
        match r {
            Some(pair) => {
                &&& i < aggregation_entries(*m).len()
                &&& *pair.0 == aggregation_entries(*m)[i as int].0
                &&& *pair.1 == aggregation_entries(*m)[i as int].1
            },
            None => i >= aggregation_entries(*m).len(),
        },
{
    m.get_index(i)
}

/// The aggregations as one JSON object, in the map's order.
pub fn aggregations_to_json(m: &IndexMap<String, Json>) -> (j: Json)
    ensures
        j@ == JsonValue::Object(object_of(entries_view(aggregation_entries(*m)))),
{
    let n: usize = count_entries(m);
    let ghost pairs = entries_view(aggregation_entries(*m));
    let mut b = ObjectBuilder::new();
    let mut i: usize = 0;
    while i < n
        invariant
            i <= n,
            n == aggregation_entries(*m).len(),
            pairs == entries_view(aggregation_entries(*m)),
            b.wf(),
            b.pairs() == pairs.subrange(0, i as int),
        decreases n - i,
    {
        match entry_at(m, i) {
            Some((name, value)) => {
                b.put(name.as_str(), value.clone());
                assert(pairs.subrange(0, i + 1) =~= pairs.subrange(0, i as int).push(
                    pairs[i as int],
                ));
            },
            None => {
                assert(false);
            },
        }
        i += 1;
    }
    assert(pairs.subrange(0, n as int) =~= pairs);
    Json::Object(b.finish())
}

} // verus!
