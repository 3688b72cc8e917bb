//! The backend's answers as the tools read them, and the JSON form in which
//! each is handed on.

use vstd::prelude::*;
use vstd::string::*;
use indexmap::IndexMap;
use crate::named::{distinct_names, NameMap};
use crate::json::{lemma_object_of_distinct, object_of, Entries, Json, JsonNumber, JsonObject, JsonValue, ObjectBuilder};

verus! {

/// The JSON form of a text that may be absent.
pub open spec fn text_or_null(text: Option<String>) -> JsonValue {
    match text {
        Some(s) => JsonValue::Text(s@),
        None => JsonValue::Null,
    }
}

/// The JSON form of a count that may be absent.
pub open spec fn unsigned_or_null(n: Option<u64>) -> JsonValue {
    match n {
        Some(v) => JsonValue::Number(JsonNumber::Unsigned(v)),
        None => JsonValue::Null,
    }
}

fn json_text_or_null(text: &Option<String>) -> (j: Json)
    ensures
        j@ == text_or_null(*text),
{
    match text {
        Some(s) => Json::Text(s.clone()),
        None => Json::Null,
    }
}

fn json_unsigned_or_null(n: Option<u64>) -> (j: Json)
    ensures
        j@ == unsigned_or_null(n),
{
    match n {
        Some(v) => Json::unsigned(v),
        None => Json::Null,
    }
}

/// One row of the short index listing.
#[derive(Clone, Debug, PartialEq)]
pub struct CatIndexResponse {
    pub index: String,
    pub status: String,
    pub doc_count: u64,
}

impl CatIndexResponse {
    /// The row as a JSON value: an object with the names `index`,
    /// `status` and `docs.count`.
    pub open spec fn as_value(self) -> JsonValue {
        JsonValue::Object(
            object_of(
                seq![
                    ("index"@, JsonValue::Text(self.index@)),
                    ("status"@, JsonValue::Text(self.status@)),
                    ("docs.count"@, JsonValue::Number(JsonNumber::Unsigned(self.doc_count))),
                ],
            ),
        )
    }

    /// The row as a JSON object.
    pub fn to_json(&self) -> (j: Json)
        ensures
            j@ == self.as_value(),
    {
        let mut b = ObjectBuilder::new();
        b.put("index", Json::Text(self.index.clone()));
        b.put("status", Json::Text(self.status.clone()));
        b.put("docs.count", Json::unsigned(self.doc_count));
        assert(b.pairs() =~= seq![
            ("index"@, JsonValue::Text(self.index@)),
            ("status"@, JsonValue::Text(self.status@)),
            ("docs.count"@, JsonValue::Number(JsonNumber::Unsigned(self.doc_count))),
        ]);
        Json::Object(b.finish())
    }
}

/// One row of the shard listing.
#[derive(Clone, Debug, PartialEq)]
pub struct CatShardsResponse {
    pub index: String,
    pub shard: usize,
    pub prirep: String,
    pub state: String,
    pub docs: Option<u64>,
    pub store: Option<String>,
    pub node: Option<String>,
}

impl CatShardsResponse {
    /// The row as a JSON value: an object with one name for each field, in
    /// the order of the fields; an absent field is `null`.
    pub open spec fn as_value(self) -> JsonValue {
        JsonValue::Object(
            object_of(
                seq![
                    ("index"@, JsonValue::Text(self.index@)),
                    ("shard"@, JsonValue::Number(JsonNumber::Unsigned(self.shard as u64))),
                    ("prirep"@, JsonValue::Text(self.prirep@)),
                    ("state"@, JsonValue::Text(self.state@)),
                    ("docs"@, unsigned_or_null(self.docs)),
                    ("store"@, text_or_null(self.store)),
                    ("node"@, text_or_null(self.node)),
                ],
            ),
        )
    }

    /// The row as a JSON object.
    pub fn to_json(&self) -> (j: Json)
        ensures
            j@ == self.as_value(),
    {
        let mut b = ObjectBuilder::new();
        b.put("index", Json::Text(self.index.clone()));
        b.put("shard", Json::unsigned(self.shard as u64));
        b.put("prirep", Json::Text(self.prirep.clone()));
        b.put("state", Json::Text(self.state.clone()));
        b.put("docs", json_unsigned_or_null(self.docs));
        b.put("store", json_text_or_null(&self.store));
        b.put("node", json_text_or_null(&self.node));
        assert(b.pairs() =~= seq![
            ("index"@, JsonValue::Text(self.index@)),
            ("shard"@, JsonValue::Number(JsonNumber::Unsigned(self.shard as u64))),
            ("prirep"@, JsonValue::Text(self.prirep@)),
            ("state"@, JsonValue::Text(self.state@)),
            ("docs"@, unsigned_or_null(self.docs)),
            ("store"@, text_or_null(self.store)),
            ("node"@, text_or_null(self.node)),
        ]);
        Json::Object(b.finish())
    }
}

/// What the backend knows of one field of an index.
#[derive(Clone, Debug, PartialEq)]
pub struct MappingProperty {
    pub type_: String,
    pub settings: JsonObject,
}

impl MappingProperty {
    /// The property as a JSON value: an object with the name `type`,
    /// followed by the settings.
    pub open spec fn as_value(self) -> JsonValue {
        JsonValue::Object(object_of(seq![("type"@, JsonValue::Text(self.type_@))] + self.settings@))
    }

    /// The property as a JSON object.
    pub fn to_json(&self) -> (j: Json)
        ensures
            j@ == self.as_value(),
    {
        let mut b = ObjectBuilder::new();
        b.put("type", Json::Text(self.type_.clone()));
        assert(b.pairs() =~= seq![("type"@, JsonValue::Text(self.type_@))]);
        b.put_all(&self.settings);
        Json::Object(b.finish())
    }
}

/// The fields of one index.
#[derive(Clone, Debug, PartialEq)]
pub struct Mapping {
    pub meta: Option<JsonObject>,
    pub properties: NameMap<MappingProperty>,
}

/// The JSON form of each named property, under its name.
pub open spec fn property_pairs(properties: Seq<(String, MappingProperty)>) -> Entries {
    Seq::new(properties.len(), |i: int| (properties[i].0@, properties[i].1.as_value()))
}

/// With no name twice among the properties, each is shown under its own
/// name, in order.
pub proof fn lemma_all_properties_are_shown(properties: Seq<(String, MappingProperty)>)
    requires
        distinct_names(properties),
    ensures
        object_of(property_pairs(properties)) == property_pairs(properties),
{
    let pairs = property_pairs(properties);
    assert forall|i: int, j: int| 0 <= i < j < pairs.len() implies (#[trigger] pairs[i]).0 != (
    #[trigger] pairs[j]).0 by {
        assert(properties[i].0@ != properties[j].0@);
    }
    lemma_object_of_distinct(pairs);
}

/// The pair of `_meta` and the object, where there is one.
pub open spec fn meta_pair(meta: Option<JsonObject>) -> Entries {
    match meta {
        Some(m) => seq![("_meta"@, JsonValue::Object(m@))],
        None => seq![],
    }
}

impl Mapping {
    /// The mapping as a JSON value: an object with the name `_meta`, where
    /// the mapping has one, and the name `properties`.
    pub open spec fn as_value(self) -> JsonValue {
        JsonValue::Object(
            object_of(
                meta_pair(self.meta) + seq![
                    ("properties"@, JsonValue::Object(object_of(property_pairs(self.properties@)))),
                ],
            ),
        )
    }

    /// The mapping as a JSON object.
    pub fn to_json(&self) -> (j: Json)
        ensures
            j@ == self.as_value(),
    {
        let mut properties = ObjectBuilder::new();
        let mut i: usize = 0;
        while i < self.properties.len()
            invariant
                i <= self.properties@.len(),
                properties.wf(),
                properties.pairs() == property_pairs(self.properties@).subrange(0, i as int),
            decreases self.properties@.len() - i,
        {
            properties.put(self.properties.name(i).as_str(), self.properties.item(i).to_json());
            assert(property_pairs(self.properties@).subrange(0, i + 1) =~= property_pairs(
                self.properties@,
            ).subrange(0, i as int).push(property_pairs(self.properties@)[i as int]));
            i += 1;
        }
        assert(property_pairs(self.properties@).subrange(0, i as int) =~= property_pairs(
            self.properties@,
        ));
        let mut b = ObjectBuilder::new();
        match &self.meta {
            Some(m) => {
                b.put("_meta", Json::Object(m.clone()));
            },
            None => {},
        }
        assert(b.pairs() =~= meta_pair(self.meta));
        b.put("properties", Json::Object(properties.finish()));
        assert(b.pairs() =~= meta_pair(self.meta) + seq![
            ("properties"@, JsonValue::Object(object_of(property_pairs(self.properties@)))),
        ]);
        Json::Object(b.finish())
    }
}

/// The mappings of one index.
#[derive(Clone, Debug, PartialEq)]
pub struct Mappings {
    pub mappings: Mapping,
}

impl Mappings {
    /// The mappings as a JSON value: an object with the name `mappings`.
    pub open spec fn as_value(self) -> JsonValue {
        JsonValue::Object(object_of(seq![("mappings"@, self.mappings.as_value())]))
    }

    /// The mappings as a JSON object.
    pub fn to_json(&self) -> (j: Json)
        ensures
            j@ == self.as_value(),
    {
        let mut b = ObjectBuilder::new();
        b.put("mappings", self.mappings.to_json());
        assert(b.pairs() =~= seq![("mappings"@, self.mappings.as_value())]);
        Json::Object(b.finish())
    }
}

/// The request body of a structured query.
#[derive(Clone, Debug, PartialEq)]
pub struct EsqlQueryRequest {
    pub query: String,
}

/// One column of a structured query's answer.
#[derive(Clone, Debug, PartialEq)]
pub struct Column {
    pub name: String,
    pub type_: String,
}

/// The answer to a structured query: the columns and, row by row, one value
/// for each column.
#[derive(Clone, Debug, PartialEq)]
pub struct EsqlQueryResponse {
    pub is_partial: Option<bool>,
    pub columns: Vec<Column>,
    pub values: Vec<Vec<Json>>,
}

/// The total that a search reports.
#[derive(Clone, Copy, Debug, PartialEq, Eq, Structural)]
pub struct TotalHits {
    pub value: u64,
}

/// One document that a search found.
#[derive(Clone, Debug, PartialEq)]
pub struct Hit {
    pub source: Json,
}

/// The documents that a search found.
#[derive(Clone, Debug, PartialEq)]
pub struct Hits {
    pub total: Option<TotalHits>,
    pub hits: Vec<Hit>,
}

/// The answer to a search: the documents found and the aggregations, the
/// latter in the order in which the backend sent them.
#[derive(Debug, PartialEq)]
pub struct SearchResult {
    pub hits: Hits,
    pub aggregations: IndexMap<String, Json>,
}

} // verus!
