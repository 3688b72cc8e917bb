//! Adjusting a search body before it is sent: the result count is held to
//! the hard cap, and requested fields join the body's source filter.

use vstd::prelude::*;
use vstd::string::*;
use crate::json::{
    items_view, lemma_array_view, lemma_lookup_after_put, lemma_lookup_after_put_elsewhere,
    lemma_put_twice, lookup, number_exceeds, strings_view, texts, with_entry, Entries, Json,
    JsonNumber, JsonObject, JsonValue,
};

verus! {

/// Name under which a search body asks for a result count.
pub const SIZE_KEY: &'static str = "size";

/// Name under which a search body selects the fields to return.
pub const SOURCE_KEY: &'static str = "_source";

/// The result count that a body asks for: the value under `size`, where it
/// is a number of any form.
pub open spec fn requested_size(body: Entries) -> Option<JsonNumber> {
    match lookup(body, SIZE_KEY@) {
        Some(JsonValue::Number(n)) => Some(n),
        _ => None,
    }
}

/// The body with its result count held to `hard_max`: a count that is a
/// number greater than `hard_max`, whole or not, becomes `hard_max`. A body
/// that asks for no count, for a count that is no number, or for one within
/// the cap stays as it is.
pub open spec fn clamped(body: Entries, hard_max: u64) -> Entries {
    match requested_size(body) {
        Some(n) if number_exceeds(n, hard_max) => with_entry(
            body,
            SIZE_KEY@,
            JsonValue::Number(JsonNumber::Unsigned(hard_max)),
        ),
        _ => body,
    }
}

/// The body with `fields` merged into its source filter. Without fields the
/// body stays as it is. A filter that is a list gets the fields appended; a
/// body without a filter gets the fields as its filter; a filter of another
/// form stays as it is.
pub open spec fn narrowed(body: Entries, fields: Seq<Seq<char>>) -> Entries {
    if fields.len() == 0 {
        body
    } else {
        match lookup(body, SOURCE_KEY@) {
            None => with_entry(body, SOURCE_KEY@, JsonValue::Array(texts(fields))),
            Some(JsonValue::Array(items)) => with_entry(
                body,
                SOURCE_KEY@,
                JsonValue::Array(items + texts(fields)),
            ),
            Some(_) => body,
        }
    }
}

/// The body as it is sent: clamped, then narrowed.
pub open spec fn augmented(
    body: Entries,
    fields: Seq<Seq<char>>,
    hard_max: u64,
) -> Entries {
    narrowed(clamped(body, hard_max), fields)
}

/// Turns each field name into a JSON text and appends it to `items`.
fn append_texts(items: &mut Vec<Json>, fields: &Vec<String>)
    ensures
        items_view(final(items)@) == items_view(old(items)@) + texts(strings_view(fields@)),
{
    let ghost before = items_view(items@);
    let mut i: usize = 0;
    while i < fields.len()
        invariant
            i <= fields.len(),
            items_view(items@) == before + texts(strings_view(fields@)).subrange(0, i as int),
        decreases fields.len() - i,
    {
        let ghost so_far = items_view(items@);
        let field = Json::Text(fields[i].clone());
        items.push(field);
        assert(items_view(items@) =~= so_far.push(JsonValue::Text(fields@[i as int]@)));
        assert(texts(strings_view(fields@)).subrange(0, i + 1) =~= texts(
            strings_view(fields@),
        ).subrange(0, i as int).push(JsonValue::Text(fields@[i as int]@)));
        i += 1;
    }
    assert(texts(strings_view(fields@)).subrange(0, i as int) =~= texts(strings_view(fields@)));
}

/// Prepares a search body for sending. A result count that is a number
/// over `hard_max`, whole or not, becomes `hard_max`; the requested
/// `fields`, if there are any, are merged into the body's source filter.
/// Everything else stays as it was.
pub fn augment(body: JsonObject, fields: &Vec<String>, hard_max: u64) -> (r: JsonObject)
    ensures
        r@ == augmented(body@, strings_view(fields@), hard_max),
{
    let mut body = body;
    let over = match body.get(SIZE_KEY) {
        Some(Json::Number(n)) => n.exceeds(hard_max),
        _ => false,
    };
    if over {
        body.insert(String::from_str(SIZE_KEY), Json::unsigned(hard_max));
    }
    let ghost sized = body@;
    if fields.len() > 0 {
        match body.position(SOURCE_KEY) {
            None => {
                let mut items: Vec<Json> = Vec::new();
                append_texts(&mut items, fields);
                assert(items_view(items@) =~= texts(strings_view(fields@)));
                body.insert(String::from_str(SOURCE_KEY), Json::array(items));
            },
            Some(i) => {
                let is_list = match body.value(i) {
                    Json::Array(_) => true,
                    _ => false,
                };
                if is_list {
                    match body.insert(String::from_str(SOURCE_KEY), Json::Null) {
                        Some(Json::Array(items)) => {
                            let mut items = items;
                            proof {
                                lemma_array_view(items);
                                lemma_put_twice(
                                    sized,
                                    SOURCE_KEY@,
                                    JsonValue::Null,
                                    JsonValue::Array(
                                        items_view(items@) + texts(strings_view(fields@)),
                                    ),
                                );
                            }
                            append_texts(&mut items, fields);
                            body.insert(String::from_str(SOURCE_KEY), Json::array(items));
                        },
                        _ => {
                            assert(false);
                        },
                    }
                }
            },
        }
    }
    body
}

/// Clamping twice with one cap gives what clamping once gives.
pub proof fn lemma_clamp_is_idempotent(body: Entries, hard_max: u64)
    ensures
        clamped(clamped(body, hard_max), hard_max) == clamped(body, hard_max),
{
    lemma_lookup_after_put(body, SIZE_KEY@, JsonValue::Number(JsonNumber::Unsigned(hard_max)));
}

/// After clamping, a body asks for no more than the cap: for the cap where
/// it asked for more, and for exactly what it asked for before where that
/// was within the cap.
pub proof fn lemma_clamped_size(body: Entries, hard_max: u64)
    ensures
        requested_size(clamped(body, hard_max)) == match requested_size(body) {
            Some(n) => Some(
                if number_exceeds(n, hard_max) {
                    JsonNumber::Unsigned(hard_max)
                } else {
                    n
                },
            ),
            None => None::<JsonNumber>,
        },
        match requested_size(clamped(body, hard_max)) {
            Some(n) => !number_exceeds(n, hard_max),
            None => true,
        },
{
    lemma_lookup_after_put(body, SIZE_KEY@, JsonValue::Number(JsonNumber::Unsigned(hard_max)));
}

/// Without requested fields, preparing a prepared body changes nothing.
pub proof fn lemma_augment_is_idempotent(body: Entries, hard_max: u64)
    ensures
        augmented(augmented(body, Seq::empty(), hard_max), Seq::empty(), hard_max) == augmented(
            body,
            Seq::empty(),
            hard_max,
        ),
{
    lemma_clamp_is_idempotent(body, hard_max);
}

/// Preparing a body changes nothing under any name but the two that it is
/// about: what stood under another name stands there afterwards.
pub proof fn lemma_augment_touches_only_its_names(
    body: Entries,
    fields: Seq<Seq<char>>,
    hard_max: u64,
    other: Seq<char>,
)
    requires
        other != SIZE_KEY@,
        other != SOURCE_KEY@,
    ensures
        lookup(augmented(body, fields, hard_max), other) == lookup(body, other),
{
    let sized = clamped(body, hard_max);
    lemma_lookup_after_put_elsewhere(
        body,
        SIZE_KEY@,
        JsonValue::Number(JsonNumber::Unsigned(hard_max)),
        other,
    );
    match lookup(sized, SOURCE_KEY@) {
        None => {
            lemma_lookup_after_put_elsewhere(
                sized,
                SOURCE_KEY@,
                JsonValue::Array(texts(fields)),
                other,
            );
        },
        Some(JsonValue::Array(items)) => {
            lemma_lookup_after_put_elsewhere(
                sized,
                SOURCE_KEY@,
                JsonValue::Array(items + texts(fields)),
                other,
            );
        },
        Some(_) => {},
    }
}

/// The field merge: a body with a source list gets the fields appended to
/// it, and a body without a source filter gets the fields as its list.
pub proof fn lemma_fields_are_merged(body: Entries, fields: Seq<Seq<char>>, hard_max: u64)
    requires
        fields.len() > 0,
    ensures
        lookup(augmented(body, fields, hard_max), SOURCE_KEY@) == match lookup(body, SOURCE_KEY@) {
            None => Some(JsonValue::Array(texts(fields))),
            Some(JsonValue::Array(items)) => Some(JsonValue::Array(items + texts(fields))),
            Some(other) => Some(other),
        },
{
    let sized = clamped(body, hard_max);
    assert(SIZE_KEY@ != SOURCE_KEY@) by {
        reveal_strlit("size");
        reveal_strlit("_source");
        assert(SIZE_KEY@.len() == 4);
        assert(SOURCE_KEY@.len() == 7);
    }
    lemma_lookup_after_put_elsewhere(
        body,
        SIZE_KEY@,
        JsonValue::Number(JsonNumber::Unsigned(hard_max)),
        SOURCE_KEY@,
    );
    match lookup(sized, SOURCE_KEY@) {
        None => {
            lemma_lookup_after_put(sized, SOURCE_KEY@, JsonValue::Array(texts(fields)));
        },
        Some(JsonValue::Array(items)) => {
            lemma_lookup_after_put(sized, SOURCE_KEY@, JsonValue::Array(items + texts(fields)));
        },
        Some(_) => {},
    }
}

} // verus!
