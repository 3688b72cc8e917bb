//! JSON values as the tools read and build them.

use vstd::prelude::*;
use vstd::string::*;
use crate::number::{real_exceeds, real_is_over};
use crate::text::same_text;

verus! {

/// A JSON number. A whole number that is not negative is `Unsigned`, a
/// negative whole number is `Negative`, and any other number is `Real`,
/// held as the bits of its 64-bit floating-point form. Whichever form holds
/// a number, the number is read as what it counts: a `Negative` that holds
/// a number above zero counts that number.
#[derive(Clone, Copy, Debug, PartialEq, Eq, Structural)]
pub enum JsonNumber {
    Unsigned(u64),
    Negative(i64),
    Real { bits: u64 },
}

/// A JSON value.
#[derive(Debug, PartialEq)]
pub enum Json {
    Null,
    Bool(bool),
    Number(JsonNumber),
    Text(String),
    Array(Vec<Json>),
    Object(JsonObject),
}

/// A JSON object: named values in the order in which they were added, no
/// name twice.
#[derive(Debug, PartialEq)]
pub struct JsonObject {
    entries: Vec<(String, Json)>,
}

/// What a JSON object holds: its names with their values, in order.
pub type Entries = Seq<(Seq<char>, JsonValue)>;

/// What a JSON value holds.
pub enum JsonValue {
    Null,
    Bool(bool),
    Number(JsonNumber),
    Text(Seq<char>),
    Array(Seq<JsonValue>),
    Object(Entries),
}

/// What the value `j` holds.
pub open spec fn json_value(j: Json) -> JsonValue
    decreases j,
{
    match j {
        Json::Null => JsonValue::Null,
        Json::Bool(b) => JsonValue::Bool(b),
        Json::Number(n) => JsonValue::Number(n),
        Json::Text(s) => JsonValue::Text(s@),
        Json::Array(items) => JsonValue::Array(
            Seq::new(
                items.len() as nat,
                |i: int|
                    if 0 <= i < items.len() {
                        json_value(items[i])
                    } else {
                        JsonValue::Null
                    },
            ),
        ),
        Json::Object(o) => JsonValue::Object(object_entries(o)),
    }
}

/// The named values that the object `o` holds, in order.
pub closed spec fn object_entries(o: JsonObject) -> Entries
    decreases o,
{
    Seq::new(
        o.entries.len() as nat,
        |i: int|
            if 0 <= i < o.entries.len() {
                (o.entries[i].0@, json_value(o.entries[i].1))
            } else {
                (Seq::empty(), JsonValue::Null)
            },
    )
}

/// What a list of named values holds.
pub open spec fn entries_view(entries: Seq<(String, Json)>) -> Entries {
    Seq::new(entries.len(), |i: int| (entries[i].0@, entries[i].1@))
}

/// What a list of values holds.
pub open spec fn items_view(items: Seq<Json>) -> Seq<JsonValue> {
    Seq::new(items.len(), |i: int| items[i]@)
}

impl View for Json {
    type V = JsonValue;

    open spec fn view(&self) -> JsonValue {
        json_value(*self)
    }
}

impl View for JsonObject {
    type V = Entries;

    open spec fn view(&self) -> Entries {
        object_entries(*self)
    }
}

/// No name occurs twice among `entries`.
pub open spec fn distinct_keys(entries: Entries) -> bool {
    forall|i: int, j: int|
        0 <= i < j < entries.len() ==> (#[trigger] entries[i]).0 != (#[trigger] entries[j]).0
}

/// Some entry of `entries` has the name `key`.
pub open spec fn has_key(entries: Entries, key: Seq<char>) -> bool {
    exists|i: int| 0 <= i < entries.len() && (#[trigger] entries[i]).0 == key
}

/// `i` is the place of the first entry of `entries` with the name `key`.
pub open spec fn is_first_with_key(
    entries: Entries,
    key: Seq<char>,
    i: int,
) -> bool {
    &&& 0 <= i < entries.len()
    &&& entries[i].0 == key
    &&& forall|j: int| 0 <= j < i ==> (#[trigger] entries[j]).0 != key
}

/// The place of the first entry with the name `key`, where there is one.
pub open spec fn position_of(entries: Entries, key: Seq<char>) -> int {
    choose|i: int| is_first_with_key(entries, key, i)
}

/// The value under the name `key`, where there is one.
pub open spec fn lookup(entries: Entries, key: Seq<char>) -> Option<
    JsonValue,
> {
    if has_key(entries, key) {
        Some(entries[position_of(entries, key)].1)
    } else {
        None
    }
}

/// The entries after `value` was put under the name `key`: in the place of
/// the entry that had the name, or at the end where none had it.
pub open spec fn with_entry(
    entries: Entries,
    key: Seq<char>,
    value: JsonValue,
) -> Entries {
    if has_key(entries, key) {
        entries.update(position_of(entries, key), (key, value))
    } else {
        entries.push((key, value))
    }
}

/// A place that holds the name, with no earlier place that does, is the
/// place that `position_of` names.
pub proof fn lemma_position_of(entries: Entries, key: Seq<char>, i: int)
    requires
        is_first_with_key(entries, key, i),
    ensures
        has_key(entries, key),
        position_of(entries, key) == i,
{
    let p = position_of(entries, key);
    assert(is_first_with_key(entries, key, p));
    if p < i {
        assert(entries[p].0 != key);
    }
    if i < p {
        assert(entries[i].0 != key);
    }
}

proof fn lemma_first_before(entries: Entries, key: Seq<char>, k: int)
    requires
        0 <= k < entries.len(),
        entries[k].0 == key,
    ensures
        exists|i: int| is_first_with_key(entries, key, i),
    decreases k,
{
    if exists|j: int| 0 <= j < k && (#[trigger] entries[j]).0 == key {
        let j = choose|j: int| 0 <= j < k && (#[trigger] entries[j]).0 == key;
        lemma_first_before(entries, key, j);
    } else {
        assert(is_first_with_key(entries, key, k));
    }
}

/// Where some entry has the name, `position_of` names the first that has.
pub proof fn lemma_position_of_is_first(entries: Entries, key: Seq<char>)
    requires
        has_key(entries, key),
    ensures
        is_first_with_key(entries, key, position_of(entries, key)),
{
    let k = choose|i: int| 0 <= i < entries.len() && (#[trigger] entries[i]).0 == key;
    lemma_first_before(entries, key, k);
}

/// Putting a value under a name leaves every name single.
pub proof fn lemma_with_entry_keeps_distinct(
    entries: Entries,
    key: Seq<char>,
    value: JsonValue,
)
    requires
        distinct_keys(entries),
    ensures
        distinct_keys(with_entry(entries, key, value)),
{
    let after = with_entry(entries, key, value);
    if has_key(entries, key) {
        let p = position_of(entries, key);
        lemma_position_of_is_first(entries, key);
        assert forall|i: int, j: int| 0 <= i < j < after.len() implies (#[trigger] after[i]).0 != (
        #[trigger] after[j]).0 by {
            assert(after[i].0 == entries[i].0);
            assert(after[j].0 == entries[j].0);
        }
    } else {
        assert forall|i: int, j: int| 0 <= i < j < after.len() implies (#[trigger] after[i]).0 != (
        #[trigger] after[j]).0 by {
            assert(after[i] == entries[i]);
            if j < entries.len() {
                assert(after[j] == entries[j]);
            }
        }
    }
}

/// The entries of the object that is made by putting `pairs` into an empty
/// object, one after the other.
pub open spec fn object_of(pairs: Entries) -> Entries
    decreases pairs.len(),
{
    if pairs.len() == 0 {
        Seq::empty()
    } else {
        with_entry(object_of(pairs.drop_last()), pairs.last().0, pairs.last().1)
    }
}

/// One more pair is put after the others.
pub proof fn lemma_object_of_push(
    pairs: Entries,
    key: Seq<char>,
    value: JsonValue,
)
    ensures
        object_of(pairs.push((key, value))) == with_entry(object_of(pairs), key, value),
{
    assert(pairs.push((key, value)).drop_last() =~= pairs);
}

/// Pairs of which no two have the same name make the object that holds
/// exactly these pairs, in their order.
pub proof fn lemma_object_of_distinct(pairs: Entries)
    requires
        distinct_keys(pairs),
    ensures
        object_of(pairs) == pairs,
    decreases pairs.len(),
{
    if pairs.len() == 0 {
        assert(pairs =~= Entries::empty());
    } else {
        let front = pairs.drop_last();
        assert(distinct_keys(front)) by {
            assert forall|i: int, j: int| 0 <= i < j < front.len() implies (#[trigger] front[i]).0
                != (#[trigger] front[j]).0 by {
                assert(front[i] == pairs[i] && front[j] == pairs[j]);
            }
        }
        lemma_object_of_distinct(front);
        if has_key(front, pairs.last().0) {
            let i = choose|i: int| 0 <= i < front.len() && (#[trigger] front[i]).0 == pairs.last().0;
            assert(front[i] == pairs[i]);
            assert(pairs[i].0 != pairs[pairs.len() - 1].0);
        }
        assert(front.push(pairs.last()) =~= pairs);
    }
}

/// A value that was put under a name is found under it.
pub proof fn lemma_lookup_after_put(
    entries: Entries,
    key: Seq<char>,
    value: JsonValue,
)
    ensures
        has_key(with_entry(entries, key, value), key),
        lookup(with_entry(entries, key, value), key) == Some(value),
        has_key(entries, key) ==> position_of(with_entry(entries, key, value), key) == position_of(
            entries,
            key,
        ),
        with_entry(entries, key, value).len() == if has_key(entries, key) {
            entries.len()
        } else {
            entries.len() + 1
        },
{
    let after = with_entry(entries, key, value);
    if has_key(entries, key) {
        lemma_position_of_is_first(entries, key);
        let p = position_of(entries, key);
        assert forall|j: int| 0 <= j < p implies (#[trigger] after[j]).0 != key by {
            assert(after[j] == entries[j]);
        }
        lemma_position_of(after, key, p);
    } else {
        assert forall|j: int| 0 <= j < entries.len() implies (#[trigger] after[j]).0 != key by {
            assert(after[j] == entries[j]);
        }
        lemma_position_of(after, key, entries.len() as int);
    }
}

/// Putting a value under one name changes nothing under another name.
pub proof fn lemma_lookup_after_put_elsewhere(
    entries: Entries,
    key: Seq<char>,
    value: JsonValue,
    other: Seq<char>,
)
    requires
        other != key,
    ensures
        has_key(with_entry(entries, key, value), other) == has_key(entries, other),
        lookup(with_entry(entries, key, value), other) == lookup(entries, other),
        has_key(entries, other) ==> position_of(with_entry(entries, key, value), other)
            == position_of(entries, other),
{
    let after = with_entry(entries, key, value);
    if has_key(entries, key) {
        lemma_position_of_is_first(entries, key);
    }
    if has_key(entries, other) {
        lemma_position_of_is_first(entries, other);
        let q = position_of(entries, other);
        assert(after[q] == entries[q]);
        assert forall|j: int| 0 <= j < q implies (#[trigger] after[j]).0 != other by {
            assert(after[j].0 == entries[j].0 || after[j].0 == key);
        }
        lemma_position_of(after, other, q);
    } else {
        if has_key(after, other) {
            let i = choose|i: int| 0 <= i < after.len() && (#[trigger] after[i]).0 == other;
            assert(i < entries.len());
            assert(entries[i].0 == other);
        }
    }
}

/// Putting a second value under a name leaves only the second.
pub proof fn lemma_put_twice(
    entries: Entries,
    key: Seq<char>,
    first: JsonValue,
    second: JsonValue,
)
    ensures
        with_entry(with_entry(entries, key, first), key, second) == with_entry(
            entries,
            key,
            second,
        ),
{
    lemma_lookup_after_put(entries, key, first);
    let mid = with_entry(entries, key, first);
    if has_key(entries, key) {
        lemma_position_of_is_first(entries, key);
        assert(mid.update(position_of(entries, key), (key, second)) =~= with_entry(
            entries,
            key,
            second,
        ));
    } else {
        let p = position_of(mid, key);
        lemma_position_of_is_first(mid, key);
        assert(p == entries.len()) by {
            if p < entries.len() {
                assert(mid[p] == entries[p]);
            }
        }
        assert(mid.update(p, (key, second)) =~= with_entry(entries, key, second));
    }
}

impl JsonObject {
    #[verifier::type_invariant]
    spec fn names_are_distinct(&self) -> bool {
        distinct_keys(object_entries(*self))
    }

    /// An object without entries.
    pub fn new() -> (o: JsonObject)
        ensures
            o@ == Entries::empty(),
    {
        let o = JsonObject { entries: Vec::new() };
        assert(o@ =~= Entries::empty());
        o
    }

    /// The number of entries. No two of them have the same name.
    pub fn len(&self) -> (n: usize)
        ensures
            n == self@.len(),
            distinct_keys(self@),
    {
        proof {
            use_type_invariant(self);
        }
        self.entries.len()
    }

    /// Whether the object has no entries.
    pub fn is_empty(&self) -> (b: bool)
        ensures
            b == (self@.len() == 0),
    {
        self.entries.len() == 0
    }

    /// The name of the entry at place `i`.
    pub fn key(&self, i: usize) -> (k: &String)
        requires
            i < self@.len(),
        ensures
            k@ == self@[i as int].0,
    {
        &self.entries[i].0
    }

    /// The value of the entry at place `i`.
    pub fn value(&self, i: usize) -> (v: &Json)
        requires
            i < self@.len(),
        ensures
            v@ == self@[i as int].1,
    {
        &self.entries[i].1
    }

    /// The place of the entry with the name `key`, where there is one.
    pub fn position(&self, key: &str) -> (r: Option<usize>)
        ensures
            r is Some <==> has_key(self@, key@),
            r is Some ==> r->0 == position_of(self@, key@) && r->0 < self@.len(),
    {
        let mut i: usize = 0;
        while i < self.entries.len()
            invariant
                i <= self.entries.len(),
                forall|j: int| 0 <= j < i ==> (#[trigger] self@[j]).0 != key@,
            decreases self.entries.len() - i,
        {
            if same_text(self.entries[i].0.as_str(), key) {
                proof {
                    lemma_position_of(self@, key@, i as int);
                }
                return Some(i);
            }
            i += 1;
        }
        None
    }

    /// The value under the name `key`, where there is one.
    pub fn get(&self, key: &str) -> (r: Option<&Json>)
        ensures
            r is Some <==> has_key(self@, key@),
            r is Some ==> Some(r->0@) == lookup(self@, key@),
    {
        match self.position(key) {
            Some(i) => Some(&self.entries[i].1),
            None => None,
        }
    }

    /// Puts `value` under the name `key` and hands back the value that the
    /// name had before, if it had one.
    pub fn insert(&mut self, key: String, value: Json) -> (previous: Option<Json>)
        ensures
            final(self)@ == with_entry(old(self)@, key@, value@),
            previous is Some <==> has_key(old(self)@, key@),
            previous is Some ==> Some(previous->0@) == lookup(old(self)@, key@),
    {
        proof {
            use_type_invariant(&*self);
        }
        let ghost before = self@;
        let place = self.position(key.as_str());
        let mut taken = JsonObject::new();
        core::mem::swap(self, &mut taken);
        let mut entries = taken.entries;
        assert(entries_view(entries@) =~= before);
        let previous = match place {
            Some(i) => {
                entries.push((key, value));
                let replaced = entries.swap_remove(i);
                Some(replaced.1)
            },
            None => {
                entries.push((key, value));
                None
            },
        };
        proof {
            lemma_with_entry_keeps_distinct(before, key@, value@);
            assert(entries_view(entries@) =~= with_entry(before, key@, value@));
            assert(object_entries(JsonObject { entries }) =~= entries_view(entries@));
        }
        let after = JsonObject { entries };
        assert(after@ =~= with_entry(before, key@, value@));
        *self = after;
        previous
    }
}

/// An array holds what its items hold, in order.
pub proof fn lemma_array_view(items: Vec<Json>)
    ensures
        Json::Array(items)@ == JsonValue::Array(items_view(items@)),
{
    assert(Json::Array(items)@->Array_0 =~= items_view(items@));
}

/// A second value that holds what `j` holds.
fn copy_json(j: &Json) -> (c: Json)
    ensures
        c@ == j@,
    decreases j,
{
    match j {
        Json::Null => Json::Null,
        Json::Bool(b) => Json::Bool(*b),
        Json::Number(n) => Json::Number(*n),
        Json::Text(s) => Json::Text(s.clone()),
        Json::Array(items) => {
            let copies = copy_items(items);
            proof {
                lemma_array_view(*items);
                lemma_array_view(copies);
            }
            Json::Array(copies)
        },
        Json::Object(o) => Json::Object(copy_object(o)),
    }
}

/// A second list of values that hold what those of `items` hold.
fn copy_items(items: &Vec<Json>) -> (out: Vec<Json>)
    ensures
        items_view(out@) == items_view(items@),
    decreases items,
{
    let mut out: Vec<Json> = Vec::new();
    let mut i: usize = 0;
    while i < items.len()
        invariant
            i <= items.len(),
            out@.len() == i,
            forall|k: int| 0 <= k < i ==> (#[trigger] out@[k])@ == items@[k]@,
        decreases items.len() - i,
    {
        out.push(copy_json(&items[i]));
        i += 1;
    }
    assert(items_view(out@) =~= items_view(items@));
    out
}

/// A second object that holds what `o` holds.
fn copy_object(o: &JsonObject) -> (c: JsonObject)
    ensures
        c@ == o@,
    decreases o,
{
    proof {
        use_type_invariant(o);
    }
    let mut entries: Vec<(String, Json)> = Vec::new();
    let mut i: usize = 0;
    while i < o.entries.len()
        invariant
            i <= o.entries.len(),
            entries@.len() == i,
            forall|k: int|
                0 <= k < i ==> (#[trigger] entries@[k]).0@ == o.entries@[k].0@ && entries@[k].1@
                    == o.entries@[k].1@,
        decreases o.entries.len() - i,
    {
        let entry = &o.entries[i];
        entries.push((entry.0.clone(), copy_json(&entry.1)));
        i += 1;
    }
    proof {
        assert(object_entries(JsonObject { entries }) =~= object_entries(*o));
    }
    JsonObject { entries }
}

impl Clone for Json {
    fn clone(&self) -> (c: Json)
        ensures
            c@ == self@,
    {
        copy_json(self)
    }
}

impl Clone for JsonObject {
    fn clone(&self) -> (c: JsonObject)
        ensures
            c@ == self@,
    {
        copy_object(self)
    }
}

/// Whether the number is greater than `cap`.
pub open spec fn number_exceeds(n: JsonNumber, cap: u64) -> bool {
    match n {
        JsonNumber::Unsigned(v) => v > cap,
        JsonNumber::Negative(v) => v > cap,
        JsonNumber::Real { bits } => real_exceeds(bits, cap),
    }
}

impl JsonNumber {
    /// Whether the number is greater than `cap`.
    pub fn exceeds(&self, cap: u64) -> (r: bool)
        ensures
            r == number_exceeds(*self, cap),
    {
        match self {
            JsonNumber::Unsigned(v) => *v > cap,
            JsonNumber::Negative(v) => *v > 0 && *v as u64 > cap,
            JsonNumber::Real { bits } => real_is_over(*bits, cap),
        }
    }

    /// The number as an unsigned whole number, where it is held as a whole
    /// number and is not below zero.
    pub fn as_u64(&self) -> (r: Option<u64>)
        ensures
            r == unsigned_of(JsonValue::Number(*self)),
    {
        match self {
            JsonNumber::Unsigned(n) => Some(*n),
            JsonNumber::Negative(n) => if *n >= 0 {
                Some(*n as u64)
            } else {
                None
            },
            JsonNumber::Real { .. } => None,
        }
    }
}

/// The unsigned whole number that a value holds, where it is a number held
/// as a whole number and not below zero.
pub open spec fn unsigned_of(v: JsonValue) -> Option<u64> {
    match v {
        JsonValue::Number(JsonNumber::Unsigned(n)) => Some(n),
        JsonValue::Number(JsonNumber::Negative(n)) => if n >= 0 {
            Some(n as u64)
        } else {
            None
        },
        _ => None,
    }
}

/// Each text as a JSON text, in order.
pub open spec fn texts(fields: Seq<Seq<char>>) -> Seq<JsonValue> {
    Seq::new(fields.len(), |i: int| JsonValue::Text(fields[i]))
}

/// What each string of a list holds, in order.
pub open spec fn strings_view(strings: Seq<String>) -> Seq<Seq<char>> {
    Seq::new(strings.len(), |i: int| strings[i]@)
}

impl Json {
    /// The value as an unsigned whole number, where it is a number held as
    /// a whole number and not below zero.
    pub fn as_u64(&self) -> (r: Option<u64>)
        ensures
            r == unsigned_of(self@),
    {
        match self {
            Json::Number(n) => n.as_u64(),
            _ => None,
        }
    }

    /// The JSON text that holds `s`.
    pub fn text(s: &str) -> (j: Json)
        ensures
            j@ == JsonValue::Text(s@),
    {
        Json::Text(String::from_str(s))
    }

    /// The JSON number `n`.
    pub fn unsigned(n: u64) -> (j: Json)
        ensures
            j@ == JsonValue::Number(JsonNumber::Unsigned(n)),
    {
        Json::Number(JsonNumber::Unsigned(n))
    }

    /// The JSON number `n`.
    pub fn signed(n: i64) -> (j: Json)
        ensures
            j@ == signed_value(n),
    {
        if n < 0 {
            Json::Number(JsonNumber::Negative(n))
        } else {
            Json::Number(JsonNumber::Unsigned(n as u64))
        }
    }

    /// The JSON array of the texts that `strings` holds.
    pub fn texts(strings: &Vec<String>) -> (j: Json)
        ensures
            j@ == JsonValue::Array(texts(strings_view(strings@))),
    {
        let mut items: Vec<Json> = Vec::new();
        let mut i: usize = 0;
        while i < strings.len()
            invariant
                i <= strings.len(),
                items@.len() == i,
                forall|k: int| 0 <= k < i ==> (#[trigger] items@[k])@ == JsonValue::Text(strings@[k]@),
            decreases strings.len() - i,
        {
            items.push(Json::Text(strings[i].clone()));
            i += 1;
        }
        assert(items_view(items@) =~= texts(strings_view(strings@)));
        Json::array(items)
    }

    /// The JSON array of `items`.
    pub fn array(items: Vec<Json>) -> (j: Json)
        ensures
            j@ == JsonValue::Array(items_view(items@)),
    {
        proof {
            lemma_array_view(items);
        }
        Json::Array(items)
    }
}

/// The pair of `key` and the value, where there is a value; nothing
/// otherwise.
pub open spec fn optional_pair(key: Seq<char>, value: Option<Json>) -> Entries {
    match value {
        Some(v) => seq![(key, v@)],
        None => seq![],
    }
}

/// The JSON number that a signed whole number becomes.
pub open spec fn signed_value(n: i64) -> JsonValue {
    if n < 0 {
        JsonValue::Number(JsonNumber::Negative(n))
    } else {
        JsonValue::Number(JsonNumber::Unsigned(n as u64))
    }
}

/// An object that is being filled, with the pairs that were put so far.
pub(crate) struct ObjectBuilder {
    object: JsonObject,
    pairs: Ghost<Entries>,
}

impl ObjectBuilder {
    /// The pairs that were put so far, in order.
    pub(crate) closed spec fn pairs(&self) -> Entries {
        self.pairs@
    }

    /// The object holds what putting the pairs gives.
    pub(crate) closed spec fn wf(&self) -> bool {
        self.object@ == object_of(self.pairs@)
    }

    pub(crate) fn new() -> (b: ObjectBuilder)
        ensures
            b.wf(),
            b.pairs() == Entries::empty(),
    {
        ObjectBuilder { object: JsonObject::new(), pairs: Ghost(Seq::empty()) }
    }

    /// Puts `value` under the name `key`.
    pub(crate) fn put(&mut self, key: &str, value: Json)
        requires
            old(self).wf(),
        ensures
            final(self).wf(),
            final(self).pairs() == old(self).pairs().push((key@, value@)),
    {
        proof {
            lemma_object_of_push(self.pairs@, key@, value@);
        }
        self.object.insert(String::from_str(key), value);
        self.pairs = Ghost(self.pairs@.push((key@, value@)));
    }

    /// Puts a copy of each entry of `entries`, in order.
    pub(crate) fn put_all(&mut self, entries: &JsonObject)
        requires
            old(self).wf(),
        ensures
            final(self).wf(),
            final(self).pairs() == old(self).pairs() + entries@,
    {
        let ghost before = self.pairs();
        let n: usize = entries.len();
        let mut i: usize = 0;
        while i < n
            invariant
                i <= n,
                n == entries@.len(),
                self.wf(),
                self.pairs() == before + entries@.subrange(0, i as int),
            decreases n - i,
        {
            self.put(entries.key(i).as_str(), entries.value(i).clone());
            assert(entries@.subrange(0, i + 1) =~= entries@.subrange(0, i as int).push(
                entries@[i as int],
            ));
            i += 1;
        }
        assert(entries@.subrange(0, n as int) =~= entries@);
    }

    /// Puts `value` under the name `key` where there is a value.
    pub(crate) fn put_some(&mut self, key: &str, value: &Option<Json>)
        requires
            old(self).wf(),
        ensures
            final(self).wf(),
            final(self).pairs() == old(self).pairs() + optional_pair(key@, *value),
    {
        match value {
            Some(v) => {
                self.put(key, v.clone());
            },
            None => {},
        }
    }

    /// The finished object.
    pub(crate) fn finish(self) -> (o: JsonObject)
        requires
            self.wf(),
        ensures
            o@ == object_of(self.pairs()),
    {
        self.object
    }
}

} // verus!
