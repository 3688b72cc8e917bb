//! Index templates: which of them apply to an index name, and in which
//! order of priority.

use vstd::prelude::*;
use crate::json::{
    object_of, optional_pair, signed_value, strings_view, texts, Entries, Json, JsonValue,
    ObjectBuilder,
};
use crate::named::{distinct_names, NameMap};
use crate::pattern::{matches_pattern, pattern_matches};

verus! {

/// One index template as the backend describes it.
#[derive(Clone, Debug, PartialEq)]
pub struct TemplateDefinition {
    /// Index patterns that this template applies to.
    pub index_patterns: Vec<String>,
    /// Priority of the template: the higher, the earlier it applies.
    pub order: Option<i32>,
    /// Index settings.
    pub settings: Option<Json>,
    /// Index mappings.
    pub mappings: Option<Json>,
    /// Index aliases.
    pub aliases: Option<Json>,
    /// Template version.
    pub version: Option<i64>,
}

/// The priority of a template; one that declares none has priority 0.
pub open spec fn priority(t: TemplateDefinition) -> int {
    match t.order {
        Some(o) => o as int,
        None => 0,
    }
}

/// Whether a template applies to an index name: one of its patterns
/// matches the name.
pub open spec fn applies_to(t: TemplateDefinition, index_name: Seq<char>) -> bool {
    exists|k: int|
        0 <= k < t.index_patterns@.len() && pattern_matches(
            (#[trigger] t.index_patterns@[k])@,
            index_name,
        )
}

/// Whether the template at place `a` comes before the one at place `b`:
/// it has the higher priority, or the same priority and the earlier place.
pub open spec fn ranks_before(templates: Seq<(String, TemplateDefinition)>, a: int, b: int) -> bool {
    priority(templates[a].1) > priority(templates[b].1) || (priority(templates[a].1) == priority(
        templates[b].1,
    ) && a < b)
}

/// Whether `order` lists the places of exactly those templates that apply
/// to `index_name`, each before all that it ranks before.
pub open spec fn is_resolution(
    templates: Seq<(String, TemplateDefinition)>,
    index_name: Seq<char>,
    order: Seq<int>,
) -> bool {
    &&& forall|k: int|
        0 <= k < order.len() ==> 0 <= #[trigger] order[k] < templates.len() && applies_to(
            templates[order[k]].1,
            index_name,
        )
    &&& forall|i: int|
        0 <= i < templates.len() && applies_to((#[trigger] templates[i]).1, index_name)
            ==> order.contains(i)
    &&& forall|a: int, b: int|
        0 <= a < b < order.len() ==> ranks_before(templates, #[trigger] order[a], #[trigger] order[b])
}

/// The places of the templates that apply to `index_name`, highest
/// priority first, templates of one priority in the order of their places.
pub open spec fn resolution_order(
    templates: Seq<(String, TemplateDefinition)>,
    index_name: Seq<char>,
) -> Seq<int> {
    choose|order: Seq<int>| is_resolution(templates, index_name, order)
}

impl TemplateDefinition {
    /// The template as a JSON value: an object with the names
    /// `index_patterns` and `order`, followed by `settings`, `mappings`,
    /// `aliases` and `version` as far as the template has them. A template
    /// without a declared priority has `null` under `order`.
    pub open spec fn as_value(self) -> JsonValue {
        JsonValue::Object(
            object_of(
                seq![
                    ("index_patterns"@, JsonValue::Array(texts(strings_view(self.index_patterns@)))),
                    (
                        "order"@,
                        match self.order {
                            Some(o) => signed_value(o as i64),
                            None => JsonValue::Null,
                        },
                    ),
                ] + optional_pair("settings"@, self.settings) + optional_pair(
                    "mappings"@,
                    self.mappings,
                ) + optional_pair("aliases"@, self.aliases) + match self.version {
                    Some(v) => seq![("version"@, signed_value(v))],
                    None => seq![],
                },
            ),
        )
    }

    /// The template as a JSON object.
    pub fn to_json(&self) -> (j: Json)
        ensures
            j@ == self.as_value(),
    {
        let mut b = ObjectBuilder::new();
        b.put("index_patterns", Json::texts(&self.index_patterns));
        b.put(
            "order",
            match self.order {
                Some(o) => Json::signed(o as i64),
                None => Json::Null,
            },
        );
        assert(b.pairs() =~= seq![
            ("index_patterns"@, JsonValue::Array(texts(strings_view(self.index_patterns@)))),
            (
                "order"@,
                match self.order {
                    Some(o) => signed_value(o as i64),
                    None => JsonValue::Null,
                },
            ),
        ]);
        b.put_some("settings", &self.settings);
        b.put_some("mappings", &self.mappings);
        b.put_some("aliases", &self.aliases);
        let ghost before = b.pairs();
        match self.version {
            Some(v) => {
                b.put("version", Json::signed(v));
                assert(b.pairs() =~= before + seq![("version"@, signed_value(v))]);
            },
            None => {
                assert(b.pairs() =~= before + Entries::empty());
            },
        }
        Json::Object(b.finish())
    }

    /// The priority of the template.
    pub fn priority(&self) -> (p: i32)
        ensures
            p == priority(*self),
    {
        match self.order {
            Some(o) => o,
            None => 0,
        }
    }

    /// Whether one of the template's patterns matches `index_name`.
    pub fn applies_to(&self, index_name: &str) -> (r: bool)
        ensures
            r == applies_to(*self, index_name@),
    {
        let mut k: usize = 0;
        while k < self.index_patterns.len()
            invariant
                k <= self.index_patterns.len(),
                forall|j: int|
                    0 <= j < k ==> !pattern_matches((#[trigger] self.index_patterns@[j])@, index_name@),
            decreases self.index_patterns.len() - k,
        {
            if matches_pattern(index_name, self.index_patterns[k].as_str()) {
                return true;
            }
            k += 1;
        }
        false
    }
}

/// Whether each entry of `order` ranks before all that follow it.
pub open spec fn is_ranked(templates: Seq<(String, TemplateDefinition)>, order: Seq<int>) -> bool {
    forall|a: int, b: int|
        0 <= a < b < order.len() ==> ranks_before(templates, #[trigger] order[a], #[trigger] order[b])
}

/// Two ranked lists of the same places are the same list.
pub proof fn lemma_ranked_lists_agree(
    templates: Seq<(String, TemplateDefinition)>,
    first: Seq<int>,
    second: Seq<int>,
)
    requires
        is_ranked(templates, first),
        is_ranked(templates, second),
        forall|x: int| first.contains(x) <==> second.contains(x),
    ensures
        first == second,
    decreases first.len(),
{
    if first.len() == 0 {
        if second.len() > 0 {
            assert(second.contains(second[0]));
        }
        assert(first =~= second);
    } else {
        let x = first.last();
        assert(first.contains(x));
        let j = choose|j: int| 0 <= j < second.len() && second[j] == x;
        if j + 1 < second.len() {
            let y = second[j + 1];
            assert(second.contains(y));
            let i = choose|i: int| 0 <= i < first.len() && first[i] == y;
            assert(ranks_before(templates, x, y));
            if i < first.len() - 1 {
                assert(ranks_before(templates, first[i], first[first.len() - 1]));
            }
        }
        let shorter_first = first.drop_last();
        let shorter_second = second.drop_last();
        assert forall|z: int| shorter_first.contains(z) <==> shorter_second.contains(z) by {
            if shorter_first.contains(z) {
                let i = choose|i: int| 0 <= i < shorter_first.len() && shorter_first[i] == z;
                assert(ranks_before(templates, first[i], first[first.len() - 1]));
                assert(first.contains(z));
                let m = choose|m: int| 0 <= m < second.len() && second[m] == z;
                assert(shorter_second[m] == z);
            }
            if shorter_second.contains(z) {
                let m = choose|m: int| 0 <= m < shorter_second.len() && shorter_second[m] == z;
                assert(ranks_before(templates, second[m], second[second.len() - 1]));
                assert(second.contains(z));
                let i = choose|i: int| 0 <= i < first.len() && first[i] == z;
                assert(shorter_first[i] == z);
            }
        }
        lemma_ranked_lists_agree(templates, shorter_first, shorter_second);
        assert(first =~= shorter_first.push(x));
        assert(second =~= shorter_second.push(x));
    }
}

/// In a resolution priorities never rise, and templates of one priority
/// keep the order in which they were given.
pub proof fn lemma_resolution_is_descending_and_stable(
    templates: Seq<(String, TemplateDefinition)>,
    index_name: Seq<char>,
    order: Seq<int>,
    a: int,
    b: int,
)
    requires
        is_resolution(templates, index_name, order),
        0 <= a < b < order.len(),
    ensures
        priority(templates[order[a]].1) >= priority(templates[order[b]].1),
        priority(templates[order[a]].1) == priority(templates[order[b]].1) ==> order[a]
            < order[b],
{
    assert(ranks_before(templates, order[a], order[b]));
}

/// There is one resolution at most: two lists that both resolve the same
/// templates for the same name are the same list.
pub proof fn lemma_resolution_is_unique(
    templates: Seq<(String, TemplateDefinition)>,
    index_name: Seq<char>,
    first: Seq<int>,
    second: Seq<int>,
)
    requires
        is_resolution(templates, index_name, first),
        is_resolution(templates, index_name, second),
    ensures
        first == second,
{
    assert forall|x: int| first.contains(x) implies second.contains(x) by {
        let k = choose|k: int| 0 <= k < first.len() && first[k] == x;
        assert(applies_to(templates[first[k]].1, index_name));
    }
    assert forall|x: int| second.contains(x) implies first.contains(x) by {
        let k = choose|k: int| 0 <= k < second.len() && second[k] == x;
        assert(applies_to(templates[second[k]].1, index_name));
    }
    lemma_ranked_lists_agree(templates, first, second);
}

/// The places that a list of machine integers names.
pub open spec fn as_places(order: Seq<usize>) -> Seq<int> {
    Seq::new(order.len(), |k: int| order[k] as int)
}

/// Whether `order` resolves the first `n` of the templates.
spec fn resolves_first(
    templates: Seq<(String, TemplateDefinition)>,
    index_name: Seq<char>,
    order: Seq<int>,
    n: int,
) -> bool {
    &&& forall|k: int|
        0 <= k < order.len() ==> 0 <= #[trigger] order[k] < n && applies_to(
            templates[order[k]].1,
            index_name,
        )
    &&& forall|i: int|
        0 <= i < n && applies_to((#[trigger] templates[i]).1, index_name) ==> order.contains(i)
    &&& is_ranked(templates, order)
}

/// A template that applies, put after all that rank no lower and before
/// the first that ranks lower, leaves the list a resolution of one template
/// more.
proof fn lemma_insert_keeps_resolution(
    templates: Seq<(String, TemplateDefinition)>,
    index_name: Seq<char>,
    before: Seq<int>,
    i: int,
    p: int,
)
    requires
        0 <= i < templates.len(),
        resolves_first(templates, index_name, before, i),
        applies_to(templates[i].1, index_name),
        0 <= p <= before.len(),
        forall|q: int|
            0 <= q < p ==> priority(templates[#[trigger] before[q]].1) >= priority(templates[i].1),
        p < before.len() ==> priority(templates[before[p]].1) < priority(templates[i].1),
    ensures
        resolves_first(templates, index_name, before.insert(p, i), i + 1),
{
    let after = before.insert(p, i);
    assert forall|a: int, b: int| 0 <= a < b < after.len() implies ranks_before(
        templates,
        #[trigger] after[a],
        #[trigger] after[b],
    ) by {
        if b < p {
            assert(after[a] == before[a] && after[b] == before[b]);
        } else if b == p {
            assert(after[a] == before[a]);
        } else if a < p {
            assert(after[a] == before[a] && after[b] == before[b - 1]);
        } else if a == p {
            assert(after[b] == before[b - 1]);
            if b - 1 > p {
                assert(ranks_before(templates, before[p], before[b - 1]));
            }
        } else {
            assert(after[a] == before[a - 1] && after[b] == before[b - 1]);
        }
    }
    assert forall|j: int|
        0 <= j < i + 1 && applies_to((#[trigger] templates[j]).1, index_name) implies after.contains(
        j,
    ) by {
        if j < i {
            assert(before.contains(j));
            let k = choose|k: int| 0 <= k < before.len() && before[k] == j;
            if k < p {
                assert(after[k] == j);
            } else {
                assert(after[k + 1] == j);
            }
        } else {
            assert(after[p] == j);
        }
    }
    assert forall|k: int| 0 <= k < after.len() implies 0 <= #[trigger] after[k] < i + 1
        && applies_to(templates[after[k]].1, index_name) by {
        if k < p {
            assert(after[k] == before[k]);
        } else if k > p {
            assert(after[k] == before[k - 1]);
        }
    }
}

/// The place in a list after all entries that rank no lower than `rank`,
/// looked for from `from` on.
proof fn lemma_place_in_ranking(
    templates: Seq<(String, TemplateDefinition)>,
    order: Seq<int>,
    rank: int,
    from: int,
) -> (p: int)
    requires
        0 <= from <= order.len(),
        forall|q: int| 0 <= q < from ==> priority(templates[#[trigger] order[q]].1) >= rank,
    ensures
        from <= p <= order.len(),
        forall|q: int| 0 <= q < p ==> priority(templates[#[trigger] order[q]].1) >= rank,
        p < order.len() ==> priority(templates[order[p]].1) < rank,
    decreases order.len() - from,
{
    if from < order.len() && priority(templates[order[from]].1) >= rank {
        lemma_place_in_ranking(templates, order, rank, from + 1)
    } else {
        from
    }
}

/// A list that resolves the first `n` of the templates.
proof fn lemma_first_are_resolved(
    templates: Seq<(String, TemplateDefinition)>,
    index_name: Seq<char>,
    n: int,
) -> (order: Seq<int>)
    requires
        0 <= n <= templates.len(),
    ensures
        resolves_first(templates, index_name, order, n),
    decreases n,
{
    if n == 0 {
        Seq::empty()
    } else {
        let before = lemma_first_are_resolved(templates, index_name, n - 1);
        if applies_to(templates[n - 1].1, index_name) {
            let p = lemma_place_in_ranking(templates, before, priority(templates[n - 1].1), 0);
            lemma_insert_keeps_resolution(templates, index_name, before, n - 1, p);
            before.insert(p, n - 1)
        } else {
            before
        }
    }
}

/// Every list of templates has a resolution for every index name, and
/// `resolution_order` is that resolution.
pub proof fn lemma_resolution_exists(
    templates: Seq<(String, TemplateDefinition)>,
    index_name: Seq<char>,
)
    ensures
        is_resolution(templates, index_name, resolution_order(templates, index_name)),
{
    let order = lemma_first_are_resolved(templates, index_name, templates.len() as int);
    assert(is_resolution(templates, index_name, order));
}

/// The places of the templates that apply to `index_name`, in their order
/// of priority.
fn resolve_places(templates: &NameMap<TemplateDefinition>, index_name: &str) -> (order: Vec<
    usize,
>)
    ensures
        distinct_names(templates@),
        is_resolution(templates@, index_name@, as_places(order@)),
{
    let total: usize = templates.len();
    let mut order: Vec<usize> = Vec::new();
    let mut i: usize = 0;
    while i < total
        invariant
            i <= total,
            total == templates@.len(),
            resolves_first(templates@, index_name@, as_places(order@), i as int),
        decreases total - i,
    {
        let ghost before = as_places(order@);
        if templates.item(i).applies_to(index_name) {
            let rank = templates.item(i).priority();
            let mut p: usize = 0;
            assert forall|q: int| 0 <= q < order@.len() implies (#[trigger] order@[q])
                < templates@.len() by {
                assert(before[q] == order@[q]);
            }
            while p < order.len() && templates.item(order[p]).priority() >= rank
                invariant
                    p <= order.len(),
                    forall|q: int| 0 <= q < order@.len() ==> (#[trigger] order@[q]) < templates@.len(),
                    i < templates@.len(),
                    rank == priority(templates@[i as int].1),
                    before == as_places(order@),
                    resolves_first(templates@, index_name@, before, i as int),
                    forall|q: int|
                        0 <= q < p ==> priority(templates@[#[trigger] before[q]].1) >= rank,
                decreases order.len() - p,
            {
                p += 1;
            }
            order.insert(p, i);
            proof {
                lemma_insert_keeps_resolution(
                    templates@,
                    index_name@,
                    before,
                    i as int,
                    p as int,
                );
                assert(as_places(order@) =~= before.insert(p as int, i as int));
            }
        }
        i += 1;
    }
    order
}

/// Finds the templates that apply to `index_name` and puts them in order:
/// highest priority first, templates of one priority as they stand in
/// `templates`. Each is handed out with its name, and no name is handed out
/// twice, since none occurs twice in `templates`.
pub fn find_matching_templates<'a>(
    templates: &'a NameMap<TemplateDefinition>,
    index_name: &str,
) -> (found: Vec<(&'a str, &'a TemplateDefinition)>)
    ensures
        distinct_names(templates@),
        is_resolution(templates@, index_name@, resolution_order(templates@, index_name@)),
        found@.len() == resolution_order(templates@, index_name@).len(),
        forall|k: int|
            0 <= k < found@.len() ==> {
                let place = resolution_order(templates@, index_name@)[k];
                &&& (#[trigger] found@[k]).0@ == templates@[place].0@
                &&& *found@[k].1 == templates@[place].1
            },
{
    let order = resolve_places(templates, index_name);
    proof {
        lemma_resolution_is_unique(
            templates@,
            index_name@,
            as_places(order@),
            resolution_order(templates@, index_name@),
        );
    }
    let mut found: Vec<(&'a str, &'a TemplateDefinition)> = Vec::new();
    let mut k: usize = 0;
    while k < order.len()
        invariant
            k <= order.len(),
            found@.len() == k,
            is_resolution(templates@, index_name@, as_places(order@)),
            forall|j: int|
                0 <= j < k ==> {
                    let place = as_places(order@)[j];
                    &&& (#[trigger] found@[j]).0@ == templates@[place].0@
                    &&& *found@[j].1 == templates@[place].1
                },
        decreases order.len() - k,
    {
        assert(0 <= as_places(order@)[k as int] < templates@.len());
        found.push((templates.name(order[k]).as_str(), templates.item(order[k])));
        k += 1;
    }
    found
}

} // verus!
