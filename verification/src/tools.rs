//! The tools: what each makes of the backend's answer.

use vstd::prelude::*;
use vstd::string::*;
use crate::content::{contents_view, Content, ContentValue, ToolError, ToolFailure};
use crate::json::{
    entries_view, items_view, lemma_object_of_distinct, object_of, Entries, Json, JsonValue,
    ObjectBuilder,
};
use crate::limits::{raw_view, SafetyLimits};
use crate::named::{distinct_names, NameMap};
use crate::aggregations::{aggregation_entries, aggregations_to_json, has_no_entries};
use crate::responses::{
    CatIndexResponse, CatShardsResponse, Column, EsqlQueryResponse, Hit, Mappings, SearchResult,
    TotalHits,
};
use crate::templates::{
    find_matching_templates, is_resolution, lemma_resolution_exists, ranks_before,
    resolution_order, TemplateDefinition,
};
use crate::text::{decimal, push_decimal};

verus! {

/// The tools of one operation, with the limits that the operation works
/// under.
#[derive(Clone, Copy, Debug, PartialEq, Eq, Structural)]
pub struct EsBaseTools {
    pub limits: SafetyLimits,
}

/// The summary of an index listing: how many indices were found and, where
/// there are more than `max_list`, how many of them are shown.
pub open spec fn listing_summary(total: nat, max_list: nat) -> Seq<char> {
    if total > max_list {
        "Found "@ + decimal(total) + " indices (showing first "@ + decimal(max_list)
            + ", use index_pattern to filter):"@
    } else {
        "Found "@ + decimal(total) + " indices:"@
    }
}

/// The rows of a listing that are shown: the first `max_list`, or all where
/// there are no more.
pub open spec fn shown_rows<T>(rows: Seq<T>, max_list: nat) -> Seq<T> {
    if rows.len() > max_list {
        rows.subrange(0, max_list as int)
    } else {
        rows
    }
}

/// A listing shows as many rows as it has or as the cap allows, whichever
/// is less, and the rows that it shows are its first.
pub proof fn lemma_shown_rows<T>(rows: Seq<T>, max_list: nat)
    ensures
        shown_rows(rows, max_list).len() == if rows.len() > max_list {
            max_list
        } else {
            rows.len()
        },
        shown_rows(rows, max_list) == rows.subrange(0, shown_rows(rows, max_list).len() as int),
{
    assert(rows.subrange(0, rows.len() as int) =~= rows);
}

/// The result of the detailed index listing: the summary, then the shown
/// rows as one array, to be cut to the response budget.
pub open spec fn detailed_listing(rows: Seq<Json>, limits: SafetyLimits) -> Seq<ContentValue> {
    seq![
        ContentValue::Text(listing_summary(rows.len(), limits.max_index_list as nat)),
        ContentValue::CappedJson {
            data: JsonValue::Array(items_view(shown_rows(rows, limits.max_index_list as nat))),
            max_chars: limits.max_response_chars,
        },
    ]
}

/// The JSON form of each row of the short index listing.
pub open spec fn index_rows_value(rows: Seq<CatIndexResponse>) -> Seq<JsonValue> {
    Seq::new(rows.len(), |i: int| rows[i].as_value())
}

/// The result of the short index listing: the summary, then the shown rows
/// as one array.
pub open spec fn short_listing(rows: Seq<CatIndexResponse>, limits: SafetyLimits) -> Seq<
    ContentValue,
> {
    seq![
        ContentValue::Text(listing_summary(rows.len(), limits.max_index_list as nat)),
        ContentValue::Json(
            JsonValue::Array(index_rows_value(shown_rows(rows, limits.max_index_list as nat))),
        ),
    ]
}

/// The JSON form of each row of the shard listing.
pub open spec fn shard_rows_value(rows: Seq<CatShardsResponse>) -> Seq<JsonValue> {
    Seq::new(rows.len(), |i: int| rows[i].as_value())
}

/// The result of the shard listing: the count, then the rows.
pub open spec fn shard_listing(rows: Seq<CatShardsResponse>) -> Seq<ContentValue> {
    seq![
        ContentValue::Text("Found "@ + decimal(rows.len()) + " shards:"@),
        ContentValue::Json(JsonValue::Array(shard_rows_value(rows))),
    ]
}

/// The result of the mapping lookup: the first of the mappings under a
/// heading that names the index, or a failure where there is none.
pub open spec fn mapping_result(index: Seq<char>, mappings: Seq<(String, Mappings)>) -> Result<
    Seq<ContentValue>,
    ToolFailure,
> {
    if mappings.len() == 0 {
        Err(ToolFailure::NoMappingFound)
    } else {
        Ok(
            seq![
                ContentValue::Text("Mappings for index "@ + index + ":"@),
                ContentValue::Json(mappings[0].1.as_value()),
            ],
        )
    }
}

/// The total that a search reports, in words.
pub open spec fn total_text(total: Option<TotalHits>) -> Seq<char> {
    match total {
        Some(t) => decimal(t.value as nat),
        None => "unknown"@,
    }
}

/// The count line of a search result. An answer with aggregations and
/// without documents has none.
pub open spec fn count_line(response: SearchResult) -> Seq<ContentValue> {
    if aggregation_entries(response.aggregations).len() == 0 || response.hits.hits@.len() > 0 {
        seq![
            ContentValue::Text(
                "Total results: "@ + total_text(response.hits.total) + ", showing "@ + decimal(
                    response.hits.hits@.len(),
                ) + "."@,
            ),
        ]
    } else {
        seq![]
    }
}

/// The source of each document, in order.
pub open spec fn sources_value(hits: Seq<Hit>) -> Seq<JsonValue> {
    Seq::new(hits.len(), |i: int| hits[i].source@)
}

/// The documents of a search result: one array of their sources, to be cut
/// to the response budget. An answer without documents has none.
pub open spec fn found_documents(response: SearchResult, max_chars: usize) -> Seq<ContentValue> {
    if response.hits.hits@.len() > 0 {
        seq![
            ContentValue::CappedJson {
                data: JsonValue::Array(sources_value(response.hits.hits@)),
                max_chars,
            },
        ]
    } else {
        seq![]
    }
}

/// The aggregations of a search result: a heading, then the aggregations
/// as one object, to be cut to the response budget. An answer without
/// aggregations has none.
pub open spec fn found_aggregations(response: SearchResult, max_chars: usize) -> Seq<
    ContentValue,
> {
    if aggregation_entries(response.aggregations).len() > 0 {
        seq![
            ContentValue::Text("Aggregations results:"@),
            ContentValue::CappedJson {
                data: JsonValue::Object(
                    object_of(entries_view(aggregation_entries(response.aggregations))),
                ),
                max_chars,
            },
        ]
    } else {
        seq![]
    }
}

/// The result of a search: the count line, the documents, the aggregations.
pub open spec fn search_parts(response: SearchResult, max_chars: usize) -> Seq<ContentValue> {
    count_line(response) + found_documents(response, max_chars) + found_aggregations(
        response,
        max_chars,
    )
}

/// An answer with aggregations and without documents gives the heading and
/// the aggregations, and nothing before them.
pub proof fn lemma_aggregations_alone(response: SearchResult, max_chars: usize)
    requires
        response.hits.hits@.len() == 0,
        aggregation_entries(response.aggregations).len() > 0,
    ensures
        search_parts(response, max_chars) == found_aggregations(response, max_chars),
        search_parts(response, max_chars).len() == 2,
        search_parts(response, max_chars)[0] == ContentValue::Text("Aggregations results:"@),
{
    assert(search_parts(response, max_chars) =~= found_aggregations(response, max_chars));
}

/// Whether a row of a structured query's answer has one value per column.
pub open spec fn row_fits(response: EsqlQueryResponse, row: int) -> bool {
    response.values@[row]@.len() == response.columns@.len()
}

/// Whether some row has not one value per column.
pub open spec fn has_bad_row(response: EsqlQueryResponse) -> bool {
    exists|row: int| 0 <= row < response.values@.len() && !#[trigger] row_fits(response, row)
}

/// Whether `row` is the first row that has not one value per column.
pub open spec fn is_first_bad_row(response: EsqlQueryResponse, row: int) -> bool {
    &&& 0 <= row < response.values@.len()
    &&& !row_fits(response, row)
    &&& forall|j: int| 0 <= j < row ==> #[trigger] row_fits(response, j)
}

/// The first row that has not one value per column, where there is one.
pub open spec fn first_bad_row(response: EsqlQueryResponse) -> int {
    choose|row: int| is_first_bad_row(response, row)
}

/// A row that does not fit, after rows that all fit, is the row that
/// `first_bad_row` names.
pub proof fn lemma_first_bad_row(response: EsqlQueryResponse, row: int)
    requires
        is_first_bad_row(response, row),
    ensures
        has_bad_row(response),
        first_bad_row(response) == row,
{
    let chosen = first_bad_row(response);
    assert(is_first_bad_row(response, chosen));
    if chosen < row {
        assert(row_fits(response, chosen));
    }
    if row < chosen {
        assert(row_fits(response, row));
    }
}

/// The values of one row under the names of their columns.
pub open spec fn record_pairs(columns: Seq<Column>, row: Seq<Json>) -> Entries {
    Seq::new(row.len(), |i: int| (columns[i].name@, row[i]@))
}

/// One record for each row, in row order.
pub open spec fn records(response: EsqlQueryResponse) -> Seq<JsonValue> {
    Seq::new(
        response.values@.len(),
        |row: int|
            JsonValue::Object(object_of(record_pairs(response.columns@, response.values@[row]@))),
    )
}

/// The result of a structured query: a heading and the records, to be cut
/// to `max_chars`, or the failure that names the first row that does not fit
/// the columns.
pub open spec fn esql_result(response: EsqlQueryResponse, max_chars: usize) -> Result<
    Seq<ContentValue>,
    ToolFailure,
> {
    if has_bad_row(response) {
        let row = first_bad_row(response);
        Err(
            ToolFailure::RowWidthMismatch {
                row: row as usize,
                expected: response.columns@.len() as usize,
                found: response.values@[row]@.len() as usize,
            },
        )
    } else {
        Ok(
            seq![
                ContentValue::Text("Results"@),
                ContentValue::CappedJson { data: JsonValue::Array(records(response)), max_chars },
            ],
        )
    }
}

/// Each template of an answer under its name, in the answer's order.
pub open spec fn named_templates(templates: Seq<(String, TemplateDefinition)>) -> Entries {
    Seq::new(templates.len(), |i: int| (templates[i].0@, templates[i].1.as_value()))
}

/// Each template that applies to `index_name` under its name, highest
/// priority first.
pub open spec fn matching_pairs(
    templates: Seq<(String, TemplateDefinition)>,
    index_name: Seq<char>,
) -> Entries {
    let order = resolution_order(templates, index_name);
    Seq::new(order.len(), |k: int| (templates[order[k]].0@, templates[order[k]].1.as_value()))
}

/// With no name twice among the templates of an answer, each is shown
/// under its own name, in the answer's order: the object has as many
/// entries as the summary counts.
pub proof fn lemma_all_templates_are_shown(templates: Seq<(String, TemplateDefinition)>)
    requires
        distinct_names(templates),
    ensures
        object_of(named_templates(templates)) == named_templates(templates),
        named_templates(templates).len() == templates.len(),
{
    let pairs = named_templates(templates);
    assert forall|i: int, j: int| 0 <= i < j < pairs.len() implies (#[trigger] pairs[i]).0 != (
    #[trigger] pairs[j]).0 by {
        assert(templates[i].0@ != templates[j].0@);
    }
    lemma_object_of_distinct(pairs);
}

/// With no name twice among the templates of an answer, each template that
/// applies to an index name is shown under its own name, highest priority
/// first: the object has as many entries as the summary counts.
pub proof fn lemma_matching_templates_are_shown(
    templates: Seq<(String, TemplateDefinition)>,
    index_name: Seq<char>,
)
    requires
        distinct_names(templates),
    ensures
        object_of(matching_pairs(templates, index_name)) == matching_pairs(templates, index_name),
        matching_pairs(templates, index_name).len() == resolution_order(
            templates,
            index_name,
        ).len(),
{
    lemma_resolution_exists(templates, index_name);
    let order = resolution_order(templates, index_name);
    let pairs = matching_pairs(templates, index_name);
    assert forall|a: int, b: int| 0 <= a < b < pairs.len() implies (#[trigger] pairs[a]).0 != (
    #[trigger] pairs[b]).0 by {
        assert(ranks_before(templates, order[a], order[b]));
        assert(0 <= order[a] < templates.len() && 0 <= order[b] < templates.len());
        if order[a] < order[b] {
            assert(templates[order[a]].0@ != templates[order[b]].0@);
        } else {
            assert(templates[order[b]].0@ != templates[order[a]].0@);
        }
    }
    lemma_object_of_distinct(pairs);
}

/// The result of the template lookup.
pub open spec fn templates_result(
    templates: Seq<(String, TemplateDefinition)>,
    matching_index: Option<Seq<char>>,
) -> Seq<ContentValue> {
    match matching_index {
        Some(index_name) => {
            let found = matching_pairs(templates, index_name);
            if found.len() == 0 {
                seq![
                    ContentValue::Text("No templates match index '"@ + index_name + "'"@),
                    ContentValue::Json(JsonValue::Object(Seq::empty())),
                ]
            } else {
                seq![
                    ContentValue::Text(
                        "Found "@ + decimal(found.len()) + " template(s) matching index '"@
                            + index_name + "' (sorted by priority):"@,
                    ),
                    ContentValue::Json(JsonValue::Object(object_of(found))),
                ]
            }
        },
        None => seq![
            ContentValue::Text("Found "@ + decimal(templates.len()) + " template(s):"@),
            ContentValue::Json(JsonValue::Object(object_of(named_templates(templates)))),
        ],
    }
}

/// What a result holds, whether parts or a failure.
pub open spec fn outcome_view(r: Result<Vec<Content>, ToolError>) -> Result<
    Seq<ContentValue>,
    ToolFailure,
> {
    match r {
        Ok(parts) => Ok(contents_view(parts@)),
        Err(e) => Err(e@),
    }
}

/// Writes the summary of an index listing.
fn listing_summary_text(total: usize, max_list: usize) -> (summary: String)
    ensures
        summary@ == listing_summary(total as nat, max_list as nat),
{
    let mut summary = String::from_str("Found ");
    push_decimal(&mut summary, total as u64);
    if total > max_list {
        summary.append(" indices (showing first ");
        push_decimal(&mut summary, max_list as u64);
        summary.append(", use index_pattern to filter):");
    } else {
        summary.append(" indices:");
    }
    summary
}

/// The two parts of a result, in order.
fn two_parts(first: Content, second: Content) -> (parts: Vec<Content>)
    ensures
        contents_view(parts@) == seq![first@, second@],
{
    let mut parts: Vec<Content> = Vec::new();
    parts.push(first);
    parts.push(second);
    assert(contents_view(parts@) =~= seq![first@, second@]);
    parts
}

impl EsBaseTools {
    /// The tools for an operation that works under `limits`.
    pub fn new(limits: SafetyLimits) -> (tools: EsBaseTools)
        ensures
            tools.limits == limits,
    {
        EsBaseTools { limits }
    }

    /// Shapes the answer to the detailed index listing. No more than
    /// `max_index_list` rows are shown, and the summary says so where rows
    /// were left out.
    pub fn list_indices_detailed(&self, rows: Vec<Json>) -> (parts: Vec<Content>)
        ensures
            contents_view(parts@) == detailed_listing(rows@, self.limits),
    {
        let mut rows = rows;
        let ghost all = rows@;
        let total: usize = rows.len();
        let max_list: usize = self.limits.max_index_list;
        let truncated = total > max_list;
        if truncated {
            rows.truncate(max_list);
        }
        let summary = listing_summary_text(total, max_list);
        assert(rows@ == shown_rows(all, max_list as nat));
        two_parts(
            Content::Text(summary),
            Content::CappedJson { data: Json::array(rows), max_chars: self.limits.max_response_chars },
        )
    }

    /// Shapes the answer to the short index listing. No more than
    /// `max_index_list` rows are shown, and the summary says so where rows
    /// were left out.
    pub fn list_indices(&self, rows: &Vec<CatIndexResponse>) -> (parts: Vec<Content>)
        ensures
            contents_view(parts@) == short_listing(rows@, self.limits),
    {
        let total: usize = rows.len();
        let max_list: usize = self.limits.max_index_list;
        let shown: usize = if total > max_list {
            max_list
        } else {
            total
        };
        let summary = listing_summary_text(total, max_list);
        let mut items: Vec<Json> = Vec::new();
        let mut i: usize = 0;
        while i < shown
            invariant
                i <= shown <= rows.len(),
                items@.len() == i,
                forall|k: int| 0 <= k < i ==> (#[trigger] items@[k])@ == rows@[k].as_value(),
            decreases shown - i,
        {
            items.push(rows[i].to_json());
            i += 1;
        }
        assert(items_view(items@) =~= index_rows_value(shown_rows(rows@, max_list as nat)));
        two_parts(Content::Text(summary), Content::Json(Json::array(items)))
    }

    /// Shapes the answer to the shard listing.
    pub fn get_shards(&self, rows: &Vec<CatShardsResponse>) -> (parts: Vec<Content>)
        ensures
            contents_view(parts@) == shard_listing(rows@),
    {
        let mut summary = String::from_str("Found ");
        push_decimal(&mut summary, rows.len() as u64);
        summary.append(" shards:");
        let mut items: Vec<Json> = Vec::new();
        let mut i: usize = 0;
        while i < rows.len()
            invariant
                i <= rows.len(),
                items@.len() == i,
                forall|k: int| 0 <= k < i ==> (#[trigger] items@[k])@ == rows@[k].as_value(),
            decreases rows.len() - i,
        {
            items.push(rows[i].to_json());
            i += 1;
        }
        assert(items_view(items@) =~= shard_rows_value(rows@));
        two_parts(Content::Text(summary), Content::Json(Json::array(items)))
    }

    /// Shapes the answer to the mapping lookup. A name with wildcards may
    /// bring the mappings of several indices, each under its own name: the
    /// first is shown. An answer without mappings is a failure.
    pub fn get_mappings(&self, index: &str, mappings: &NameMap<Mappings>) -> (r: Result<
        Vec<Content>,
        ToolError,
    >)
        ensures
            outcome_view(r) == mapping_result(index@, mappings@),
    {
        if mappings.len() == 0 {
            return Err(ToolError::NoMappingFound);
        }
        let mut heading = String::from_str("Mappings for index ");
        heading.append(index);
        heading.append(":");
        Ok(two_parts(Content::Text(heading), Content::Json(mappings.item(0).to_json())))
    }

    /// Shapes the answer to a search. The documents are handed on as one
    /// array of their sources. The count line is left out where the answer
    /// holds aggregations and no documents; the aggregations, where there
    /// are any, follow under a heading of their own.
    pub fn search(&self, response: &SearchResult) -> (parts: Vec<Content>)
        ensures
            contents_view(parts@) == search_parts(*response, self.limits.max_response_chars),
    {
        let max_chars: usize = self.limits.max_response_chars;
        let hits = &response.hits.hits;
        let no_aggregations = has_no_entries(&response.aggregations);
        let mut parts: Vec<Content> = Vec::new();
        if no_aggregations || hits.len() > 0 {
            let mut stats = String::from_str("Total results: ");
            match &response.hits.total {
                Some(total) => {
                    push_decimal(&mut stats, total.value);
                },
                None => {
                    stats.append("unknown");
                },
            }
            stats.append(", showing ");
            push_decimal(&mut stats, hits.len() as u64);
            stats.append(".");
            parts.push(Content::Text(stats));
        }
        assert(contents_view(parts@) =~= count_line(*response));
        if hits.len() > 0 {
            let mut sources: Vec<Json> = Vec::new();
            let mut i: usize = 0;
            while i < hits.len()
                invariant
                    i <= hits.len(),
                    sources@.len() == i,
                    forall|k: int| 0 <= k < i ==> (#[trigger] sources@[k])@ == hits@[k].source@,
                decreases hits.len() - i,
            {
                sources.push(hits[i].source.clone());
                i += 1;
            }
            assert(items_view(sources@) =~= sources_value(hits@));
            parts.push(Content::CappedJson { data: Json::array(sources), max_chars });
        }
        assert(contents_view(parts@) =~= count_line(*response) + found_documents(
            *response,
            max_chars,
        ));
        if !no_aggregations {
            parts.push(Content::Text(String::from_str("Aggregations results:")));
            parts.push(
                Content::CappedJson {
                    data: aggregations_to_json(&response.aggregations),
                    max_chars,
                },
            );
        }
        assert(contents_view(parts@) =~= search_parts(*response, max_chars));
        parts
    }

    /// Shapes the answer to a structured query: each row becomes a record
    /// that holds the row's values under the names of their columns, and
    /// the records are to be cut to the response budget. A row that has not
    /// one value per column is a failure, and the first such row is named.
    pub fn esql(&self, response: &EsqlQueryResponse) -> (r: Result<Vec<Content>, ToolError>)
        ensures
            outcome_view(r) == esql_result(*response, self.limits.max_response_chars),
    {
        let width: usize = response.columns.len();
        let mut objects: Vec<Json> = Vec::new();
        let mut row: usize = 0;
        while row < response.values.len()
            invariant
                row <= response.values.len(),
                width == response.columns@.len(),
                objects@.len() == row,
                forall|j: int| 0 <= j < row ==> row_fits(*response, j),
                forall|j: int| 0 <= j < row ==> (#[trigger] objects@[j])@ == records(*response)[j],
            decreases response.values.len() - row,
        {
            let values = &response.values[row];
            if values.len() != width {
                proof {
                    lemma_first_bad_row(*response, row as int);
                }
                return Err(
                    ToolError::RowWidthMismatch { row, expected: width, found: values.len() },
                );
            }
            let ghost pairs = record_pairs(response.columns@, values@);
            let mut record = ObjectBuilder::new();
            let mut i: usize = 0;
            while i < width
                invariant
                    i <= width,
                    width == response.columns@.len(),
                    width == values@.len(),
                    pairs == record_pairs(response.columns@, values@),
                    record.wf(),
                    record.pairs() == pairs.subrange(0, i as int),
                decreases width - i,
            {
                record.put(response.columns[i].name.as_str(), values[i].clone());
                assert(pairs.subrange(0, i + 1) =~= pairs.subrange(0, i as int).push(
                    pairs[i as int],
                ));
                i += 1;
            }
            assert(pairs.subrange(0, width as int) =~= pairs);
            objects.push(Json::Object(record.finish()));
            row += 1;
        }
        assert(items_view(objects@) =~= records(*response));
        assert(!has_bad_row(*response));
        Ok(
            two_parts(
                Content::Text(String::from_str("Results")),
                Content::CappedJson {
                    data: Json::array(objects),
                    max_chars: self.limits.max_response_chars,
                },
            ),
        )
    }

    /// Shapes the answer to the cluster health check: the answer itself.
    pub fn get_cluster_health(&self, health: Json) -> (parts: Vec<Content>)
        ensures
            contents_view(parts@) == seq![ContentValue::Json(health@)],
    {
        let mut parts: Vec<Content> = Vec::new();
        parts.push(Content::Json(health));
        assert(contents_view(parts@) =~= seq![ContentValue::Json(health@)]);
        parts
    }

    /// Shapes the answer to the node listing: one object that holds the
    /// listing under the name `nodes`.
    pub fn get_nodes_info(&self, nodes: Json) -> (parts: Vec<Content>)
        ensures
            contents_view(parts@) == seq![
                ContentValue::Json(JsonValue::Object(object_of(seq![("nodes"@, nodes@)]))),
            ],
    {
        let mut wrapped = ObjectBuilder::new();
        let ghost held = nodes@;
        wrapped.put("nodes", nodes);
        assert(wrapped.pairs() =~= seq![("nodes"@, held)]);
        let mut parts: Vec<Content> = Vec::new();
        parts.push(Content::Json(Json::Object(wrapped.finish())));
        assert(contents_view(parts@) =~= seq![
            ContentValue::Json(JsonValue::Object(object_of(seq![("nodes"@, held)]))),
        ]);
        parts
    }

    /// Shapes the answer to the template lookup. With an index name, the
    /// templates that apply to it are shown, highest priority first, or a
    /// line that says that none applies. Without one, all templates of the
    /// answer are shown. No name occurs twice among the templates, so each
    /// that is counted is shown under its own name.
    pub fn get_templates(
        &self,
        templates: &NameMap<TemplateDefinition>,
        matching_index: Option<&str>,
    ) -> (parts: Vec<Content>)
        ensures
            contents_view(parts@) == templates_result(templates@, raw_view(matching_index)),
            distinct_names(templates@),
            matching_index is Some ==> is_resolution(
                templates@,
                matching_index->0@,
                resolution_order(templates@, matching_index->0@),
            ),
    {
        match matching_index {
            Some(index_name) => {
                let found = find_matching_templates(templates, index_name);
                let ghost pairs = matching_pairs(templates@, index_name@);
                if found.len() == 0 {
                    let mut line = String::from_str("No templates match index '");
                    line.append(index_name);
                    line.append("'");
                    return two_parts(
                        Content::Text(line),
                        Content::Json(Json::Object(ObjectBuilder::new().finish())),
                    );
                }
                let mut line = String::from_str("Found ");
                push_decimal(&mut line, found.len() as u64);
                line.append(" template(s) matching index '");
                line.append(index_name);
                line.append("' (sorted by priority):");
                let mut shown = ObjectBuilder::new();
                let mut k: usize = 0;
                while k < found.len()
                    invariant
                        k <= found.len(),
                        pairs == matching_pairs(templates@, index_name@),
                        pairs.len() == found@.len(),
                        is_resolution(
                            templates@,
                            index_name@,
                            resolution_order(templates@, index_name@),
                        ),
                        forall|j: int|
                            0 <= j < found@.len() ==> {
                                let place = resolution_order(templates@, index_name@)[j];
                                &&& (#[trigger] found@[j]).0@ == templates@[place].0@
                                &&& *found@[j].1 == templates@[place].1
                            },
                        shown.wf(),
                        shown.pairs() == pairs.subrange(0, k as int),
                    decreases found.len() - k,
                {
                    let entry = found[k];
                    shown.put(entry.0, entry.1.to_json());
                    assert(pairs.subrange(0, k + 1) =~= pairs.subrange(0, k as int).push(
                        pairs[k as int],
                    ));
                    k += 1;
                }
                assert(pairs.subrange(0, k as int) =~= pairs);
                two_parts(Content::Text(line), Content::Json(Json::Object(shown.finish())))
            },
            None => {
                let total: usize = templates.len();
                let mut line = String::from_str("Found ");
                push_decimal(&mut line, total as u64);
                line.append(" template(s):");
                let ghost pairs = named_templates(templates@);
                let mut shown = ObjectBuilder::new();
                let mut k: usize = 0;
                while k < total
                    invariant
                        k <= total,
                        total == templates@.len(),
                        pairs == named_templates(templates@),
                        shown.wf(),
                        shown.pairs() == pairs.subrange(0, k as int),
                    decreases total - k,
                {
                    shown.put(templates.name(k).as_str(), templates.item(k).to_json());
                    assert(pairs.subrange(0, k + 1) =~= pairs.subrange(0, k as int).push(
                        pairs[k as int],
                    ));
                    k += 1;
                }
                assert(pairs.subrange(0, k as int) =~= pairs);
                two_parts(Content::Text(line), Content::Json(Json::Object(shown.finish())))
            },
        }
    }
}

} // verus!
