//! One operation from call to result: what is asked of the backend, and
//! what becomes of what the backend answers.

use vstd::prelude::*;
use crate::content::{CallFailure, Content, ContentValue, ToolError, ToolFailure};
use crate::json::{object_of, Json, JsonValue};
use crate::limits::SafetyLimits;
use crate::named::NameMap;
use crate::query::augmented;
use crate::requests::{
    GetTemplatesParams,
    esql_request, get_cluster_health_request, get_mappings_request, get_nodes_info_request,
    get_shards_request, get_templates_request, list_indices_detailed_request,
    list_indices_request, optional_health_of, requested_fields, search_request,
    template_name_pattern, BackendRequest, Columns, Operation,
};
use crate::responses::{
    CatIndexResponse, CatShardsResponse, EsqlQueryRequest, EsqlQueryResponse, Mappings,
    SearchResult,
};
use crate::templates::TemplateDefinition;
use crate::tools::{
    count_line, detailed_listing, esql_result, found_aggregations, found_documents,
    mapping_result, outcome_view, search_parts, shard_listing, short_listing, templates_result,
    EsBaseTools,
};

verus! {

/// What the backend answered, read into the form that the operation works
/// on. Maps from names that the backend sends arrive as name maps, in the
/// order in which the reader went through them.
#[derive(Debug, PartialEq)]
pub enum BackendResponse {
    /// The rows of the detailed index listing, as they came.
    IndexRows(Vec<Json>),
    /// The rows of the short index listing.
    Indices(Vec<CatIndexResponse>),
    /// The mappings of each index that the name stood for.
    Mappings(NameMap<Mappings>),
    /// The answer to a search.
    Search(SearchResult),
    /// The answer to a structured query.
    Esql(EsqlQueryResponse),
    /// The rows of the shard listing.
    Shards(Vec<CatShardsResponse>),
    /// The cluster's health, as it came.
    ClusterHealth(Json),
    /// The node listing, as it came.
    Nodes(Json),
    /// The templates that the name pattern stood for, each with its name.
    Templates(NameMap<TemplateDefinition>),
}

/// What an operation keeps of its call while the backend works.
#[derive(Clone, Debug, PartialEq)]
pub enum Pending {
    ListIndicesDetailed,
    ListIndices,
    GetMappings { index: String },
    Search,
    Esql,
    GetShards,
    GetClusterHealth,
    GetNodesInfo,
    GetTemplates { matching_index: Option<String> },
}

/// Whether `request` and `pending` are what the call `op` asks and keeps
/// under `limits`.
pub open spec fn is_plan(
    op: Operation,
    limits: SafetyLimits,
    request: BackendRequest,
    pending: Pending,
) -> bool {
    match op {
        Operation::ListIndicesDetailed(p) => {
            &&& request == (BackendRequest::CatIndices {
                index_pattern: p.index_pattern,
                health: optional_health_of(p.health),
                sort_by: p.sort_by,
                columns: Columns::IndexDetail,
            })
            &&& pending == Pending::ListIndicesDetailed
        },
        Operation::ListIndices(p) => {
            &&& request == (BackendRequest::CatIndices {
                index_pattern: p.index_pattern,
                health: None,
                sort_by: None,
                columns: Columns::IndexSummary,
            })
            &&& pending == Pending::ListIndices
        },
        Operation::GetMappings(p) => {
            &&& request matches BackendRequest::GetMapping { index }
            &&& index@ == p.index@
            &&& pending matches Pending::GetMappings { index: kept }
            &&& kept@ == p.index@
        },
        Operation::Search(p) => {
            &&& request matches BackendRequest::Search { index, body }
            &&& index == p.index
            &&& body@ == augmented(p.query_body@, requested_fields(p.fields), limits.max_search_size)
            &&& pending == Pending::Search
        },
        Operation::Esql(p) => {
            &&& request == (BackendRequest::EsqlQuery { body: EsqlQueryRequest { query: p.query } })
            &&& pending == Pending::Esql
        },
        Operation::GetShards(p) => {
            &&& request == (BackendRequest::CatShards { index: p.index, columns: Columns::Shards })
            &&& pending == Pending::GetShards
        },
        Operation::GetClusterHealth(p) => {
            &&& request == (BackendRequest::ClusterHealth {
                wait_for_status: optional_health_of(p.wait_for_status),
                timeout: p.timeout,
            })
            &&& pending == Pending::GetClusterHealth
        },
        Operation::GetNodesInfo(p) => {
            &&& request == (BackendRequest::CatNodes { columns: Columns::Nodes })
            &&& pending == Pending::GetNodesInfo
        },
        Operation::GetTemplates(p) => {
            &&& request matches BackendRequest::GetTemplate { name }
            &&& name@ == template_name_pattern(p.name)
            &&& pending == (Pending::GetTemplates { matching_index: p.matching_index })
        },
    }
}

/// What an optional string holds.
pub open spec fn optional_text(text: Option<String>) -> Option<Seq<char>> {
    match text {
        Some(s) => Some(s@),
        None => None,
    }
}

/// The result of an operation, given what it kept of its call and how the
/// backend call went. A failed call gives the backend's description, as it
/// is; so does an answer that could not be read, as a failure of another
/// kind. An answer of another kind than the operation asked for is a
/// failure of its own.
pub open spec fn finished(
    limits: SafetyLimits,
    pending: Pending,
    outcome: Result<BackendResponse, CallFailure>,
) -> Result<Seq<ContentValue>, ToolFailure> {
    match outcome {
        Err(CallFailure::Backend(description)) => Err(ToolFailure::Backend(description@)),
        Err(CallFailure::Unreadable(description)) => Err(ToolFailure::Unreadable(description@)),
        Ok(response) => match (pending, response) {
            (Pending::ListIndicesDetailed, BackendResponse::IndexRows(rows)) => Ok(
                detailed_listing(rows@, limits),
            ),
            (Pending::ListIndices, BackendResponse::Indices(rows)) => Ok(
                short_listing(rows@, limits),
            ),
            (Pending::GetMappings { index }, BackendResponse::Mappings(mappings)) => mapping_result(
                index@,
                mappings@,
            ),
            (Pending::Search, BackendResponse::Search(response)) => Ok(
                search_parts(response, limits.max_response_chars),
            ),
            (Pending::Esql, BackendResponse::Esql(response)) => esql_result(
                response,
                limits.max_response_chars,
            ),
            (Pending::GetShards, BackendResponse::Shards(rows)) => Ok(shard_listing(rows@)),
            (Pending::GetClusterHealth, BackendResponse::ClusterHealth(health)) => Ok(
                seq![ContentValue::Json(health@)],
            ),
            (Pending::GetNodesInfo, BackendResponse::Nodes(nodes)) => Ok(
                seq![ContentValue::Json(JsonValue::Object(object_of(seq![("nodes"@, nodes@)])))],
            ),
            (Pending::GetTemplates { matching_index }, BackendResponse::Templates(templates)) => Ok(
                templates_result(templates@, optional_text(matching_index)),
            ),
            _ => Err(ToolFailure::UnexpectedResponse),
        },
    }
}

/// Whether a part holds data rather than text.
pub open spec fn is_data(part: ContentValue) -> bool {
    part is Json || part is CappedJson
}

/// In every result, data comes after the text that introduces it: a data
/// part is the first part of the result or stands directly after a text.
pub proof fn lemma_data_follows_its_text(
    limits: SafetyLimits,
    pending: Pending,
    outcome: Result<BackendResponse, CallFailure>,
    i: int,
)
    requires
        finished(limits, pending, outcome) is Ok,
        0 < i < finished(limits, pending, outcome)->Ok_0.len(),
        is_data(finished(limits, pending, outcome)->Ok_0[i]),
    ensures
        finished(limits, pending, outcome)->Ok_0[i - 1] is Text,
{
    let parts = finished(limits, pending, outcome)->Ok_0;
    match outcome {
        Ok(BackendResponse::Search(response)) => {
            if pending is Search {
                let count = count_line(response);
                let documents = found_documents(response, limits.max_response_chars);
                let aggregations = found_aggregations(response, limits.max_response_chars);
                assert(parts == count + documents + aggregations);
                if i < count.len() + documents.len() {
                    assert(parts[i - 1] == count[i - 1]);
                } else {
                    assert(parts[i] == aggregations[i - count.len() - documents.len()]);
                    assert(parts[i - 1] == aggregations[i - 1 - count.len() - documents.len()]);
                }
            }
        },
        _ => {},
    }
}

impl EsBaseTools {
    /// First half of an operation: what to ask of the backend, and what to
    /// keep until it answers.
    pub fn plan(&self, op: Operation) -> (r: (BackendRequest, Pending))
        ensures
            is_plan(op, self.limits, r.0, r.1),
    {
        match op {
            Operation::ListIndicesDetailed(p) => (
                list_indices_detailed_request(p),
                Pending::ListIndicesDetailed,
            ),
            Operation::ListIndices(p) => (list_indices_request(p), Pending::ListIndices),
            Operation::GetMappings(p) => {
                let pending = Pending::GetMappings { index: p.index.clone() };
                (get_mappings_request(p), pending)
            },
            Operation::Search(p) => (
                search_request(p, self.limits.max_search_size),
                Pending::Search,
            ),
            Operation::Esql(p) => (esql_request(p), Pending::Esql),
            Operation::GetShards(p) => (get_shards_request(p), Pending::GetShards),
            Operation::GetClusterHealth(p) => (
                get_cluster_health_request(p),
                Pending::GetClusterHealth,
            ),
            Operation::GetNodesInfo(p) => (get_nodes_info_request(p), Pending::GetNodesInfo),
            Operation::GetTemplates(p) => {
                let GetTemplatesParams { name, matching_index } = p;
                (
                    get_templates_request(GetTemplatesParams { name, matching_index: None }),
                    Pending::GetTemplates { matching_index },
                )
            },
        }
    }

    /// Second half of an operation: the result, given how the backend call
    /// went. A backend failure is handed on with its description and
    /// nothing else is tried.
    pub fn finish(&self, pending: Pending, outcome: Result<BackendResponse, CallFailure>) -> (r:
        Result<Vec<Content>, ToolError>)
        ensures
            outcome_view(r) == finished(self.limits, pending, outcome),
    {
        let response = match outcome {
            Ok(response) => response,
            Err(CallFailure::Backend(description)) => {
                return Err(ToolError::Backend(description));
            },
            Err(CallFailure::Unreadable(description)) => {
                return Err(ToolError::Unreadable(description));
            },
        };
        match (pending, response) {
            (Pending::ListIndicesDetailed, BackendResponse::IndexRows(rows)) => Ok(
                self.list_indices_detailed(rows),
            ),
            (Pending::ListIndices, BackendResponse::Indices(rows)) => Ok(self.list_indices(&rows)),
            (Pending::GetMappings { index }, BackendResponse::Mappings(mappings)) => {
                self.get_mappings(index.as_str(), &mappings)
            },
            (Pending::Search, BackendResponse::Search(response)) => Ok(self.search(&response)),
            (Pending::Esql, BackendResponse::Esql(response)) => self.esql(&response),
            (Pending::GetShards, BackendResponse::Shards(rows)) => Ok(self.get_shards(&rows)),
            (Pending::GetClusterHealth, BackendResponse::ClusterHealth(health)) => Ok(
                self.get_cluster_health(health),
            ),
            (Pending::GetNodesInfo, BackendResponse::Nodes(nodes)) => Ok(
                self.get_nodes_info(nodes),
            ),
            (Pending::GetTemplates { matching_index }, BackendResponse::Templates(templates)) => {
                match &matching_index {
                    Some(index_name) => Ok(
                        self.get_templates(&templates, Some(index_name.as_str())),
                    ),
                    None => Ok(self.get_templates(&templates, None)),
                }
            },
            _ => Err(ToolError::UnexpectedResponse),
        }
    }
}

} // verus!
