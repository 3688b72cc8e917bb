//! What each tool asks of the backend.

use vstd::prelude::*;
use vstd::string::*;
use crate::json::{strings_view, JsonObject};
use crate::query::{augment, augmented};
use crate::responses::EsqlQueryRequest;
use crate::text::same_text;

verus! {

/// A cluster or index health colour.
#[derive(Clone, Copy, Debug, PartialEq, Eq, Structural)]
pub enum Health {
    Green,
    Yellow,
    Red,
}

/// The colour that a name stands for: `green` and `yellow` stand for
/// themselves, every other name for red.
pub open spec fn health_of(name: Seq<char>) -> Health {
    if name == "green"@ {
        Health::Green
    } else if name == "yellow"@ {
        Health::Yellow
    } else {
        Health::Red
    }
}

/// The colour that an optional name stands for.
pub open spec fn optional_health_of(name: Option<String>) -> Option<Health> {
    match name {
        Some(n) => Some(health_of(n@)),
        None => None,
    }
}

/// Reads a health colour from its name.
pub fn health_from(name: &str) -> (h: Health)
    ensures
        h == health_of(name@),
{
    if same_text(name, "green") {
        Health::Green
    } else if same_text(name, "yellow") {
        Health::Yellow
    } else {
        Health::Red
    }
}

fn optional_health_from(name: &Option<String>) -> (h: Option<Health>)
    ensures
        h == optional_health_of(*name),
{
    match name {
        Some(n) => Some(health_from(n.as_str())),
        None => None,
    }
}

/// The columns that a tabular answer is asked to have.
#[derive(Clone, Copy, Debug, PartialEq, Eq, Structural)]
pub enum Columns {
    /// `index`, `status`, `docs.count`.
    IndexSummary,
    /// `index`, `health`, `status`, `pri`, `rep`, `docs.count`,
    /// `store.size`, `pri.store.size`.
    IndexDetail,
    /// `index`, `shard`, `prirep`, `state`, `docs`, `store`, `node`.
    Shards,
    /// `name`, `ip`, `heap.percent`, `ram.percent`, `cpu`, `load_1m`,
    /// `node.role`, `master`.
    Nodes,
}

/// The names of the columns of each set, in order.
pub open spec fn column_names(columns: Columns) -> Seq<Seq<char>> {
    match columns {
        Columns::IndexSummary => seq!["index"@, "status"@, "docs.count"@],
        Columns::IndexDetail => seq![
            "index"@,
            "health"@,
            "status"@,
            "pri"@,
            "rep"@,
            "docs.count"@,
            "store.size"@,
            "pri.store.size"@,
        ],
        Columns::Shards => seq![
            "index"@,
            "shard"@,
            "prirep"@,
            "state"@,
            "docs"@,
            "store"@,
            "node"@,
        ],
        Columns::Nodes => seq![
            "name"@,
            "ip"@,
            "heap.percent"@,
            "ram.percent"@,
            "cpu"@,
            "load_1m"@,
            "node.role"@,
            "master"@,
        ],
    }
}

/// What each string slice of a list holds, in order.
pub open spec fn slices_view(names: Seq<&'static str>) -> Seq<Seq<char>> {
    Seq::new(names.len(), |i: int| names[i]@)
}

impl Columns {
    /// The names of the columns, in order.
    pub fn names(&self) -> (names: Vec<&'static str>)
        ensures
            slices_view(names@) == column_names(*self),
    {
        let mut names: Vec<&'static str> = Vec::new();
        match self {
            Columns::IndexSummary => {
                names.push("index");
                names.push("status");
                names.push("docs.count");
            },
            Columns::IndexDetail => {
                names.push("index");
                names.push("health");
                names.push("status");
                names.push("pri");
                names.push("rep");
                names.push("docs.count");
                names.push("store.size");
                names.push("pri.store.size");
            },
            Columns::Shards => {
                names.push("index");
                names.push("shard");
                names.push("prirep");
                names.push("state");
                names.push("docs");
                names.push("store");
                names.push("node");
            },
            Columns::Nodes => {
                names.push("name");
                names.push("ip");
                names.push("heap.percent");
                names.push("ram.percent");
                names.push("cpu");
                names.push("load_1m");
                names.push("node.role");
                names.push("master");
            },
        }
        assert(slices_view(names@) =~= column_names(*self));
        names
    }
}

/// Parameters of the short index listing.
#[derive(Clone, Debug, PartialEq)]
pub struct ListIndicesParams {
    /// Index pattern of the indices to list.
    pub index_pattern: String,
}

/// Parameters of the detailed index listing.
#[derive(Clone, Debug, PartialEq)]
pub struct ListIndicesDetailedParams {
    /// Index pattern of the indices to list.
    pub index_pattern: String,
    /// Filter by health status (green, yellow, red).
    pub health: Option<String>,
    /// Sort by field (docs.count, store.size).
    pub sort_by: Option<String>,
}

/// Parameters of the mapping lookup.
#[derive(Clone, Debug, PartialEq)]
pub struct GetMappingsParams {
    /// Name of the index to get mappings for.
    pub index: String,
}

/// Parameters of a search.
#[derive(Clone, Debug, PartialEq)]
pub struct SearchParams {
    /// Name of the index to search.
    pub index: String,
    /// Names of the fields that need to be returned.
    pub fields: Option<Vec<String>>,
    /// The complete query body: query, size, from, sort and so on.
    pub query_body: JsonObject,
}

/// Parameters of a structured query.
#[derive(Clone, Debug, PartialEq)]
pub struct EsqlQueryParams {
    /// The complete query.
    pub query: String,
}

/// Parameters of the shard listing.
#[derive(Clone, Debug, PartialEq)]
pub struct GetShardsParams {
    /// Index to list the shards of; all indices where absent.
    pub index: Option<String>,
}

/// Parameters of the cluster health check.
#[derive(Clone, Debug, PartialEq)]
pub struct ClusterHealthParams {
    /// Status to wait for (green, yellow, red).
    pub wait_for_status: Option<String>,
    /// How long to wait.
    pub timeout: Option<String>,
}

/// Parameters of the node listing. Neither changes what is asked: the
/// listing always covers all nodes with the full set of columns.
#[derive(Clone, Debug, PartialEq)]
pub struct NodesInfoParams {
    /// Node to report on.
    pub node_id: Option<String>,
    /// Metrics to report.
    pub metrics: Option<String>,
}

/// Parameters of the template lookup.
#[derive(Clone, Debug, PartialEq)]
pub struct GetTemplatesParams {
    /// Template name filter; `*` stands for any run of characters.
    pub name: Option<String>,
    /// Index name to find the matching templates of.
    pub matching_index: Option<String>,
}

/// The index pattern of a listing that names none.
pub fn default_index_pattern() -> (pattern: String)
    ensures
        pattern@ == "*"@,
{
    String::from_str("*")
}

/// One call of a tool.
#[derive(Clone, Debug, PartialEq)]
pub enum Operation {
    ListIndicesDetailed(ListIndicesDetailedParams),
    ListIndices(ListIndicesParams),
    GetMappings(GetMappingsParams),
    Search(SearchParams),
    Esql(EsqlQueryParams),
    GetShards(GetShardsParams),
    GetClusterHealth(ClusterHealthParams),
    GetNodesInfo(NodesInfoParams),
    GetTemplates(GetTemplatesParams),
}

/// One call of the backend.
#[derive(Clone, Debug, PartialEq)]
pub enum BackendRequest {
    /// List the indices that match a pattern.
    CatIndices { index_pattern: String, health: Option<Health>, sort_by: Option<String>, columns: Columns },
    /// Get the mappings of an index.
    GetMapping { index: String },
    /// Search an index with a query body.
    Search { index: String, body: JsonObject },
    /// Run a structured query.
    EsqlQuery { body: EsqlQueryRequest },
    /// List the shards of one index or of all.
    CatShards { index: Option<String>, columns: Columns },
    /// Report the cluster's health.
    ClusterHealth { wait_for_status: Option<Health>, timeout: Option<String> },
    /// List the nodes.
    CatNodes { columns: Columns },
    /// Get the templates whose name matches a pattern.
    GetTemplate { name: String },
}

/// The names that an optional list of field names holds.
pub open spec fn requested_fields(fields: Option<Vec<String>>) -> Seq<Seq<char>> {
    match fields {
        Some(names) => strings_view(names@),
        None => Seq::empty(),
    }
}

/// The name pattern of a template lookup: the given one, or `*`.
pub open spec fn template_name_pattern(name: Option<String>) -> Seq<char> {
    match name {
        Some(n) => n@,
        None => "*"@,
    }
}

/// What the detailed index listing asks of the backend.
pub fn list_indices_detailed_request(params: ListIndicesDetailedParams) -> (r: BackendRequest)
    ensures
        r == (BackendRequest::CatIndices {
            index_pattern: params.index_pattern,
            health: optional_health_of(params.health),
            sort_by: params.sort_by,
            columns: Columns::IndexDetail,
        }),
{
    let health = optional_health_from(&params.health);
    BackendRequest::CatIndices {
        index_pattern: params.index_pattern,
        health,
        sort_by: params.sort_by,
        columns: Columns::IndexDetail,
    }
}

/// What the short index listing asks of the backend.
pub fn list_indices_request(params: ListIndicesParams) -> (r: BackendRequest)
    ensures
        r == (BackendRequest::CatIndices {
            index_pattern: params.index_pattern,
            health: None,
            sort_by: None,
            columns: Columns::IndexSummary,
        }),
{
    BackendRequest::CatIndices {
        index_pattern: params.index_pattern,
        health: None,
        sort_by: None,
        columns: Columns::IndexSummary,
    }
}

/// What the mapping lookup asks of the backend.
pub fn get_mappings_request(params: GetMappingsParams) -> (r: BackendRequest)
    ensures
        r == (BackendRequest::GetMapping { index: params.index }),
{
    BackendRequest::GetMapping { index: params.index }
}

/// What a search asks of the backend: the query body, with its result count
/// held to `max_search_size` and the requested fields merged into its
/// source filter.
pub fn search_request(params: SearchParams, max_search_size: u64) -> (r: BackendRequest)
    ensures
        r matches BackendRequest::Search { index, body } && index == params.index && body@
            == augmented(params.query_body@, requested_fields(params.fields), max_search_size),
{
    let body = match &params.fields {
        Some(names) => augment(params.query_body, names, max_search_size),
        None => {
            let none: Vec<String> = Vec::new();
            assert(strings_view(none@) =~= Seq::<Seq<char>>::empty());
            augment(params.query_body, &none, max_search_size)
        },
    };
    BackendRequest::Search { index: params.index, body }
}

/// What a structured query asks of the backend.
pub fn esql_request(params: EsqlQueryParams) -> (r: BackendRequest)
    ensures
        r == (BackendRequest::EsqlQuery { body: EsqlQueryRequest { query: params.query } }),
{
    BackendRequest::EsqlQuery { body: EsqlQueryRequest { query: params.query } }
}

/// What the shard listing asks of the backend.
pub fn get_shards_request(params: GetShardsParams) -> (r: BackendRequest)
    ensures
        r == (BackendRequest::CatShards { index: params.index, columns: Columns::Shards }),
{
    BackendRequest::CatShards { index: params.index, columns: Columns::Shards }
}

/// What the cluster health check asks of the backend.
pub fn get_cluster_health_request(params: ClusterHealthParams) -> (r: BackendRequest)
    ensures
        r == (BackendRequest::ClusterHealth {
            wait_for_status: optional_health_of(params.wait_for_status),
            timeout: params.timeout,
        }),
{
    let wait_for_status = optional_health_from(&params.wait_for_status);
    BackendRequest::ClusterHealth { wait_for_status, timeout: params.timeout }
}

/// What the node listing asks of the backend.
pub fn get_nodes_info_request(params: NodesInfoParams) -> (r: BackendRequest)
    ensures
        r == (BackendRequest::CatNodes { columns: Columns::Nodes }),
{
    BackendRequest::CatNodes { columns: Columns::Nodes }
}

/// What the template lookup asks of the backend.
pub fn get_templates_request(params: GetTemplatesParams) -> (r: BackendRequest)
    ensures
        r matches BackendRequest::GetTemplate { name } && name@ == template_name_pattern(
            params.name,
        ),
{
    let name = match params.name {
        Some(n) => n,
        None => String::from_str("*"),
    };
    BackendRequest::GetTemplate { name }
}

} // verus!
