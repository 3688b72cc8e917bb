//! Request shaping and response safety for a set of search-engine tools.
//!
//! The crate holds the decisions that sit between a tool call and the
//! backend: resolving the safety limits, cutting an oversized response at a
//! character boundary, matching index templates against an index name and
//! ranking them, adjusting a search body, and shaping each backend answer
//! into the parts of a tool result. Everything is stated over plain values,
//! so the caller owns the network client and the wire formats.
//!
//! An operation runs in two halves. [`tools::EsBaseTools::plan`] turns a
//! call into the request to send; the caller sends it and reads the answer;
//! [`tools::EsBaseTools::finish`] turns the answer into the result. The
//! modules below the two hold what the halves are made of:
//!
//! - [`text`]: writing numbers and comparing texts;
//! - [`limits`]: the three limits and how a configured value is read;
//! - [`truncate`]: cutting a text that is over its budget;
//! - [`pattern`]: matching a name against a wildcard pattern;
//! - [`templates`]: index templates and their order of priority;
//! - [`query`]: preparing a search body;
//! - [`json`], [`number`], [`named`], [`responses`], [`aggregations`]: the
//!   data that goes through;
//! - [`requests`], [`content`]: what is asked and what is handed back;
//! - [`tools`], [`dispatch`]: one tool at a time, and all of them together.

pub mod text;
pub mod limits;
pub mod truncate;
pub mod pattern;
pub mod number;
pub mod json;
pub mod named;
pub mod query;
pub mod templates;
pub mod responses;
pub mod aggregations;
pub mod content;
pub mod requests;
pub mod tools;
pub mod dispatch;
