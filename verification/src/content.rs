//! The parts of a tool result, and the ways in which a tool fails.

use vstd::prelude::*;
use vstd::string::*;
use crate::json::{Json, JsonValue};
use crate::text::{decimal, push_decimal};
use crate::truncate::{maybe_truncate, truncated};

verus! {

/// One part of a tool result.
#[derive(Clone, Debug, PartialEq)]
pub enum Content {
    /// Plain text: a summary or a notice.
    Text(String),
    /// Data, to be written out as JSON.
    Json(Json),
    /// Data, to be written out as JSON and then cut to `max_chars`.
    CappedJson { data: Json, max_chars: usize },
}

/// What one part of a tool result holds.
pub enum ContentValue {
    Text(Seq<char>),
    Json(JsonValue),
    CappedJson { data: JsonValue, max_chars: usize },
}

impl View for Content {
    type V = ContentValue;

    open spec fn view(&self) -> ContentValue {
        match self {
            Content::Text(s) => ContentValue::Text(s@),
            Content::Json(j) => ContentValue::Json(j@),
            Content::CappedJson { data, max_chars } => ContentValue::CappedJson {
                data: data@,
                max_chars: *max_chars,
            },
        }
    }
}

/// The text that a part is sent as, given the JSON writing of its data:
/// a text part is its own text, a data part is the writing of its data, cut
/// where the part has a budget and the writing is over it.
pub open spec fn part_text(part: ContentValue, written: Seq<char>) -> Seq<char> {
    match part {
        ContentValue::Text(text) => text,
        ContentValue::Json(_) => written,
        ContentValue::CappedJson { data, max_chars } => truncated(written, max_chars as nat).0,
    }
}

impl Content {
    /// The data of the part, where it has any.
    pub fn data(&self) -> (data: Option<&Json>)
        ensures
            match self@ {
                ContentValue::Text(_) => data is None,
                ContentValue::Json(held) => data is Some && data->0@ == held,
                ContentValue::CappedJson { data: held, max_chars } => data is Some && data->0@
                    == held,
            },
    {
        match self {
            Content::Text(_) => None,
            Content::Json(data) => Some(data),
            Content::CappedJson { data, max_chars } => Some(data),
        }
    }

    /// The text that the part is sent as, given the JSON writing of its
    /// data. For a text part the writing plays no role.
    pub fn into_text(self, written: String) -> (text: String)
        ensures
            text@ == part_text(self@, written@),
    {
        match self {
            Content::Text(text) => text,
            Content::Json(_) => written,
            Content::CappedJson { data, max_chars } => maybe_truncate(written, max_chars).0,
        }
    }
}

/// What the parts of a tool result hold, in order.
pub open spec fn contents_view(parts: Seq<Content>) -> Seq<ContentValue> {
    Seq::new(parts.len(), |i: int| parts[i]@)
}

/// The ways in which a backend call gives no answer to work on.
#[derive(Clone, Debug, PartialEq)]
pub enum CallFailure {
    /// The call itself failed, or the backend reported an error; the text
    /// is the description that came with it.
    Backend(String),
    /// The backend answered, but the answer could not be read in the form
    /// that was agreed; the text says what was found wrong.
    Unreadable(String),
}

/// The ways in which a tool fails.
#[derive(Clone, Debug, PartialEq)]
pub enum ToolError {
    /// The backend call failed; the text is the backend's own description.
    Backend(String),
    /// The backend answered, but not in the form that was agreed; the text
    /// says what was found wrong.
    Unreadable(String),
    /// The backend knows no mapping for the index that was asked about.
    NoMappingFound,
    /// A row of a structured query's answer has not one value per column.
    RowWidthMismatch { row: usize, expected: usize, found: usize },
    /// The backend's answer is not the kind that the operation expects.
    UnexpectedResponse,
}

/// What a failure holds.
pub enum ToolFailure {
    Backend(Seq<char>),
    Unreadable(Seq<char>),
    NoMappingFound,
    RowWidthMismatch { row: usize, expected: usize, found: usize },
    UnexpectedResponse,
}

impl View for ToolError {
    type V = ToolFailure;

    open spec fn view(&self) -> ToolFailure {
        match self {
            ToolError::Backend(s) => ToolFailure::Backend(s@),
            ToolError::Unreadable(s) => ToolFailure::Unreadable(s@),
            ToolError::NoMappingFound => ToolFailure::NoMappingFound,
            ToolError::RowWidthMismatch { row, expected, found } => ToolFailure::RowWidthMismatch {
                row: *row,
                expected: *expected,
                found: *found,
            },
            ToolError::UnexpectedResponse => ToolFailure::UnexpectedResponse,
        }
    }
}

/// What is said of an index without a mapping.
pub const NO_MAPPING_FOUND: &'static str =
    "No mapping found for the specified index. Please verify the index name exists.";

/// What is said of an answer of the wrong kind.
pub const UNEXPECTED_RESPONSE: &'static str =
    "The backend's answer does not have the expected form.";

/// The words that describe a failure.
pub open spec fn failure_message(failure: ToolFailure) -> Seq<char> {
    match failure {
        ToolFailure::Backend(description) => description,
        ToolFailure::Unreadable(description) => description,
        ToolFailure::NoMappingFound => NO_MAPPING_FOUND@,
        ToolFailure::RowWidthMismatch { row, expected, found } => "Row "@ + decimal(row as nat)
            + " of the query result has "@ + decimal(found as nat) + " values for "@ + decimal(
            expected as nat,
        ) + " columns."@,
        ToolFailure::UnexpectedResponse => UNEXPECTED_RESPONSE@,
    }
}

impl ToolError {
    /// Whether the failure lies in this layer's reading of an answer rather
    /// than with the backend or the request.
    pub fn is_internal(&self) -> (b: bool)
        ensures
            b == (self@ is Unreadable || self@ is RowWidthMismatch || self@ is UnexpectedResponse),
    {
        match self {
            ToolError::Unreadable(_) => true,
            ToolError::RowWidthMismatch { .. } => true,
            ToolError::UnexpectedResponse => true,
            _ => false,
        }
    }

    /// The words that describe the failure.
    pub fn message(&self) -> (m: String)
        ensures
            m@ == failure_message(self@),
    {
        match self {
            ToolError::Backend(description) => description.clone(),
            ToolError::Unreadable(description) => description.clone(),
            ToolError::NoMappingFound => String::from_str(NO_MAPPING_FOUND),
            ToolError::RowWidthMismatch { row, expected, found } => {
                let mut m = String::from_str("Row ");
                push_decimal(&mut m, *row as u64);
                m.append(" of the query result has ");
                push_decimal(&mut m, *found as u64);
                m.append(" values for ");
                push_decimal(&mut m, *expected as u64);
                m.append(" columns.");
                m
            },
            ToolError::UnexpectedResponse => String::from_str(UNEXPECTED_RESPONSE),
        }
    }
}

} // verus!
