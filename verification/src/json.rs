//! JSONPath queries on the JSON lines that `tstables --log-json-line`
//! prints, answered by `jsonpath_rust` on the value `serde_json` reads, and
//! the part of each matched value that the EIT evaluation uses.
use vstd::prelude::*;

verus! {

/// The part of a matched JSON value that the EIT evaluation reads.
#[derive(Debug)]
pub enum JsonScalar {
    /// A number; the `i64` it denotes (`serde_json::Number::as_i64`), if any.
    Number(Option<i64>),
    /// A string.
    Text(String),
    /// Anything else (null, boolean, array, object).
    Other,
}

/// What a JSONPath query on a JSON text answers.
#[derive(Debug)]
pub enum PathAnswer {
    /// The text is not JSON, or the query is not a JSONPath.
    Refused,
    /// `path` answers `null`, which it does when every match it found is a
    /// missing value.
    Nothing,
    /// The matched values in order (`path` answers an array, which may be
    /// empty).
    Matches(Vec<JsonScalar>),
}

/// Whether `serde_json::from_str::<serde_json::Value>` reads `text`.
pub uninterp spec fn json_text_parses(text: Seq<char>) -> bool;

/// What `jsonpath_rust::JsonPathQuery::path` answers for `query` on the
/// value that `serde_json` reads from `text`.
pub uninterp spec fn json_path_answer(text: Seq<char>, query: Seq<char>) -> PathAnswer;

/// `serde_json::from_str::<serde_json::Value>(text)`: claimed only that the
/// outcome is a function of the text, named `json_text_parses`.
#[verifier::external_body]
pub(crate) fn is_json(text: &str) -> (r: bool)
    ensures
        r == json_text_parses(text@),
{
    serde_json::from_str::<serde_json::Value>(text).is_ok()
}

/// The six JSONPath queries that the EIT evaluation runs; `jsonpath_rust`
/// answers each of them without panicking (none holds a slice, a filter or a
/// step).
pub open spec fn is_eit_query(q: Seq<char>) -> bool {
    ||| q == "$.original_network_id"@
    ||| q == "$.service_id"@
    ||| q == "$.type"@
    ||| q == "$.#nodes.*.event_id"@
    ||| q == "$.#nodes.*.start_time"@
    ||| q == "$.#nodes.*.duration"@
}

/// `jsonpath_rust::JsonPathQuery::path(query)` on the value `serde_json`
/// reads from `text`, each matched value taken as a `JsonScalar`. Claimed:
/// the answer is a function of the text and the query (`json_path_answer`),
/// and it is `Refused` when the text is not JSON. What the query matches is
/// the crate's own and is not stated here. The query is one of the six the
/// EIT evaluation runs; other queries (a slice with step 0) can panic.
#[verifier::external_body]
pub(crate) fn json_path(text: &str, query: &str) -> (r: PathAnswer)
    requires
        is_eit_query(query@),
    ensures
        r == json_path_answer(text@, query@),
        !json_text_parses(text@) ==> r is Refused,
{
    match serde_json::from_str::<serde_json::Value>(text) {
        Err(_) => PathAnswer::Refused,
        Ok(v) => match jsonpath_rust::JsonPathQuery::path(v, query) {
            Err(_) => PathAnswer::Refused,
            Ok(serde_json::Value::Array(items)) => PathAnswer::Matches(items.into_iter().map(|x| match x {
                serde_json::Value::Number(n) => JsonScalar::Number(n.as_i64()),
                serde_json::Value::String(s) => JsonScalar::Text(s),
                _ => JsonScalar::Other,
            }).collect()),
            Ok(_) => PathAnswer::Nothing,
        },
    }
}

/// The matched values of an answer; none unless it is `Matches`.
pub open spec fn matches_of(a: PathAnswer) -> Seq<JsonScalar> {
    match a {
        PathAnswer::Matches(v) => v@,
        _ => Seq::empty(),
    }
}

} // verus!
