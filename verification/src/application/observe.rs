//! What is recorded of every request: the fields of its trace span and the
//! labels of its metrics. Nothing here decides anything about a request.

use crate::text::{decimal, decimal_text};
use vstd::prelude::*;
use vstd::string::StringExecFns;

verus! {

/// The fields a trace span opens with.
#[derive(Debug)]
pub struct SpanFields {
    pub path: String,
    pub ip: String,
    pub x_real_ip: String,
}

/// The labels of the request counter and of the latency histogram.
#[derive(Debug)]
pub struct Labels {
    pub method: String,
    pub path: String,
    pub status: String,
}

/// The name of the request counter.
pub open spec fn counter_name() -> Seq<char> {
    "enma_http_requests_total"@
}

/// The name of the latency histogram.
pub open spec fn histogram_name() -> Seq<char> {
    "enma_http_requests_duration_seconds"@
}

/// The text in effect: the one given, or the fallback.
pub open spec fn text_or(given: Option<&str>, fallback: Seq<char>) -> Seq<char> {
    match given {
        Some(text) => text@,
        None => fallback,
    }
}

/// The name of the request counter.
pub fn requests_total() -> (name: &'static str)
    ensures
        name@ == counter_name(),
{
    "enma_http_requests_total"
}

/// The name of the latency histogram.
pub fn requests_duration_seconds() -> (name: &'static str)
    ensures
        name@ == histogram_name(),
{
    "enma_http_requests_duration_seconds"
}

/// The fields of the span of a request: its path, the address of its peer,
/// and the `X-Real-IP` header, empty where the request has none.
pub fn span_fields(path: &str, peer: &str, x_real_ip: Option<&str>) -> (fields: SpanFields)
    ensures
        fields.path@ == path@,
        fields.ip@ == peer@,
        fields.x_real_ip@ == text_or(x_real_ip, Seq::empty()),
{
    let header = match x_real_ip {
        Some(value) => String::from_str(value),
        None => String::new(),
    };
    SpanFields { path: String::from_str(path), ip: String::from_str(peer), x_real_ip: header }
}

/// The labels of a request: its method, the path of the route it matched
/// or else the path it asked for, and its status in decimal.
pub fn track_metrics(method: &str, matched_path: Option<&str>, uri_path: &str, status: u16) -> (
labels: Labels)
    ensures
        labels.method@ == method@,
        labels.path@ == text_or(matched_path, uri_path@),
        labels.status@ == decimal_text(status as nat),
{
    let path = match matched_path {
        Some(matched) => String::from_str(matched),
        None => String::from_str(uri_path),
    };
    Labels { method: String::from_str(method), path, status: decimal(status as u64) }
}

} // verus!
